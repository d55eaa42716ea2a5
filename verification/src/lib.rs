//! Accessor synthesis for sum types.
//!
//! Given a structured description of an enum whose variants carry named
//! fields, this library decides, per field name, whether read/write accessor
//! methods can be generated, and emits the code fragment that defines them:
//! a field carried by every variant under one type rendering gets accessors
//! returning direct references; a field carried by a strict subset gets
//! optional ones; a field name seen with two different renderings gets none,
//! with a warning. The host parser supplies the description and splices the
//! emitted fragment back; both stay outside this library.

use vstd::prelude::*;

pub mod ast;
pub mod collect;
pub mod emit;
pub mod laws;
pub mod resolve;
pub mod text;

use crate::ast::{
    DeriveInput, Expansion, InputData, StructuralError, in_diversity, occurs, shape_diags, vviews,
};
use crate::collect::{Collection, collect, collection_abs, field_names};
use crate::emit::expansion_text;
use crate::resolve::{ambiguity_diags, resolve, spec_resolve};
use crate::text::views;

verus! {

/// What the generator guarantees of its output: some collection describes
/// the variant list exactly, and the code and the diagnostics are exactly
/// what resolution and synthesis make of that collection. Any two outputs
/// related to one input by this predicate agree, character for character.
pub open spec fn expansion_describes(input: DeriveInput, e: Expansion) -> bool {
    match input.data {
        InputData::Enum(variants) => exists|c: Collection|
            {
                &&& #[trigger] collection_abs(vviews(variants@), c)
                &&& e.code@ == expansion_text(
                    input.name@,
                    input.generics.params@,
                    input.generics.where_clause@,
                    views(c.variant_names@),
                    spec_resolve(c.fields@, views(c.variant_names@)),
                )
                &&& e.diagnostics@ == shape_diags(variants@) + ambiguity_diags(c.fields@)
            },
        _ => false,
    }
}

/// Derive the accessor extension for the described type: collect the variant
/// names, coverage and diversity, resolve each field name, and synthesize the
/// accessors. An input that is not a sum type is rejected before any
/// analysis, with no partial output; warnings never abort.
pub fn enum_field_accessors(input: &DeriveInput) -> (r: Result<Expansion, StructuralError>)
    ensures
        r is Ok <==> input.data is Enum,
        r is Err ==> r->Err_0.name@ == input.name@,
        r is Ok ==> expansion_describes(*input, r->Ok_0),
{
    let variants = match &input.data {
        InputData::Enum(vs) => vs,
        InputData::Struct | InputData::Union => {
            return Err(StructuralError { name: input.name.clone() });
        },
    };
    let (c, mut diags) = collect(variants);
    proof {
        assert forall|k: int| 0 <= k < c.fields@.len() implies (#[trigger] c.fields@[k]).types@.len()
            >= 1 by {
            let fi = c.fields@[k];
            assert(field_names(c.fields@)[k] == fi.name@);
            assert(field_names(c.fields@).contains(fi.name@));
            assert(occurs(vviews(variants@), fi.name@));
            let t = choose|t: Seq<char>| #[trigger] in_diversity(vviews(variants@), fi.name@, t);
            assert(views(fi.types@).contains(t));
        }
    }
    let (rs, mut ambig) = resolve(&c);
    let code = emit::emit(&input.name, &input.generics, &c.variant_names, &rs);
    diags.append(&mut ambig);
    let e = Expansion { code, diagnostics: diags };
    proof {
        assert(collection_abs(vviews(variants@), c));
        assert(expansion_describes(*input, e));
    }
    Ok(e)
}

} // verus!
