//! The field resolution engine: per field name, decide eligibility (exactly
//! one distinct type rendering) and coverage shape (all variants or a strict
//! subset). An ambiguous field is excluded entirely, with a warning; the
//! others resolve to the single rendering. A field with no candidate type
//! cannot come out of collection, so resolution requires it away instead of
//! aborting on it.

use vstd::prelude::*;

use crate::ast::Diagnostic;
use crate::collect::{Collection, FieldInfo};
use crate::text::{views, views_eq};

verus! {

/// One eligible field, ready for synthesis: the single type rendering, the
/// coverage, and whether that coverage is full.
pub struct ResolvedField {
    /// The field name; the read accessor is named after it.
    pub name: String,
    /// The one type rendering of the field.
    pub ty: String,
    /// The names of the variants that carry the field, sorted.
    pub variants: Vec<String>,
    /// Whether every variant carries the field.
    pub full: bool,
}

/// The view of a resolved field.
pub ghost struct ResolvedFieldV {
    pub name: Seq<char>,
    pub ty: Seq<char>,
    pub variants: Seq<Seq<char>>,
    pub full: bool,
}

/// The view of one resolved field.
pub open spec fn rview(r: ResolvedField) -> ResolvedFieldV {
    ResolvedFieldV {
        name: r.name@,
        ty: r.ty@,
        variants: views(r.variants@),
        full: r.full,
    }
}

/// The views of a resolved field list.
pub open spec fn rviews(rs: Seq<ResolvedField>) -> Seq<ResolvedFieldV> {
    rs.map_values(|r: ResolvedField| rview(r))
}

/// What resolution makes of a field index: the fields with exactly one type
/// rendering, in index order, each with its coverage and its coverage shape.
pub open spec fn spec_resolve(fs: Seq<FieldInfo>, all: Seq<Seq<char>>) -> Seq<ResolvedFieldV>
    decreases fs.len(),
{
    if fs.len() == 0 {
        Seq::empty()
    } else {
        spec_resolve(fs.drop_last(), all) + (if fs.last().types@.len() == 1 {
            seq![
                ResolvedFieldV {
                    name: fs.last().name@,
                    ty: views(fs.last().types@)[0],
                    variants: views(fs.last().variants@),
                    full: views(fs.last().variants@) == all,
                },
            ]
        } else {
            Seq::<ResolvedFieldV>::empty()
        })
    }
}

/// The ambiguity warnings of resolution: one per field with more than one
/// type rendering, in index order.
pub open spec fn ambiguity_diags(fs: Seq<FieldInfo>) -> Seq<Diagnostic>
    decreases fs.len(),
{
    if fs.len() == 0 {
        Seq::empty()
    } else {
        ambiguity_diags(fs.drop_last()) + (if fs.last().types@.len() == 1 {
            Seq::<Diagnostic>::empty()
        } else {
            seq![Diagnostic::TypeAmbiguityWarning { field: fs.last().name }]
        })
    }
}

/// Copy a vector of strings; the copy holds equal strings.
pub fn clone_strings(v: &Vec<String>) -> (r: Vec<String>)
    ensures
        r@ == v@,
{
    let mut r: Vec<String> = Vec::new();
    let mut i: usize = 0;
    while i < v.len()
        invariant
            i <= v.len(),
            r@ == v@.take(i as int),
        decreases v.len() - i,
    {
        r.push(v[i].clone());
        proof {
            assert(r@ =~= v@.take(i + 1));
        }
        i = i + 1;
    }
    proof {
        assert(v@.take(v@.len() as int) =~= v@);
    }
    r
}

/// The resolution pass: keep each field with exactly one type rendering,
/// record whether its coverage is full, and warn on each ambiguous field.
pub fn resolve(c: &Collection) -> (r: (Vec<ResolvedField>, Vec<Diagnostic>))
    requires
        forall|k: int| 0 <= k < c.fields@.len() ==> (#[trigger] c.fields@[k]).types@.len() >= 1,
    ensures
        rviews(r.0@) == spec_resolve(c.fields@, views(c.variant_names@)),
        r.1@ == ambiguity_diags(c.fields@),
{
    let mut out: Vec<ResolvedField> = Vec::new();
    let mut diags: Vec<Diagnostic> = Vec::new();
    let mut k: usize = 0;
    proof {
        assert(c.fields@.take(0) =~= Seq::<FieldInfo>::empty());
        assert(rviews(out@) =~= spec_resolve(c.fields@.take(0), views(c.variant_names@)));
        assert(diags@ =~= ambiguity_diags(c.fields@.take(0)));
    }
    while k < c.fields.len()
        invariant
            k <= c.fields.len(),
            rviews(out@) == spec_resolve(c.fields@.take(k as int), views(c.variant_names@)),
            diags@ == ambiguity_diags(c.fields@.take(k as int)),
        decreases c.fields.len() - k,
    {
        let ghost pre = c.fields@.take(k as int);
        let ghost post = c.fields@.take(k + 1);
        proof {
            assert(post.drop_last() =~= pre);
            assert(post.last() == c.fields@[k as int]);
        }
        let fi = &c.fields[k];
        if fi.types.len() == 1 {
            let full = views_eq(&fi.variants, &c.variant_names);
            let rf = ResolvedField {
                name: fi.name.clone(),
                ty: fi.types[0].clone(),
                variants: clone_strings(&fi.variants),
                full,
            };
            proof {
                assert(views(fi.types@)[0] == fi.types@[0]@);
                assert(rview(rf) == ResolvedFieldV {
                    name: fi.name@,
                    ty: views(fi.types@)[0],
                    variants: views(fi.variants@),
                    full: views(fi.variants@) == views(c.variant_names@),
                });
            }
            out.push(rf);
            proof {
                assert(rviews(out@) =~= spec_resolve(post, views(c.variant_names@)));
            }
        } else {
            diags.push(Diagnostic::TypeAmbiguityWarning { field: fi.name.clone() });
            proof {
                assert(rviews(out@) =~= spec_resolve(post, views(c.variant_names@)));
                assert(diags@ =~= ambiguity_diags(post));
            }
        }
        proof {
            assert(diags@ =~= ambiguity_diags(post));
        }
        k = k + 1;
    }
    proof {
        assert(c.fields@.take(c.fields@.len() as int) =~= c.fields@);
    }
    (out, diags)
}

} // verus!
