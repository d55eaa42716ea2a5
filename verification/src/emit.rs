//! The accessor synthesizer: for each resolved field, emit a read and a write
//! accessor with one match arm per variant, wrapped in an `impl` block that
//! repeats the source type's generic parameter list and constraint clause
//! verbatim. The emitted text is pinned down, character for character, by the
//! spec functions of this module.

use vstd::prelude::*;

use crate::ast::GenericsDef;
use crate::resolve::{ResolvedField, ResolvedFieldV, rview, rviews};
use crate::text::{views, contains_str};

verus! {

use vstd::string::StringExecFns;

/// The return type of the read accessor: a direct reference under full
/// coverage, an optional reference otherwise.
pub open spec fn ret_read(f: ResolvedFieldV) -> Seq<char> {
    if f.full {
        "&"@ + f.ty
    } else {
        "Option<&"@ + f.ty + ">"@
    }
}

/// The return type of the write accessor: a direct mutable reference under
/// full coverage, an optional one otherwise.
pub open spec fn ret_write(f: ResolvedFieldV) -> Seq<char> {
    if f.full {
        "&mut "@ + f.ty
    } else {
        "Option<&mut "@ + f.ty + ">"@
    }
}

/// The match arm for one variant: it binds and returns the field when the
/// variant carries it (wrapped in `Some` when coverage is partial), and
/// returns `None` otherwise, which is reachable only in the partial case.
pub open spec fn arm_text(f: ResolvedFieldV, vn: Seq<char>) -> Seq<char> {
    if f.variants.contains(vn) {
        "            Self::"@ + vn + " { "@ + f.name + ", .. } => "@ + (if f.full {
            f.name
        } else {
            "Some("@ + f.name + ")"@
        }) + ",\n"@
    } else {
        "            Self::"@ + vn + " { .. } => None,\n"@
    }
}

/// One arm per variant name, in order.
pub open spec fn arms_text(f: ResolvedFieldV, vns: Seq<Seq<char>>) -> Seq<char>
    decreases vns.len(),
{
    if vns.len() == 0 {
        Seq::empty()
    } else {
        arms_text(f, vns.drop_last()) + arm_text(f, vns.last())
    }
}

/// The read accessor of one field.
pub open spec fn read_accessor_text(f: ResolvedFieldV, vns: Seq<Seq<char>>) -> Seq<char> {
    "    pub fn "@ + f.name + "(&self) -> "@ + ret_read(f) + " {\n        match self {\n"@
        + arms_text(f, vns) + "        }\n    }\n"@
}

/// The write accessor of one field: the read accessor's name with the fixed
/// suffix, no collision check against pre-existing members.
pub open spec fn write_accessor_text(f: ResolvedFieldV, vns: Seq<Seq<char>>) -> Seq<char> {
    "    pub fn "@ + f.name + "_mut"@ + "(&mut self) -> "@ + ret_write(f)
        + " {\n        match self {\n"@ + arms_text(f, vns) + "        }\n    }\n"@
}

/// Both accessors of one field, each preceded by a blank line.
pub open spec fn field_text(f: ResolvedFieldV, vns: Seq<Seq<char>>) -> Seq<char> {
    "\n"@ + read_accessor_text(f, vns) + "\n"@ + write_accessor_text(f, vns)
}

/// The accessors of all resolved fields, in resolution order.
pub open spec fn fields_text(rs: Seq<ResolvedFieldV>, vns: Seq<Seq<char>>) -> Seq<char>
    decreases rs.len(),
{
    if rs.len() == 0 {
        Seq::empty()
    } else {
        fields_text(rs.drop_last(), vns) + field_text(rs.last(), vns)
    }
}

/// A generic parameter list in angle brackets, or nothing when it is empty.
pub open spec fn generic_list(params: Seq<char>) -> Seq<char> {
    if params.len() == 0 {
        Seq::empty()
    } else {
        "<"@ + params + ">"@
    }
}

/// The head of the generated `impl` block: the source type's parameter list
/// reappears verbatim, both on `impl` and on the type, and so does the
/// constraint clause.
pub open spec fn impl_line(name: Seq<char>, params: Seq<char>, wc: Seq<char>) -> Seq<char> {
    "impl"@ + generic_list(params) + " "@ + name + generic_list(params) + (if wc.len() == 0 {
        Seq::<char>::empty()
    } else {
        " "@ + wc
    })
}

/// The whole generated extension.
pub open spec fn expansion_text(
    name: Seq<char>,
    params: Seq<char>,
    wc: Seq<char>,
    vns: Seq<Seq<char>>,
    rs: Seq<ResolvedFieldV>,
) -> Seq<char> {
    impl_line(name, params, wc) + " {\n"@ + fields_text(rs, vns) + "}\n"@
}

/// Append the match arm for one variant.
fn emit_arm(out: &mut String, f: &ResolvedField, vn: &String)
    ensures
        final(out)@ == old(out)@ + arm_text(rview(*f), vn@),
{
    if contains_str(&f.variants, vn) {
        out.append("            Self::");
        out.append(vn.as_str());
        out.append(" { ");
        out.append(f.name.as_str());
        out.append(", .. } => ");
        if f.full {
            out.append(f.name.as_str());
        } else {
            out.append("Some(");
            out.append(f.name.as_str());
            out.append(")");
        }
        out.append(",\n");
        proof {
            assert(final(out)@ =~= old(out)@ + arm_text(rview(*f), vn@));
        }
    } else {
        out.append("            Self::");
        out.append(vn.as_str());
        out.append(" { .. } => None,\n");
        proof {
            assert(final(out)@ =~= old(out)@ + arm_text(rview(*f), vn@));
        }
    }
}

/// Append one arm per variant name, in order.
fn emit_arms(out: &mut String, f: &ResolvedField, vns: &Vec<String>)
    ensures
        final(out)@ == old(out)@ + arms_text(rview(*f), views(vns@)),
{
    let mut i: usize = 0;
    proof {
        assert(views(vns@).take(0) =~= Seq::<Seq<char>>::empty());
        assert(out@ =~= old(out)@ + arms_text(rview(*f), views(vns@).take(0)));
    }
    while i < vns.len()
        invariant
            i <= vns.len(),
            out@ == old(out)@ + arms_text(rview(*f), views(vns@).take(i as int)),
        decreases vns.len() - i,
    {
        emit_arm(out, f, &vns[i]);
        proof {
            let pre = views(vns@).take(i as int);
            let post = views(vns@).take(i + 1);
            assert(post.drop_last() =~= pre);
            assert(post.last() == vns@[i as int]@);
            assert(out@ =~= old(out)@ + arms_text(rview(*f), post));
        }
        i = i + 1;
    }
    proof {
        assert(views(vns@).take(views(vns@).len() as int) =~= views(vns@));
    }
}

/// Append the two accessors of one field.
fn emit_field(out: &mut String, f: &ResolvedField, vns: &Vec<String>)
    ensures
        final(out)@ == old(out)@ + field_text(rview(*f), views(vns@)),
{
    out.append("\n");
    out.append("    pub fn ");
    out.append(f.name.as_str());
    out.append("(&self) -> ");
    if f.full {
        out.append("&");
        out.append(f.ty.as_str());
    } else {
        out.append("Option<&");
        out.append(f.ty.as_str());
        out.append(">");
    }
    out.append(" {\n        match self {\n");
    emit_arms(out, f, vns);
    out.append("        }\n    }\n");
    proof {
        assert(out@ =~= old(out)@ + "\n"@ + read_accessor_text(rview(*f), views(vns@)));
    }
    let ghost mid = out@;
    out.append("\n");
    out.append("    pub fn ");
    out.append(f.name.as_str());
    out.append("_mut");
    out.append("(&mut self) -> ");
    if f.full {
        out.append("&mut ");
        out.append(f.ty.as_str());
    } else {
        out.append("Option<&mut ");
        out.append(f.ty.as_str());
        out.append(">");
    }
    out.append(" {\n        match self {\n");
    emit_arms(out, f, vns);
    out.append("        }\n    }\n");
    proof {
        assert(out@ =~= mid + "\n"@ + write_accessor_text(rview(*f), views(vns@)));
        assert(final(out)@ =~= old(out)@ + field_text(rview(*f), views(vns@)));
    }
}

/// The synthesis pass: build the whole extension for the given type name,
/// generics, variant names and resolved fields.
pub fn emit(
    name: &String,
    generics: &GenericsDef,
    variant_names: &Vec<String>,
    rs: &Vec<ResolvedField>,
) -> (r: String)
    ensures
        r@ == expansion_text(
            name@,
            generics.params@,
            generics.where_clause@,
            views(variant_names@),
            rviews(rs@),
        ),
{
    let mut out = String::new();
    out.append("impl");
    if !generics.params.as_str().is_empty() {
        out.append("<");
        out.append(generics.params.as_str());
        out.append(">");
    }
    out.append(" ");
    out.append(name.as_str());
    if !generics.params.as_str().is_empty() {
        out.append("<");
        out.append(generics.params.as_str());
        out.append(">");
    }
    if !generics.where_clause.as_str().is_empty() {
        out.append(" ");
        out.append(generics.where_clause.as_str());
    }
    proof {
        assert(out@ =~= impl_line(name@, generics.params@, generics.where_clause@));
    }
    let ghost head = out@;
    out.append(" {\n");
    let mut i: usize = 0;
    proof {
        assert(rviews(rs@).take(0) =~= Seq::<ResolvedFieldV>::empty());
        assert(out@ =~= head + " {\n"@ + fields_text(rviews(rs@).take(0), views(variant_names@)));
    }
    while i < rs.len()
        invariant
            i <= rs.len(),
            head == impl_line(name@, generics.params@, generics.where_clause@),
            out@ == head + " {\n"@ + fields_text(
                rviews(rs@).take(i as int),
                views(variant_names@),
            ),
        decreases rs.len() - i,
    {
        emit_field(&mut out, &rs[i], variant_names);
        proof {
            let pre = rviews(rs@).take(i as int);
            let post = rviews(rs@).take(i + 1);
            assert(post.drop_last() =~= pre);
            assert(post.last() == rview(rs@[i as int]));
            assert(out@ =~= head + " {\n"@ + fields_text(post, views(variant_names@)));
        }
        i = i + 1;
    }
    out.append("}\n");
    proof {
        assert(rviews(rs@).take(rviews(rs@).len() as int) =~= rviews(rs@));
        assert(out@ =~= expansion_text(
            name@,
            generics.params@,
            generics.where_clause@,
            views(variant_names@),
            rviews(rs@),
        ));
    }
    out
}

} // verus!
