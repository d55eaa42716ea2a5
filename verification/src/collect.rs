//! The variant collector: one pass over the variant list builds the set of
//! variant names and, per field name, its coverage (which variants carry it)
//! and its diversity (which type renderings were observed for it), each kept
//! as a sorted, duplicate-free vector. Collection never halts on a
//! per-variant issue; variants without named fields only raise a warning.

use vstd::prelude::*;

use crate::ast::{
    Diagnostic, FieldDef, VariantDef, VariantFields, VariantDefV, fview, fviews, vview, vviews,
    has_occurrence, has_field, is_variant_name, in_coverage, in_diversity, occurs, shape_diags,
};
use crate::text::{strictly_sorted, views, insert_sorted};

verus! {

/// Per field name: its coverage and its diversity, both sorted.
pub struct FieldInfo {
    /// The field name.
    pub name: String,
    /// The names of the variants that carry the field, sorted, without duplicates.
    pub variants: Vec<String>,
    /// The distinct type renderings observed for the field, sorted.
    pub types: Vec<String>,
}

/// Everything the collector gathers: the variant-name set and the field index.
pub struct Collection {
    /// All variant names, sorted, without duplicates.
    pub variant_names: Vec<String>,
    /// One entry per field name that occurs in some variant, sorted by name.
    pub fields: Vec<FieldInfo>,
}

/// The variant-name vector lists exactly the variant names, in order.
pub open spec fn names_abs(vs: Seq<VariantDefV>, names: Seq<Seq<char>>) -> bool {
    &&& strictly_sorted(names)
    &&& forall|n: Seq<char>| names.contains(n) <==> is_variant_name(vs, n)
}

/// A field entry lists exactly the field's coverage and diversity, in order.
pub open spec fn field_abs(vs: Seq<VariantDefV>, fi: FieldInfo) -> bool {
    &&& strictly_sorted(views(fi.variants@))
    &&& strictly_sorted(views(fi.types@))
    &&& forall|n: Seq<char>| views(fi.variants@).contains(n) <==> in_coverage(vs, fi.name@, n)
    &&& forall|t: Seq<char>| views(fi.types@).contains(t) <==> in_diversity(vs, fi.name@, t)
}

/// The names of the field index, in order.
pub open spec fn field_names(fs: Seq<FieldInfo>) -> Seq<Seq<char>> {
    fs.map_values(|fi: FieldInfo| fi.name@)
}

/// The field index lists exactly the field names that occur, each described
/// exactly.
pub open spec fn fields_abs(vs: Seq<VariantDefV>, fs: Seq<FieldInfo>) -> bool {
    &&& strictly_sorted(field_names(fs))
    &&& forall|f: Seq<char>| field_names(fs).contains(f) <==> occurs(vs, f)
    &&& forall|k: int| 0 <= k < fs.len() ==> field_abs(vs, #[trigger] fs[k])
}

/// The collection describes the variant list exactly.
pub open spec fn collection_abs(vs: Seq<VariantDefV>, c: Collection) -> bool {
    names_abs(vs, views(c.variant_names@)) && fields_abs(vs, c.fields@)
}

/// An occurrence of field `f` rendered `t` among the first `j` fields.
pub open spec fn occ_prefix(fs: Seq<FieldDef>, j: int, f: Seq<char>, t: Seq<char>) -> bool {
    exists|k: int| 0 <= k < j && (#[trigger] fs[k]).name@ == f && fs[k].ty@ == t
}

/// An occurrence of field `f` among the first `j` fields.
pub open spec fn name_prefix(fs: Seq<FieldDef>, j: int, f: Seq<char>) -> bool {
    exists|k: int| 0 <= k < j && (#[trigger] fs[k]).name@ == f
}

/// A named variant carries exactly the occurrences of its field list.
proof fn lemma_named_occurrences(v: VariantDef, fs: Vec<FieldDef>, f: Seq<char>, t: Seq<char>)
    requires
        v.fields == VariantFields::Named(fs),
    ensures
        has_occurrence(vview(v), f, t) <==> occ_prefix(fs@, fs@.len() as int, f, t),
        has_field(vview(v), f) <==> name_prefix(fs@, fs@.len() as int, f),
{
    let fvs = fviews(fs@);
    assert(vview(v).fields == Some(fvs));
    assert(forall|k: int| 0 <= k < fvs.len() ==> fvs[k] == fview(fs@[k]));
    if has_occurrence(vview(v), f, t) {
        let k = choose|k: int| 0 <= k < fvs.len() && (#[trigger] fvs[k]).name == f && fvs[k].ty == t;
        assert(fs@[k].name@ == f && fs@[k].ty@ == t);
    }
    if occ_prefix(fs@, fs@.len() as int, f, t) {
        let k = choose|k: int| 0 <= k < fs@.len() && (#[trigger] fs@[k]).name@ == f && fs@[k].ty@ == t;
        assert(fvs[k].name == f && fvs[k].ty == t);
    }
    if has_field(vview(v), f) {
        let t0 = choose|t0: Seq<char>| #[trigger] has_occurrence(vview(v), f, t0);
        let k = choose|k: int| 0 <= k < fvs.len() && (#[trigger] fvs[k]).name == f && fvs[k].ty == t0;
        assert(fs@[k].name@ == f);
    }
    if name_prefix(fs@, fs@.len() as int, f) {
        let k = choose|k: int| 0 <= k < fs@.len() && (#[trigger] fs@[k]).name@ == f;
        assert(fvs[k].name == f && fvs[k].ty == fs@[k].ty@);
        assert(has_occurrence(vview(v), f, fs@[k].ty@));
    }
}

/// Extending the processed prefix by one variant extends the variant names by
/// that variant's name.
proof fn lemma_variant_name_prefix(vs: Seq<VariantDef>, i: int, n: Seq<char>)
    requires
        0 <= i < vs.len(),
    ensures
        is_variant_name(vviews(vs.take(i + 1)), n) <==> (is_variant_name(
            vviews(vs.take(i)),
            n,
        ) || vs[i].name@ == n),
{
    let pre = vviews(vs.take(i));
    let post = vviews(vs.take(i + 1));
    assert(forall|j: int| 0 <= j < post.len() ==> post[j] == vview(vs.take(i + 1)[j]));
    assert(forall|j: int| 0 <= j < pre.len() ==> pre[j] == vview(vs.take(i)[j]));
    if is_variant_name(post, n) {
        let j = choose|j: int| 0 <= j < post.len() && (#[trigger] post[j]).name == n;
        if j < i {
            assert(pre[j].name == n);
        }
    }
    if is_variant_name(pre, n) {
        let j = choose|j: int| 0 <= j < pre.len() && (#[trigger] pre[j]).name == n;
        assert(post[j].name == n);
    }
    if vs[i].name@ == n {
        assert(post[i].name == n);
    }
}

/// Extending the processed prefix by one variant extends diversity by that
/// variant's occurrences.
proof fn lemma_diversity_prefix(vs: Seq<VariantDef>, i: int, f: Seq<char>, t: Seq<char>)
    requires
        0 <= i < vs.len(),
    ensures
        in_diversity(vviews(vs.take(i + 1)), f, t) <==> (in_diversity(vviews(vs.take(i)), f, t)
            || has_occurrence(vview(vs[i]), f, t)),
{
    let pre = vviews(vs.take(i));
    let post = vviews(vs.take(i + 1));
    assert(forall|j: int| 0 <= j < post.len() ==> post[j] == vview(vs.take(i + 1)[j]));
    assert(forall|j: int| 0 <= j < pre.len() ==> pre[j] == vview(vs.take(i)[j]));
    if in_diversity(post, f, t) {
        let j = choose|j: int| 0 <= j < post.len() && has_occurrence(#[trigger] post[j], f, t);
        if j < i {
            assert(has_occurrence(pre[j], f, t));
        } else {
            assert(post[j] == vview(vs[i]));
        }
    }
    if in_diversity(pre, f, t) {
        let j = choose|j: int| 0 <= j < pre.len() && has_occurrence(#[trigger] pre[j], f, t);
        assert(has_occurrence(post[j], f, t));
    }
    if has_occurrence(vview(vs[i]), f, t) {
        assert(has_occurrence(post[i], f, t));
    }
}

/// Extending the processed prefix by one variant extends coverage by that
/// variant's name, for the fields it carries.
proof fn lemma_coverage_prefix(vs: Seq<VariantDef>, i: int, f: Seq<char>, n: Seq<char>)
    requires
        0 <= i < vs.len(),
    ensures
        in_coverage(vviews(vs.take(i + 1)), f, n) <==> (in_coverage(vviews(vs.take(i)), f, n)
            || (vs[i].name@ == n && has_field(vview(vs[i]), f))),
{
    let pre = vviews(vs.take(i));
    let post = vviews(vs.take(i + 1));
    assert(forall|j: int| 0 <= j < post.len() ==> post[j] == vview(vs.take(i + 1)[j]));
    assert(forall|j: int| 0 <= j < pre.len() ==> pre[j] == vview(vs.take(i)[j]));
    if in_coverage(post, f, n) {
        let j = choose|j: int|
            0 <= j < post.len() && (#[trigger] post[j]).name == n && has_field(post[j], f);
        if j < i {
            assert(pre[j].name == n && has_field(pre[j], f));
        } else {
            assert(post[j] == vview(vs[i]));
        }
    }
    if in_coverage(pre, f, n) {
        let j = choose|j: int|
            0 <= j < pre.len() && (#[trigger] pre[j]).name == n && has_field(pre[j], f);
        assert(post[j].name == n && has_field(post[j], f));
    }
    if vs[i].name@ == n && has_field(vview(vs[i]), f) {
        assert(post[i].name == n && has_field(post[i], f));
    }
}

/// Extending the processed prefix by one variant extends the occurring field
/// names by the fields that the variant carries.
proof fn lemma_occurs_prefix(vs: Seq<VariantDef>, i: int, f: Seq<char>)
    requires
        0 <= i < vs.len(),
    ensures
        occurs(vviews(vs.take(i + 1)), f) <==> (occurs(vviews(vs.take(i)), f) || has_field(
            vview(vs[i]),
            f,
        )),
{
    if occurs(vviews(vs.take(i + 1)), f) {
        let t = choose|t: Seq<char>| #[trigger] in_diversity(vviews(vs.take(i + 1)), f, t);
        lemma_diversity_prefix(vs, i, f, t);
    }
    if occurs(vviews(vs.take(i)), f) {
        let t = choose|t: Seq<char>| #[trigger] in_diversity(vviews(vs.take(i)), f, t);
        lemma_diversity_prefix(vs, i, f, t);
    }
    if has_field(vview(vs[i]), f) {
        let t = choose|t: Seq<char>| #[trigger] has_occurrence(vview(vs[i]), f, t);
        lemma_diversity_prefix(vs, i, f, t);
    }
}

/// Gather all variant names, sorted and duplicate-free.
fn collect_variant_names(variants: &Vec<VariantDef>) -> (r: Vec<String>)
    ensures
        names_abs(vviews(variants@), views(r@)),
{
    let mut names: Vec<String> = Vec::new();
    let mut i: usize = 0;
    assert(vviews(variants@.take(0)) =~= Seq::<VariantDefV>::empty());
    while i < variants.len()
        invariant
            i <= variants.len(),
            strictly_sorted(views(names@)),
            forall|n: Seq<char>|
                views(names@).contains(n) <==> is_variant_name(
                    vviews(variants@.take(i as int)),
                    n,
                ),
        decreases variants.len() - i,
    {
        insert_sorted(&mut names, &variants[i].name);
        proof {
            assert forall|n: Seq<char>|
                views(names@).contains(n) <==> is_variant_name(
                    vviews(variants@.take(i + 1)),
                    n,
                ) by {
                lemma_variant_name_prefix(variants@, i as int, n);
            }
        }
        i = i + 1;
    }
    proof {
        assert(variants@.take(variants@.len() as int) =~= variants@);
    }
    names
}

/// Gather all field names that occur in any variant, sorted and duplicate-free.
fn collect_field_names(variants: &Vec<VariantDef>) -> (r: Vec<String>)
    ensures
        strictly_sorted(views(r@)),
        forall|f: Seq<char>| views(r@).contains(f) <==> occurs(vviews(variants@), f),
{
    let mut fnames: Vec<String> = Vec::new();
    let mut i: usize = 0;
    assert(vviews(variants@.take(0)) =~= Seq::<VariantDefV>::empty());
    while i < variants.len()
        invariant
            i <= variants.len(),
            strictly_sorted(views(fnames@)),
            forall|f: Seq<char>|
                views(fnames@).contains(f) <==> occurs(vviews(variants@.take(i as int)), f),
        decreases variants.len() - i,
    {
        let v = &variants[i];
        match &v.fields {
            VariantFields::Named(fs) => {
                let mut j: usize = 0;
                while j < fs.len()
                    invariant
                        j <= fs.len(),
                        *v == variants@[i as int],
                        i < variants@.len(),
                        v.fields == VariantFields::Named(*fs),
                        strictly_sorted(views(fnames@)),
                        forall|f: Seq<char>|
                            views(fnames@).contains(f) <==> (occurs(
                                vviews(variants@.take(i as int)),
                                f,
                            ) || name_prefix(fs@, j as int, f)),
                    decreases fs.len() - j,
                {
                    insert_sorted(&mut fnames, &fs[j].name);
                    proof {
                        assert forall|f: Seq<char>|
                            name_prefix(fs@, j + 1, f) <==> (name_prefix(fs@, j as int, f)
                                || fs@[j as int].name@ == f) by {
                            if name_prefix(fs@, j + 1, f) {
                                let k = choose|k: int|
                                    0 <= k < j + 1 && (#[trigger] fs@[k]).name@ == f;
                                if k < j {
                                    assert(name_prefix(fs@, j as int, f));
                                }
                            }
                        }
                    }
                    j = j + 1;
                }
                proof {
                    assert forall|f: Seq<char>|
                        views(fnames@).contains(f) <==> occurs(
                            vviews(variants@.take(i + 1)),
                            f,
                        ) by {
                        lemma_occurs_prefix(variants@, i as int, f);
                        lemma_named_occurrences(*v, *fs, f, Seq::empty());
                    }
                }
            },
            VariantFields::Other => {
                proof {
                    assert forall|f: Seq<char>|
                        views(fnames@).contains(f) <==> occurs(
                            vviews(variants@.take(i + 1)),
                            f,
                        ) by {
                        lemma_occurs_prefix(variants@, i as int, f);
                        assert(vview(variants@[i as int]).fields is None);
                    }
                }
            },
        }
        i = i + 1;
    }
    proof {
        assert(variants@.take(variants@.len() as int) =~= variants@);
    }
    fnames
}

/// Gather the coverage and diversity of one field name.
fn collect_field_info(variants: &Vec<VariantDef>, fname: &String) -> (r: FieldInfo)
    ensures
        r.name@ == fname@,
        field_abs(vviews(variants@), r),
{
    let mut cov: Vec<String> = Vec::new();
    let mut div: Vec<String> = Vec::new();
    let mut i: usize = 0;
    assert(vviews(variants@.take(0)) =~= Seq::<VariantDefV>::empty());
    while i < variants.len()
        invariant
            i <= variants.len(),
            strictly_sorted(views(cov@)),
            strictly_sorted(views(div@)),
            forall|n: Seq<char>|
                views(cov@).contains(n) <==> in_coverage(
                    vviews(variants@.take(i as int)),
                    fname@,
                    n,
                ),
            forall|t: Seq<char>|
                views(div@).contains(t) <==> in_diversity(
                    vviews(variants@.take(i as int)),
                    fname@,
                    t,
                ),
        decreases variants.len() - i,
    {
        let v = &variants[i];
        match &v.fields {
            VariantFields::Named(fs) => {
                let mut hit = false;
                let mut j: usize = 0;
                while j < fs.len()
                    invariant
                        j <= fs.len(),
                        *v == variants@[i as int],
                        i < variants@.len(),
                        v.fields == VariantFields::Named(*fs),
                        strictly_sorted(views(cov@)),
                        strictly_sorted(views(div@)),
                        hit == name_prefix(fs@, j as int, fname@),
                        forall|n: Seq<char>|
                            views(cov@).contains(n) <==> in_coverage(
                                vviews(variants@.take(i as int)),
                                fname@,
                                n,
                            ),
                        forall|t: Seq<char>|
                            views(div@).contains(t) <==> (in_diversity(
                                vviews(variants@.take(i as int)),
                                fname@,
                                t,
                            ) || occ_prefix(fs@, j as int, fname@, t)),
                    decreases fs.len() - j,
                {
                    let fd = &fs[j];
                    if fd.name.eq(fname) {
                        insert_sorted(&mut div, &fd.ty);
                        hit = true;
                    }
                    proof {
                        assert forall|t: Seq<char>|
                            occ_prefix(fs@, j + 1, fname@, t) <==> (occ_prefix(
                                fs@,
                                j as int,
                                fname@,
                                t,
                            ) || (fs@[j as int].name@ == fname@ && fs@[j as int].ty@ == t)) by {
                            if occ_prefix(fs@, j + 1, fname@, t) {
                                let k = choose|k: int|
                                    0 <= k < j + 1 && (#[trigger] fs@[k]).name@ == fname@
                                        && fs@[k].ty@ == t;
                                if k < j {
                                    assert(occ_prefix(fs@, j as int, fname@, t));
                                }
                            }
                        }
                        assert(name_prefix(fs@, j + 1, fname@) <==> (name_prefix(
                            fs@,
                            j as int,
                            fname@,
                        ) || fs@[j as int].name@ == fname@)) by {
                            if name_prefix(fs@, j + 1, fname@) {
                                let k = choose|k: int|
                                    0 <= k < j + 1 && (#[trigger] fs@[k]).name@ == fname@;
                                if k < j {
                                    assert(name_prefix(fs@, j as int, fname@));
                                }
                            }
                        }
                    }
                    j = j + 1;
                }
                if hit {
                    insert_sorted(&mut cov, &v.name);
                }
                proof {
                    lemma_named_occurrences(*v, *fs, fname@, Seq::empty());
                    assert forall|t: Seq<char>|
                        views(div@).contains(t) <==> in_diversity(
                            vviews(variants@.take(i + 1)),
                            fname@,
                            t,
                        ) by {
                        lemma_diversity_prefix(variants@, i as int, fname@, t);
                        lemma_named_occurrences(*v, *fs, fname@, t);
                    }
                    assert forall|n: Seq<char>|
                        views(cov@).contains(n) <==> in_coverage(
                            vviews(variants@.take(i + 1)),
                            fname@,
                            n,
                        ) by {
                        lemma_coverage_prefix(variants@, i as int, fname@, n);
                    }
                }
            },
            VariantFields::Other => {
                proof {
                    assert(vview(variants@[i as int]).fields is None);
                    assert forall|t: Seq<char>|
                        views(div@).contains(t) <==> in_diversity(
                            vviews(variants@.take(i + 1)),
                            fname@,
                            t,
                        ) by {
                        lemma_diversity_prefix(variants@, i as int, fname@, t);
                    }
                    assert forall|n: Seq<char>|
                        views(cov@).contains(n) <==> in_coverage(
                            vviews(variants@.take(i + 1)),
                            fname@,
                            n,
                        ) by {
                        lemma_coverage_prefix(variants@, i as int, fname@, n);
                        assert(!has_field(vview(variants@[i as int]), fname@));
                    }
                }
            },
        }
        i = i + 1;
    }
    proof {
        assert(variants@.take(variants@.len() as int) =~= variants@);
    }
    FieldInfo { name: fname.clone(), variants: cov, types: div }
}

/// The shape warnings of the collection pass, in variant order.
fn shape_warnings(variants: &Vec<VariantDef>) -> (r: Vec<Diagnostic>)
    ensures
        r@ == shape_diags(variants@),
{
    let mut diags: Vec<Diagnostic> = Vec::new();
    let mut i: usize = 0;
    assert(diags@ =~= shape_diags(variants@.take(0))) by {
        assert(variants@.take(0) =~= Seq::<VariantDef>::empty());
    }
    while i < variants.len()
        invariant
            i <= variants.len(),
            diags@ == shape_diags(variants@.take(i as int)),
        decreases variants.len() - i,
    {
        let v = &variants[i];
        let is_named = match &v.fields {
            VariantFields::Named(_) => true,
            VariantFields::Other => false,
        };
        if !is_named {
            diags.push(Diagnostic::ShapeWarning { variant: v.name.clone() });
        }
        proof {
            let pre = variants@.take(i as int);
            let post = variants@.take(i + 1);
            assert(post.drop_last() =~= pre);
            assert(post.last() == variants@[i as int]);
            if is_named {
                assert(diags@ =~= shape_diags(pre) + Seq::<Diagnostic>::empty());
            } else {
                assert(diags@ =~= shape_diags(pre) + seq![
                    Diagnostic::ShapeWarning { variant: variants@[i as int].name },
                ]);
            }
        }
        i = i + 1;
    }
    proof {
        assert(variants@.take(variants@.len() as int) =~= variants@);
    }
    diags
}

/// The collection pass: walk the variant list once, build the variant-name
/// set and the field index, and report the variants that contribute nothing.
pub fn collect(variants: &Vec<VariantDef>) -> (r: (Collection, Vec<Diagnostic>))
    ensures
        collection_abs(vviews(variants@), r.0),
        r.1@ == shape_diags(variants@),
{
    let names = collect_variant_names(variants);
    let fnames = collect_field_names(variants);
    let mut fields: Vec<FieldInfo> = Vec::new();
    let mut i: usize = 0;
    while i < fnames.len()
        invariant
            i <= fnames.len(),
            strictly_sorted(views(fnames@)),
            forall|f: Seq<char>| views(fnames@).contains(f) <==> occurs(vviews(variants@), f),
            field_names(fields@) == views(fnames@).take(i as int),
            forall|k: int| 0 <= k < fields@.len() ==> field_abs(vviews(variants@), #[trigger] fields@[k]),
        decreases fnames.len() - i,
    {
        let fi = collect_field_info(variants, &fnames[i]);
        let ghost pre = field_names(fields@);
        fields.push(fi);
        proof {
            assert(field_names(fields@) =~= pre.push(fi.name@));
            assert(fi.name@ == views(fnames@)[i as int]);
            assert(field_names(fields@) =~= views(fnames@).take(i + 1));
        }
        i = i + 1;
    }
    proof {
        assert(views(fnames@).take(fnames@.len() as int) =~= views(fnames@));
        assert(field_names(fields@) == views(fnames@));
    }
    let diags = shape_warnings(variants);
    (Collection { variant_names: names, fields }, diags)
}

} // verus!
