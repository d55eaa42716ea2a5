//! The guarantees of the generator, stated and proved once and for all: what
//! full and partial coverage produce, that ambiguity excludes a field and is
//! reported, that variants without named fields contribute nothing, that the
//! generics reappear verbatim, and that the output is a function of the input.

use vstd::prelude::*;

use crate::ast::{
    Diagnostic, VariantDef, VariantDefV, DeriveInput, Expansion, ambiguous, diag_view,
    diag_views, fully_covered, has_field, in_coverage, in_diversity, is_variant_name, occurs,
    shape_diags, vview, vviews,
};
use crate::collect::{Collection, FieldInfo, collection_abs, field_abs, field_names};
use crate::emit::{arm_text, expansion_text, ret_read, ret_write};
use crate::resolve::{ResolvedFieldV, ambiguity_diags, spec_resolve};
use crate::text::{lex_lt, lemma_lex_trichotomy, lemma_sorted_same_members, strictly_sorted, views};
use crate::expansion_describes;

verus! {

/// What one eligible field entry resolves to.
pub open spec fn entry_view(fi: FieldInfo, all: Seq<Seq<char>>) -> ResolvedFieldV {
    ResolvedFieldV {
        name: fi.name@,
        ty: views(fi.types@)[0],
        variants: views(fi.variants@),
        full: views(fi.variants@) == all,
    }
}

/// The resolved fields that a collection determines.
pub open spec fn resolved_of(c: Collection) -> Seq<ResolvedFieldV> {
    spec_resolve(c.fields@, views(c.variant_names@))
}

/// A covering variant is a variant.
proof fn lemma_coverage_is_variant(vs: Seq<VariantDefV>, f: Seq<char>, n: Seq<char>)
    requires
        in_coverage(vs, f, n),
    ensures
        is_variant_name(vs, n),
{
    let i = choose|i: int|
        0 <= i < vs.len() && (#[trigger] vs[i]).name == n && has_field(vs[i], f);
    assert(vs[i].name == n);
}

/// Two distinct members make a sequence of length at least two.
proof fn lemma_two_members(s: Seq<Seq<char>>, t1: Seq<char>, t2: Seq<char>)
    requires
        s.contains(t1),
        s.contains(t2),
        t1 != t2,
    ensures
        s.len() >= 2,
{
    let i1 = choose|i: int| 0 <= i < s.len() && s[i] == t1;
    let i2 = choose|i: int| 0 <= i < s.len() && s[i] == t2;
    assert(i1 != i2);
}

/// In a strictly sorted sequence, equal entries share the index.
proof fn lemma_sorted_distinct(s: Seq<Seq<char>>, i: int, j: int)
    requires
        strictly_sorted(s),
        0 <= i < s.len(),
        0 <= j < s.len(),
        s[i] == s[j],
    ensures
        i == j,
{
    if i < j {
        lemma_lex_trichotomy(s[i], s[j]);
    }
    if j < i {
        lemma_lex_trichotomy(s[j], s[i]);
    }
}

/// An eligible field's entry holds exactly one rendering.
proof fn lemma_eligible_single(vs: Seq<VariantDefV>, fi: FieldInfo, t: Seq<char>)
    requires
        field_abs(vs, fi),
        in_diversity(vs, fi.name@, t),
        !ambiguous(vs, fi.name@),
    ensures
        fi.types@.len() == 1,
        views(fi.types@) =~= seq![t],
{
    let tys = views(fi.types@);
    assert(tys.contains(t));
    assert(tys.len() >= 1);
    if tys.len() >= 2 {
        assert(lex_lt(tys[0], tys[1]));
        lemma_lex_trichotomy(tys[0], tys[1]);
        assert(tys.contains(tys[0]));
        assert(tys.contains(tys[1]));
        assert(in_diversity(vs, fi.name@, tys[0]));
        assert(in_diversity(vs, fi.name@, tys[1]));
        assert(false);
    }
    assert(tys.len() == 1);
    let i = choose|i: int| 0 <= i < tys.len() && tys[i] == t;
    assert(tys[0] == t);
}

/// Every entry with a single rendering appears in the resolution.
proof fn lemma_resolve_of_entry(fs: Seq<FieldInfo>, all: Seq<Seq<char>>, j: int)
    requires
        0 <= j < fs.len(),
        fs[j].types@.len() == 1,
    ensures
        exists|k: int|
            0 <= k < spec_resolve(fs, all).len() && #[trigger] spec_resolve(fs, all)[k]
                == entry_view(fs[j], all),
    decreases fs.len(),
{
    let rs = spec_resolve(fs, all);
    if j == fs.len() - 1 {
        assert(fs.last() == fs[j]);
        assert(rs[rs.len() - 1] == entry_view(fs[j], all));
    } else {
        assert(fs.drop_last()[j] == fs[j]);
        lemma_resolve_of_entry(fs.drop_last(), all, j);
        let k = choose|k: int|
            0 <= k < spec_resolve(fs.drop_last(), all).len() && #[trigger] spec_resolve(
                fs.drop_last(),
                all,
            )[k] == entry_view(fs[j], all);
        assert(rs[k] == entry_view(fs[j], all));
    }
}

/// Everything in the resolution comes from an entry with a single rendering.
proof fn lemma_resolve_source(fs: Seq<FieldInfo>, all: Seq<Seq<char>>, k: int) -> (j: int)
    requires
        0 <= k < spec_resolve(fs, all).len(),
    ensures
        0 <= j < fs.len(),
        fs[j].types@.len() == 1,
        spec_resolve(fs, all)[k] == entry_view(fs[j], all),
    decreases fs.len(),
{
    assert(fs.len() > 0);
    let rsp = spec_resolve(fs.drop_last(), all);
    if k < rsp.len() {
        let j = lemma_resolve_source(fs.drop_last(), all, k);
        assert(fs.drop_last()[j] == fs[j]);
        assert(spec_resolve(fs, all)[k] == rsp[k]);
        j
    } else {
        assert(fs.last().types@.len() == 1);
        assert(fs.last() == fs[fs.len() - 1]);
        assert(spec_resolve(fs, all)[k] == entry_view(fs[fs.len() - 1], all));
        fs.len() - 1
    }
}

/// Where in the field index a field name stands.
proof fn lemma_field_index(vs: Seq<VariantDefV>, c: Collection, f: Seq<char>) -> (j: int)
    requires
        collection_abs(vs, c),
        occurs(vs, f),
    ensures
        0 <= j < c.fields@.len(),
        c.fields@[j].name@ == f,
        forall|j2: int| 0 <= j2 < c.fields@.len() && (#[trigger] c.fields@[j2]).name@ == f ==> j2
            == j,
{
    assert(field_names(c.fields@).contains(f));
    let j = choose|j: int| 0 <= j < field_names(c.fields@).len() && field_names(c.fields@)[j] == f;
    assert(field_names(c.fields@)[j] == c.fields@[j].name@);
    assert forall|j2: int|
        0 <= j2 < c.fields@.len() && (#[trigger] c.fields@[j2]).name@ == f implies j2 == j by {
        assert(field_names(c.fields@)[j2] == f);
        lemma_sorted_distinct(field_names(c.fields@), j, j2);
    }
    j
}

/// A field carried by every variant resolves with full coverage: its read
/// accessor returns a direct reference and its write accessor a direct
/// mutable reference, never optional ones.
pub proof fn lemma_full_coverage_direct(
    vs: Seq<VariantDefV>,
    c: Collection,
    f: Seq<char>,
    t: Seq<char>,
)
    requires
        collection_abs(vs, c),
        in_diversity(vs, f, t),
        !ambiguous(vs, f),
        fully_covered(vs, f),
    ensures
        exists|k: int| 0 <= k < resolved_of(c).len() && (#[trigger] resolved_of(c)[k]).name == f,
        forall|k: int|
            0 <= k < resolved_of(c).len() && (#[trigger] resolved_of(c)[k]).name == f ==> {
                &&& resolved_of(c)[k].ty == t
                &&& resolved_of(c)[k].full
                &&& ret_read(resolved_of(c)[k]) == "&"@ + t
                &&& ret_write(resolved_of(c)[k]) == "&mut "@ + t
            },
{
    assert(occurs(vs, f));
    let j = lemma_field_index(vs, c, f);
    let fi = c.fields@[j];
    lemma_eligible_single(vs, fi, t);
    let all = views(c.variant_names@);
    assert forall|n: Seq<char>| views(fi.variants@).contains(n) <==> all.contains(n) by {
        if views(fi.variants@).contains(n) {
            assert(in_coverage(vs, f, n));
            lemma_coverage_is_variant(vs, f, n);
        }
        if all.contains(n) {
            assert(is_variant_name(vs, n));
            let i = choose|i: int| 0 <= i < vs.len() && (#[trigger] vs[i]).name == n;
            assert(has_field(vs[i], f));
            assert(in_coverage(vs, f, n));
        }
    }
    lemma_sorted_same_members(views(fi.variants@), all);
    assert(entry_view(fi, all).full);
    assert(entry_view(fi, all).ty == t);
    lemma_resolve_of_entry(c.fields@, all, j);
    let k0 = choose|k: int|
        0 <= k < spec_resolve(c.fields@, all).len() && #[trigger] spec_resolve(c.fields@, all)[k]
            == entry_view(fi, all);
    assert(resolved_of(c)[k0].name == f);
    assert forall|k: int|
        0 <= k < resolved_of(c).len() && (#[trigger] resolved_of(c)[k]).name == f implies {
        &&& resolved_of(c)[k].ty == t
        &&& resolved_of(c)[k].full
        &&& ret_read(resolved_of(c)[k]) == "&"@ + t
        &&& ret_write(resolved_of(c)[k]) == "&mut "@ + t
    } by {
        let j2 = lemma_resolve_source(c.fields@, all, k);
        assert(c.fields@[j2].name@ == f);
        assert(j2 == j);
    }
}

/// A field carried by a strict subset of the variants resolves with partial
/// coverage: its accessors return optional references, and the coverage it
/// records holds exactly the variants that carry the field.
pub proof fn lemma_partial_coverage_optional(
    vs: Seq<VariantDefV>,
    c: Collection,
    f: Seq<char>,
    t: Seq<char>,
    missing: Seq<char>,
)
    requires
        collection_abs(vs, c),
        in_diversity(vs, f, t),
        !ambiguous(vs, f),
        is_variant_name(vs, missing),
        !in_coverage(vs, f, missing),
    ensures
        exists|k: int| 0 <= k < resolved_of(c).len() && (#[trigger] resolved_of(c)[k]).name == f,
        forall|k: int|
            0 <= k < resolved_of(c).len() && (#[trigger] resolved_of(c)[k]).name == f ==> {
                &&& resolved_of(c)[k].ty == t
                &&& !resolved_of(c)[k].full
                &&& ret_read(resolved_of(c)[k]) == "Option<&"@ + t + ">"@
                &&& ret_write(resolved_of(c)[k]) == "Option<&mut "@ + t + ">"@
                &&& forall|n: Seq<char>|
                    resolved_of(c)[k].variants.contains(n) <==> in_coverage(vs, f, n)
            },
{
    assert(occurs(vs, f));
    let j = lemma_field_index(vs, c, f);
    let fi = c.fields@[j];
    lemma_eligible_single(vs, fi, t);
    let all = views(c.variant_names@);
    assert(all.contains(missing));
    assert(!views(fi.variants@).contains(missing));
    assert(views(fi.variants@) != all);
    assert(!entry_view(fi, all).full);
    lemma_resolve_of_entry(c.fields@, all, j);
    let k0 = choose|k: int|
        0 <= k < spec_resolve(c.fields@, all).len() && #[trigger] spec_resolve(c.fields@, all)[k]
            == entry_view(fi, all);
    assert(resolved_of(c)[k0].name == f);
    assert forall|k: int|
        0 <= k < resolved_of(c).len() && (#[trigger] resolved_of(c)[k]).name == f implies {
        &&& resolved_of(c)[k].ty == t
        &&& !resolved_of(c)[k].full
        &&& ret_read(resolved_of(c)[k]) == "Option<&"@ + t + ">"@
        &&& ret_write(resolved_of(c)[k]) == "Option<&mut "@ + t + ">"@
        &&& forall|n: Seq<char>| resolved_of(c)[k].variants.contains(n) <==> in_coverage(vs, f, n)
    } by {
        let j2 = lemma_resolve_source(c.fields@, all, k);
        assert(c.fields@[j2].name@ == f);
        assert(j2 == j);
    }
}

/// The ambiguity warnings contain an entry for every field with more than one
/// rendering.
proof fn lemma_ambig_member(fs: Seq<FieldInfo>, j: int)
    requires
        0 <= j < fs.len(),
        fs[j].types@.len() != 1,
    ensures
        diag_views(ambiguity_diags(fs)).contains((true, fs[j].name@)),
    decreases fs.len(),
{
    let ds = ambiguity_diags(fs);
    if j == fs.len() - 1 {
        assert(ds.last() == Diagnostic::TypeAmbiguityWarning { field: fs[j].name });
        assert(diag_views(ds)[ds.len() - 1] == (true, fs[j].name@));
    } else {
        assert(fs.drop_last()[j] == fs[j]);
        lemma_ambig_member(fs.drop_last(), j);
        let dsp = ambiguity_diags(fs.drop_last());
        let k = choose|k: int| 0 <= k < diag_views(dsp).len() && diag_views(dsp)[k] == (
            true,
            fs[j].name@,
        );
        assert(ds[k] == dsp[k]);
        assert(diag_views(ds)[k] == (true, fs[j].name@));
    }
}

/// A field name observed with two distinct renderings gets no accessor under
/// any variant, and a type-ambiguity warning is reported for it.
pub proof fn lemma_ambiguous_excluded(vs: Seq<VariantDefV>, c: Collection, f: Seq<char>)
    requires
        collection_abs(vs, c),
        ambiguous(vs, f),
    ensures
        forall|k: int|
            0 <= k < resolved_of(c).len() ==> (#[trigger] resolved_of(c)[k]).name != f,
        diag_views(ambiguity_diags(c.fields@)).contains((true, f)),
{
    assert(occurs(vs, f)) by {
        let (t1, t2) = choose|t1: Seq<char>, t2: Seq<char>|
            #[trigger] in_diversity(vs, f, t1) && #[trigger] in_diversity(vs, f, t2) && t1 != t2;
        assert(in_diversity(vs, f, t1));
    }
    let j = lemma_field_index(vs, c, f);
    let fi = c.fields@[j];
    let all = views(c.variant_names@);
    assert(fi.types@.len() >= 2) by {
        let (t1, t2) = choose|t1: Seq<char>, t2: Seq<char>|
            #[trigger] in_diversity(vs, f, t1) && #[trigger] in_diversity(vs, f, t2) && t1 != t2;
        assert(views(fi.types@).contains(t1));
        assert(views(fi.types@).contains(t2));
        lemma_two_members(views(fi.types@), t1, t2);
    }
    assert forall|k: int|
        0 <= k < resolved_of(c).len() implies (#[trigger] resolved_of(c)[k]).name != f by {
        let j2 = lemma_resolve_source(c.fields@, all, k);
        if resolved_of(c)[k].name == f {
            assert(c.fields@[j2].name@ == f);
            assert(j2 == j);
            assert(false);
        }
    }
    lemma_ambig_member(c.fields@, j);
}

/// The shape warnings contain an entry for every variant without named fields.
proof fn lemma_shape_member(variants: Seq<VariantDef>, i: int)
    requires
        0 <= i < variants.len(),
        !(variants[i].fields is Named),
    ensures
        diag_views(shape_diags(variants)).contains((false, variants[i].name@)),
    decreases variants.len(),
{
    let ds = shape_diags(variants);
    if i == variants.len() - 1 {
        assert(ds.last() == Diagnostic::ShapeWarning { variant: variants[i].name });
        assert(diag_views(ds)[ds.len() - 1] == (false, variants[i].name@));
    } else {
        assert(variants.drop_last()[i] == variants[i]);
        lemma_shape_member(variants.drop_last(), i);
        let dsp = shape_diags(variants.drop_last());
        let k = choose|k: int| 0 <= k < diag_views(dsp).len() && diag_views(dsp)[k] == (
            false,
            variants[i].name@,
        );
        assert(ds[k] == dsp[k]);
        assert(diag_views(ds)[k] == (false, variants[i].name@));
    }
}

/// A variant without named fields contributes nothing to synthesis: a shape
/// warning is reported for it, it covers no field, and every accessor's match
/// folds it into the absent arm.
pub proof fn lemma_shapeless_variant(variants: Seq<VariantDef>, c: Collection, i: int)
    requires
        collection_abs(vviews(variants), c),
        0 <= i < variants.len(),
        !(variants[i].fields is Named),
        forall|i2: int|
            0 <= i2 < variants.len() && i2 != i ==> (#[trigger] variants[i2]).name@
                != variants[i].name@,
    ensures
        diag_views(shape_diags(variants)).contains((false, variants[i].name@)),
        forall|f: Seq<char>| !in_coverage(vviews(variants), f, variants[i].name@),
        forall|k: int|
            0 <= k < resolved_of(c).len() ==> arm_text(
                #[trigger] resolved_of(c)[k],
                variants[i].name@,
            ) == "            Self::"@ + variants[i].name@ + " { .. } => None,\n"@,
{
    lemma_shape_member(variants, i);
    let vs = vviews(variants);
    let nm = variants[i].name@;
    assert forall|f: Seq<char>| !in_coverage(vs, f, nm) by {
        if in_coverage(vs, f, nm) {
            let i2 = choose|i2: int|
                0 <= i2 < vs.len() && (#[trigger] vs[i2]).name == nm && has_field(vs[i2], f);
            assert(vs[i2] == vview(variants[i2]));
            assert(variants[i2].name@ == nm);
            assert(i2 == i);
            assert(vview(variants[i]).fields is None);
            let t = choose|t: Seq<char>| #[trigger] crate::ast::has_occurrence(vs[i2], f, t);
            assert(false);
        }
    }
    let all = views(c.variant_names@);
    assert forall|k: int|
        0 <= k < resolved_of(c).len() implies arm_text(#[trigger] resolved_of(c)[k], nm)
        == "            Self::"@ + nm + " { .. } => None,\n"@ by {
        let j = lemma_resolve_source(c.fields@, all, k);
        let fi = c.fields@[j];
        assert(!views(fi.variants@).contains(nm)) by {
            if views(fi.variants@).contains(nm) {
                assert(in_coverage(vs, fi.name@, nm));
            }
        }
        assert(!resolved_of(c)[k].variants.contains(nm));
    }
}

/// The generic parameter list and the constraint clause of the source type
/// reappear verbatim on the generated extension: once after `impl`, once on
/// the type, and the clause after it.
pub proof fn lemma_generics_verbatim(
    name: Seq<char>,
    params: Seq<char>,
    wc: Seq<char>,
    vns: Seq<Seq<char>>,
    rs: Seq<ResolvedFieldV>,
)
    requires
        params.len() > 0,
    ensures
        expansion_text(name, params, wc, vns, rs).subrange(0, 5) == "impl<"@,
        expansion_text(name, params, wc, vns, rs).subrange(5, 5 + params.len() as int) == params,
        expansion_text(name, params, wc, vns, rs).subrange(
            7 + params.len() as int,
            7 + params.len() as int + name.len() as int,
        ) == name,
        expansion_text(name, params, wc, vns, rs).subrange(
            8 + params.len() as int + name.len() as int,
            8 + 2 * params.len() as int + name.len() as int,
        ) == params,
        wc.len() > 0 ==> expansion_text(name, params, wc, vns, rs).subrange(
            10 + 2 * params.len() as int + name.len() as int,
            10 + 2 * params.len() as int + name.len() as int + wc.len() as int,
        ) == wc,
{
    reveal_strlit("impl");
    reveal_strlit("impl<");
    reveal_strlit("<");
    reveal_strlit(">");
    reveal_strlit(" ");
    let e = expansion_text(name, params, wc, vns, rs);
    let p = params.len() as int;
    let n = name.len() as int;
    assert(e.subrange(0, 5) =~= "impl<"@);
    assert(e.subrange(5, 5 + p) =~= params);
    assert(e.subrange(7 + p, 7 + p + n) =~= name);
    assert(e.subrange(8 + p + n, 8 + 2 * p + n) =~= params);
    if wc.len() > 0 {
        assert(e.subrange(10 + 2 * p + n, 10 + 2 * p + n + wc.len() as int) =~= wc);
    }
}

/// Two field indexes that agree on every name, coverage and diversity.
pub open spec fn fields_view_eq(a: Seq<FieldInfo>, b: Seq<FieldInfo>) -> bool {
    &&& a.len() == b.len()
    &&& forall|k: int|
        0 <= k < a.len() ==> {
            &&& (#[trigger] a[k]).name@ == b[k].name@
            &&& views(a[k].types@) == views(b[k].types@)
            &&& views(a[k].variants@) == views(b[k].variants@)
        }
}

/// Resolution depends only on the views of the field index.
proof fn lemma_resolve_congruence(a: Seq<FieldInfo>, b: Seq<FieldInfo>, all: Seq<Seq<char>>)
    requires
        fields_view_eq(a, b),
    ensures
        spec_resolve(a, all) == spec_resolve(b, all),
    decreases a.len(),
{
    if a.len() == 0 {
        assert(spec_resolve(a, all) =~= spec_resolve(b, all));
    } else {
        assert(fields_view_eq(a.drop_last(), b.drop_last())) by {
            assert(forall|k: int|
                0 <= k < a.drop_last().len() ==> #[trigger] a.drop_last()[k] == a[k]
                    && b.drop_last()[k] == b[k]);
        }
        lemma_resolve_congruence(a.drop_last(), b.drop_last(), all);
        assert(a.last() == a[a.len() - 1]);
        assert(b.last() == b[a.len() - 1]);
        assert(a.last().types@.len() == views(a.last().types@).len());
        assert(b.last().types@.len() == views(b.last().types@).len());
        if a.last().types@.len() == 1 {
            assert(entry_view(a.last(), all) == entry_view(b.last(), all));
        }
        assert(spec_resolve(a, all) =~= spec_resolve(b, all));
    }
}

/// The ambiguity warnings depend only on the views of the field index.
proof fn lemma_ambig_congruence(a: Seq<FieldInfo>, b: Seq<FieldInfo>)
    requires
        fields_view_eq(a, b),
    ensures
        diag_views(ambiguity_diags(a)) == diag_views(ambiguity_diags(b)),
    decreases a.len(),
{
    if a.len() == 0 {
        assert(diag_views(ambiguity_diags(a)) =~= diag_views(ambiguity_diags(b)));
    } else {
        assert(fields_view_eq(a.drop_last(), b.drop_last())) by {
            assert(forall|k: int|
                0 <= k < a.drop_last().len() ==> #[trigger] a.drop_last()[k] == a[k]
                    && b.drop_last()[k] == b[k]);
        }
        lemma_ambig_congruence(a.drop_last(), b.drop_last());
        assert(a.last() == a[a.len() - 1]);
        assert(b.last() == b[a.len() - 1]);
        assert(a.last().types@.len() == views(a.last().types@).len());
        assert(b.last().types@.len() == views(b.last().types@).len());
        let da = ambiguity_diags(a);
        let db = ambiguity_diags(b);
        let dap = ambiguity_diags(a.drop_last());
        let dbp = ambiguity_diags(b.drop_last());
        assert(dap.len() == dbp.len()) by {
            assert(diag_views(dap).len() == dap.len());
            assert(diag_views(dbp).len() == dbp.len());
        }
        assert(da.len() == db.len());
        assert forall|k: int|
            0 <= k < da.len() implies diag_views(da)[k] == diag_views(db)[k] by {
            assert(diag_views(da)[k] == diag_view(da[k]));
            assert(diag_views(db)[k] == diag_view(db[k]));
            if k < dap.len() {
                assert(da[k] == dap[k]);
                assert(db[k] == dbp[k]);
                assert(diag_views(dap)[k] == diag_view(dap[k]));
                assert(diag_views(dbp)[k] == diag_view(dbp[k]));
            } else {
                assert(da[k] == Diagnostic::TypeAmbiguityWarning { field: a.last().name });
                assert(db[k] == Diagnostic::TypeAmbiguityWarning { field: b.last().name });
            }
        }
        assert(diag_views(da) =~= diag_views(db));
    }
}

/// Any two collections that describe the same variant list agree on every
/// view: the variant names, and each field's name, coverage and diversity.
proof fn lemma_collection_unique(vs: Seq<VariantDefV>, c1: Collection, c2: Collection)
    requires
        collection_abs(vs, c1),
        collection_abs(vs, c2),
    ensures
        views(c1.variant_names@) == views(c2.variant_names@),
        fields_view_eq(c1.fields@, c2.fields@),
{
    assert forall|x: Seq<char>|
        views(c1.variant_names@).contains(x) <==> views(c2.variant_names@).contains(x) by {
        assert(views(c1.variant_names@).contains(x) <==> is_variant_name(vs, x));
        assert(views(c2.variant_names@).contains(x) <==> is_variant_name(vs, x));
    }
    lemma_sorted_same_members(views(c1.variant_names@), views(c2.variant_names@));
    assert forall|x: Seq<char>|
        field_names(c1.fields@).contains(x) <==> field_names(c2.fields@).contains(x) by {
        assert(field_names(c1.fields@).contains(x) <==> occurs(vs, x));
        assert(field_names(c2.fields@).contains(x) <==> occurs(vs, x));
    }
    lemma_sorted_same_members(field_names(c1.fields@), field_names(c2.fields@));
    assert(c1.fields@.len() == c2.fields@.len()) by {
        assert(field_names(c1.fields@).len() == c1.fields@.len());
        assert(field_names(c2.fields@).len() == c2.fields@.len());
    }
    assert forall|k: int| 0 <= k < c1.fields@.len() implies {
        &&& (#[trigger] c1.fields@[k]).name@ == c2.fields@[k].name@
        &&& views(c1.fields@[k].types@) == views(c2.fields@[k].types@)
        &&& views(c1.fields@[k].variants@) == views(c2.fields@[k].variants@)
    } by {
        assert(field_names(c1.fields@)[k] == c1.fields@[k].name@);
        assert(field_names(c2.fields@)[k] == c2.fields@[k].name@);
        let f = c1.fields@[k].name@;
        assert(c2.fields@[k].name@ == f);
        assert(field_abs(vs, c1.fields@[k]));
        assert(field_abs(vs, c2.fields@[k]));
        assert forall|t: Seq<char>|
            views(c1.fields@[k].types@).contains(t) <==> views(c2.fields@[k].types@).contains(
                t,
            ) by {
            assert(views(c1.fields@[k].types@).contains(t) <==> in_diversity(vs, f, t));
            assert(views(c2.fields@[k].types@).contains(t) <==> in_diversity(vs, f, t));
        }
        lemma_sorted_same_members(views(c1.fields@[k].types@), views(c2.fields@[k].types@));
        assert forall|n: Seq<char>|
            views(c1.fields@[k].variants@).contains(n) <==> views(
                c2.fields@[k].variants@,
            ).contains(n) by {
            assert(views(c1.fields@[k].variants@).contains(n) <==> in_coverage(vs, f, n));
            assert(views(c2.fields@[k].variants@).contains(n) <==> in_coverage(vs, f, n));
        }
        lemma_sorted_same_members(views(c1.fields@[k].variants@), views(c2.fields@[k].variants@));
    }
}

/// Re-running the generator on an identical input yields identical output:
/// the code fragments agree character for character, and the diagnostics
/// agree in kind, order and anchor.
pub proof fn lemma_deterministic(input: DeriveInput, e1: Expansion, e2: Expansion)
    requires
        expansion_describes(input, e1),
        expansion_describes(input, e2),
    ensures
        e1.code@ == e2.code@,
        diag_views(e1.diagnostics@) == diag_views(e2.diagnostics@),
{
    let variants = input.data->Enum_0;
    let vs = vviews(variants@);
    let c1 = choose|c: Collection|
        {
            &&& #[trigger] collection_abs(vs, c)
            &&& e1.code@ == expansion_text(
                input.name@,
                input.generics.params@,
                input.generics.where_clause@,
                views(c.variant_names@),
                spec_resolve(c.fields@, views(c.variant_names@)),
            )
            &&& e1.diagnostics@ == shape_diags(variants@) + ambiguity_diags(c.fields@)
        };
    let c2 = choose|c: Collection|
        {
            &&& #[trigger] collection_abs(vs, c)
            &&& e2.code@ == expansion_text(
                input.name@,
                input.generics.params@,
                input.generics.where_clause@,
                views(c.variant_names@),
                spec_resolve(c.fields@, views(c.variant_names@)),
            )
            &&& e2.diagnostics@ == shape_diags(variants@) + ambiguity_diags(c.fields@)
        };
    lemma_collection_unique(vs, c1, c2);
    lemma_resolve_congruence(c1.fields@, c2.fields@, views(c1.variant_names@));
    lemma_ambig_congruence(c1.fields@, c2.fields@);
    assert(e1.code@ == e2.code@);
    let sd = shape_diags(variants@);
    let a1 = ambiguity_diags(c1.fields@);
    let a2 = ambiguity_diags(c2.fields@);
    assert(diag_views(sd + a1) =~= diag_views(sd) + diag_views(a1));
    assert(diag_views(sd + a2) =~= diag_views(sd) + diag_views(a2));
    assert(diag_views(e1.diagnostics@) =~= diag_views(e2.diagnostics@));
}

} // verus!

