//! Lexicographic order on character sequences, with the executable
//! comparison and the ordering lemmas that the sorted containers rely on.

use vstd::prelude::*;

verus! {

use vstd::string::StrSliceExecFns;

/// Strict lexicographic order on character sequences, by code point.
pub open spec fn lex_lt(a: Seq<char>, b: Seq<char>) -> bool
    decreases a.len(),
{
    if b.len() == 0 {
        false
    } else if a.len() == 0 {
        true
    } else if a[0] < b[0] {
        true
    } else if a[0] == b[0] {
        lex_lt(a.skip(1), b.skip(1))
    } else {
        false
    }
}

/// `lex_lt` is irreflexive and asymmetric, and any two sequences are ordered
/// one way, the other way, or equal.
pub proof fn lemma_lex_trichotomy(a: Seq<char>, b: Seq<char>)
    ensures
        lex_lt(a, b) || lex_lt(b, a) || a == b,
        !(lex_lt(a, b) && lex_lt(b, a)),
        lex_lt(a, b) ==> a != b,
    decreases a.len(),
{
    if b.len() == 0 {
        if a.len() == 0 {
            assert(a =~= b);
        }
    } else if a.len() == 0 {
    } else if a[0] == b[0] {
        lemma_lex_trichotomy(a.skip(1), b.skip(1));
        if a.skip(1) == b.skip(1) {
            assert(a.len() == b.len());
            assert forall|i: int| 0 <= i < a.len() implies a[i] == b[i] by {
                if i > 0 {
                    assert(a.skip(1)[i - 1] == a[i]);
                    assert(b.skip(1)[i - 1] == b[i]);
                }
            }
            assert(a =~= b);
        }
        if lex_lt(a, b) {
            assert(a.skip(1) != b.skip(1));
        }
    }
}

/// `lex_lt` is transitive.
pub proof fn lemma_lex_trans(a: Seq<char>, b: Seq<char>, c: Seq<char>)
    requires
        lex_lt(a, b),
        lex_lt(b, c),
    ensures
        lex_lt(a, c),
    decreases a.len(),
{
    if a.len() == 0 {
    } else if b.len() == 0 {
    } else if c.len() == 0 {
    } else {
        if a[0] == b[0] && b[0] == c[0] {
            lemma_lex_trans(a.skip(1), b.skip(1), c.skip(1));
        }
    }
}

/// A common prefix does not affect the comparison of what follows it.
pub proof fn lemma_lex_common_prefix(a: Seq<char>, b: Seq<char>, i: int)
    requires
        0 <= i <= a.len(),
        0 <= i <= b.len(),
        forall|k: int| 0 <= k < i ==> a[k] == b[k],
    ensures
        lex_lt(a, b) == lex_lt(a.skip(i), b.skip(i)),
    decreases i,
{
    if i > 0 {
        if a.len() == i && b.len() == i {
            assert(a =~= b);
            lemma_lex_trichotomy(a, b);
            assert(!lex_lt(a, b));
            assert(a.skip(i) =~= Seq::<char>::empty());
            assert(b.skip(i) =~= Seq::<char>::empty());
        } else {
            assert(b.len() > 0);
            assert(a.len() > 0);
            assert(a[0] == b[0]);
            lemma_lex_common_prefix(a.skip(1), b.skip(1), i - 1);
            assert(a.skip(1).skip(i - 1) =~= a.skip(i));
            assert(b.skip(1).skip(i - 1) =~= b.skip(i));
        }
    } else {
        assert(a.skip(0) =~= a);
        assert(b.skip(0) =~= b);
    }
}

/// Executable comparison of two strings under `lex_lt`.
pub fn str_lt(a: &str, b: &str) -> (r: bool)
    ensures
        r == lex_lt(a@, b@),
{
    let alen = a.unicode_len();
    let blen = b.unicode_len();
    let mut i: usize = 0;
    loop
        invariant
            i <= alen,
            i <= blen,
            alen == a@.len(),
            blen == b@.len(),
            forall|k: int| 0 <= k < i ==> a@[k] == b@[k],
        decreases alen - i,
    {
        proof {
            lemma_lex_common_prefix(a@, b@, i as int);
        }
        if i == blen {
            assert(b@.skip(i as int).len() == 0);
            return false;
        }
        if i == alen {
            assert(a@.skip(i as int).len() == 0);
            return true;
        }
        let ca = a.get_char(i);
        let cb = b.get_char(i);
        assert(a@.skip(i as int)[0] == a@[i as int]);
        assert(b@.skip(i as int)[0] == b@[i as int]);
        if ca < cb {
            return true;
        }
        if cb < ca {
            return false;
        }
        assert(ca == cb);
        i = i + 1;
    }
}

/// A sequence of names in strictly ascending lexicographic order; such a
/// sequence lists each name at most once.
pub open spec fn strictly_sorted(s: Seq<Seq<char>>) -> bool {
    forall|i: int, j: int| 0 <= i < j < s.len() ==> lex_lt(#[trigger] s[i], #[trigger] s[j])
}

/// The views of a vector of strings.
pub open spec fn views(s: Seq<String>) -> Seq<Seq<char>> {
    s.map_values(|x: String| x@)
}

/// Two strictly sorted sequences with the same members are equal.
pub proof fn lemma_sorted_same_members(a: Seq<Seq<char>>, b: Seq<Seq<char>>)
    requires
        strictly_sorted(a),
        strictly_sorted(b),
        forall|x: Seq<char>| a.contains(x) <==> b.contains(x),
    ensures
        a == b,
    decreases a.len(),
{
    if a.len() == 0 {
        if b.len() > 0 {
            assert(b.contains(b[0]));
            assert(a.contains(b[0]));
        }
        assert(a =~= b);
    } else {
        assert(a.contains(a[0]));
        assert(b.contains(a[0]));
        let j = choose|j: int| 0 <= j < b.len() && b[j] == a[0];
        assert(b.contains(b[0]));
        assert(a.contains(b[0]));
        let k = choose|k: int| 0 <= k < a.len() && a[k] == b[0];
        if j > 0 {
            assert(lex_lt(b[0], a[0]));
            if k > 0 {
                assert(lex_lt(a[0], b[0]));
                lemma_lex_trichotomy(a[0], b[0]);
            } else {
                lemma_lex_trichotomy(b[0], a[0]);
            }
            assert(false);
        }
        assert(a[0] == b[0]);
        let at = a.skip(1);
        let bt = b.skip(1);
        assert forall|x: Seq<char>| at.contains(x) implies bt.contains(x) by {
            let i = choose|i: int| 0 <= i < at.len() && at[i] == x;
            assert(a[i + 1] == x);
            assert(a.contains(x));
            assert(b.contains(x));
            let m = choose|m: int| 0 <= m < b.len() && b[m] == x;
            if m == 0 {
                assert(x == a[0]);
                assert(lex_lt(a[0], a[i + 1]));
                lemma_lex_trichotomy(a[0], x);
                assert(false);
            }
            assert(bt[m - 1] == x);
            assert(bt.contains(x));
        }
        assert forall|x: Seq<char>| bt.contains(x) implies at.contains(x) by {
            let i = choose|i: int| 0 <= i < bt.len() && bt[i] == x;
            assert(b[i + 1] == x);
            assert(b.contains(x));
            assert(a.contains(x));
            let m = choose|m: int| 0 <= m < a.len() && a[m] == x;
            if m == 0 {
                assert(x == b[0]);
                assert(lex_lt(b[0], b[i + 1]));
                lemma_lex_trichotomy(b[0], x);
                assert(false);
            }
            assert(at[m - 1] == x);
            assert(at.contains(x));
        }
        assert(strictly_sorted(at)) by {
            assert(forall|i: int| 0 <= i < at.len() ==> #[trigger] at[i] == a[i + 1]);
        }
        assert(strictly_sorted(bt)) by {
            assert(forall|i: int| 0 <= i < bt.len() ==> #[trigger] bt[i] == b[i + 1]);
        }
        lemma_sorted_same_members(at, bt);
        assert(a =~= b) by {
            assert(forall|i: int| 1 <= i < a.len() ==> #[trigger] a[i] == at[i - 1]);
            assert(forall|i: int| 1 <= i < b.len() ==> #[trigger] b[i] == bt[i - 1]);
        }
    }
}

/// The first position whose entry is not lexicographically below `x`.
fn lower_bound(v: &Vec<String>, x: &String) -> (i: usize)
    requires
        strictly_sorted(views(v@)),
    ensures
        i <= v@.len(),
        forall|k: int| 0 <= k < i ==> lex_lt(#[trigger] views(v@)[k], x@),
        i < v@.len() ==> !lex_lt(views(v@)[i as int], x@),
{
    let mut i: usize = 0;
    while i < v.len()
        invariant
            i <= v.len(),
            forall|k: int| 0 <= k < i ==> lex_lt(#[trigger] views(v@)[k], x@),
        decreases v.len() - i,
    {
        let cur = &v[i];
        assert(views(v@)[i as int] == v@[i as int]@);
        if !str_lt(cur.as_str(), x.as_str()) {
            return i;
        }
        i = i + 1;
    }
    i
}

/// Insert a name into a strictly sorted vector of strings, keeping it sorted
/// and duplicate-free; inserting a name already present changes nothing.
pub fn insert_sorted(v: &mut Vec<String>, x: &String)
    requires
        strictly_sorted(views(old(v)@)),
    ensures
        strictly_sorted(views(final(v)@)),
        forall|n: Seq<char>|
            views(final(v)@).contains(n) <==> (views(old(v)@).contains(n) || n == x@),
{
    let ghost orig = views(old(v)@);
    let i = lower_bound(v, x);
    if i < v.len() {
        let cur = &v[i];
        if !str_lt(x.as_str(), cur.as_str()) {
            // Already present: neither order holds, so the views are equal.
            proof {
                assert(orig[i as int] == v@[i as int]@);
                lemma_lex_trichotomy(x@, orig[i as int]);
                assert(views(v@)[i as int] == x@);
                assert(views(v@).contains(x@));
            }
            return;
        }
    }
    let ghost pre = views(v@);
    v.insert(i, x.clone());
    proof {
        let post = views(v@);
        assert(post =~= pre.insert(i as int, x@)) by {
            assert(v@ == old(v)@.insert(i as int, *x)
                || v@.len() == old(v)@.len() + 1);
            assert(forall|k: int| 0 <= k < post.len() ==> #[trigger] post[k] == v@[k]@);
        }
        assert forall|n: Seq<char>| post.contains(n) implies (pre.contains(n) || n == x@) by {
            let m = choose|m: int| 0 <= m < post.len() && post[m] == n;
            if m < i {
                assert(pre[m] == n);
            } else if m > i {
                assert(pre[m - 1] == n);
            }
        }
        assert forall|n: Seq<char>| (pre.contains(n) || n == x@) implies post.contains(n) by {
            if pre.contains(n) {
                let m = choose|m: int| 0 <= m < pre.len() && pre[m] == n;
                if m < i {
                    assert(post[m] == n);
                } else {
                    assert(post[m + 1] == n);
                }
            } else {
                assert(post[i as int] == n);
            }
        }
        assert(strictly_sorted(post)) by {
            assert forall|p: int, q: int| 0 <= p < q < post.len() implies
                lex_lt(post[p], post[q]) by {
                if q < i {
                    assert(post[p] == pre[p] && post[q] == pre[q]);
                } else if p > i {
                    assert(post[p] == pre[p - 1] && post[q] == pre[q - 1]);
                } else if p < i && q == i {
                    assert(post[p] == pre[p]);
                } else if p == i {
                    assert(post[q] == pre[q - 1]);
                    if i < pre.len() {
                        assert(lex_lt(x@, pre[i as int]));
                        if q - 1 > i {
                            lemma_lex_trans(x@, pre[i as int], pre[q - 1]);
                        }
                    }
                } else {
                    // p < i, q > i
                    assert(post[p] == pre[p] && post[q] == pre[q - 1]);
                    assert(lex_lt(pre[p], x@));
                    if q - 1 == i {
                        if i < pre.len() {
                            assert(lex_lt(x@, pre[i as int]));
                        }
                        if q - 1 < pre.len() && q - 1 > i {
                            assert(lex_lt(pre[p], pre[q - 1]));
                        }
                        if q - 1 == i && i < pre.len() {
                            lemma_lex_trans(pre[p], x@, pre[i as int]);
                        }
                    } else {
                        assert(lex_lt(pre[p], pre[q - 1]));
                    }
                }
            }
        }
    }
}

/// Executable equality of the views of two string vectors.
pub fn views_eq(a: &Vec<String>, b: &Vec<String>) -> (r: bool)
    ensures
        r == (views(a@) == views(b@)),
{
    if a.len() != b.len() {
        proof {
            assert(views(a@).len() != views(b@).len());
        }
        return false;
    }
    let mut i: usize = 0;
    while i < a.len()
        invariant
            i <= a.len(),
            a@.len() == b@.len(),
            forall|k: int| 0 <= k < i ==> views(a@)[k] == views(b@)[k],
        decreases a.len() - i,
    {
        assert(views(a@)[i as int] == a@[i as int]@);
        assert(views(b@)[i as int] == b@[i as int]@);
        if !a[i].eq(&b[i]) {
            assert(views(a@)[i as int] != views(b@)[i as int]);
            return false;
        }
        assert(views(a@)[i as int] == views(b@)[i as int]);
        i = i + 1;
    }
    proof {
        assert(views(a@) =~= views(b@));
    }
    true
}

/// Executable membership of a name in a vector of strings.
pub fn contains_str(v: &Vec<String>, x: &String) -> (r: bool)
    ensures
        r == views(v@).contains(x@),
{
    let mut i: usize = 0;
    while i < v.len()
        invariant
            i <= v.len(),
            forall|k: int| 0 <= k < i ==> views(v@)[k] != x@,
        decreases v.len() - i,
    {
        assert(views(v@)[i as int] == v@[i as int]@);
        if v[i].eq(x) {
            assert(views(v@)[i as int] == x@);
            return true;
        }
        i = i + 1;
    }
    false
}

} // verus!
