//! The order of strings by their characters, and sorting a list of strings
//! into strictly increasing order without repeats.
//!
//! Comparing character by character is the order of `String`'s `Ord`: it
//! compares UTF-8 bytes, and UTF-8 keeps the order of code points.
use vstd::prelude::*;
use crate::text::chars_of;

verus! {

/// `a` comes strictly before `b`: at the first position where they differ
/// `a` has the smaller character, or `a` is a proper prefix of `b`.
pub open spec fn seq_less(a: Seq<char>, b: Seq<char>) -> bool
    decreases a.len(),
{
    if a.len() == 0 {
        b.len() > 0
    } else if b.len() == 0 {
        false
    } else if a[0] != b[0] {
        a[0] < b[0]
    } else {
        seq_less(a.drop_first(), b.drop_first())
    }
}

/// A sequence of strings is strictly increasing.
pub open spec fn strictly_sorted(s: Seq<Seq<char>>) -> bool {
    forall|i: int, j: int| 0 <= i < j < s.len() ==> seq_less(#[trigger] s[i], #[trigger] s[j])
}

/// The characters of each string of `v`.
pub open spec fn views_of(v: Seq<String>) -> Seq<Seq<char>> {
    v.map_values(|x: String| x@)
}

/// No string comes before itself.
pub proof fn lemma_less_irreflexive(a: Seq<char>)
    ensures
        !seq_less(a, a),
    decreases a.len(),
{
    if a.len() > 0 {
        lemma_less_irreflexive(a.drop_first());
    }
}

/// The order is transitive.
pub proof fn lemma_less_transitive(a: Seq<char>, b: Seq<char>, c: Seq<char>)
    requires
        seq_less(a, b),
        seq_less(b, c),
    ensures
        seq_less(a, c),
    decreases a.len(),
{
    if a.len() > 0 && b.len() > 0 && c.len() > 0 {
        if a[0] == b[0] && b[0] == c[0] {
            lemma_less_transitive(a.drop_first(), b.drop_first(), c.drop_first());
        }
    }
}

/// Of two different strings, one comes before the other.
pub proof fn lemma_less_total(a: Seq<char>, b: Seq<char>)
    requires
        a != b,
    ensures
        seq_less(a, b) || seq_less(b, a),
    decreases a.len(),
{
    if a.len() > 0 && b.len() > 0 && a[0] == b[0] {
        if a.drop_first() == b.drop_first() {
            assert(a =~= seq![a[0]] + a.drop_first());
            assert(b =~= seq![b[0]] + b.drop_first());
        }
        lemma_less_total(a.drop_first(), b.drop_first());
    } else if a.len() == 0 && b.len() == 0 {
        assert(a =~= b);
    }
}

/// No two strings come each before the other.
pub proof fn lemma_less_asymmetric(a: Seq<char>, b: Seq<char>)
    requires
        seq_less(a, b),
    ensures
        !seq_less(b, a),
{
    if seq_less(b, a) {
        lemma_less_transitive(a, b, a);
        lemma_less_irreflexive(a);
    }
}

proof fn lemma_sorted_first_is_least(a: Seq<Seq<char>>, k: int)
    requires
        strictly_sorted(a),
        0 < k < a.len(),
    ensures
        seq_less(a[0], a[k]),
{
}

/// A set of strings has one strictly increasing listing: two strictly
/// increasing sequences with the same strings are equal, so a sorted list
/// of families is determined by the families alone.
pub proof fn law_sorted_listing_is_unique(a: Seq<Seq<char>>, b: Seq<Seq<char>>)
    requires
        strictly_sorted(a),
        strictly_sorted(b),
        forall|s: Seq<char>| a.contains(s) <==> b.contains(s),
    ensures
        a == b,
    decreases a.len(),
{
    if a.len() == 0 {
        if b.len() > 0 {
            assert(b.contains(b[0]));
        }
        assert(a =~= b);
    } else {
        assert(a.contains(a[0]));
        assert(b.contains(a[0]));
        let j = choose|j: int| 0 <= j < b.len() && b[j] == a[0];
        assert(b.contains(b[0]));
        assert(a.contains(b[0]));
        let k = choose|k: int| 0 <= k < a.len() && a[k] == b[0];
        if j > 0 {
            lemma_sorted_first_is_least(b, j);
            if k > 0 {
                lemma_sorted_first_is_least(a, k);
                lemma_less_transitive(a[0], b[0], a[0]);
            }
            lemma_less_irreflexive(a[0]);
        }
        assert(a[0] == b[0]);
        let ta = a.drop_first();
        let tb = b.drop_first();
        assert forall|s: Seq<char>| ta.contains(s) <==> tb.contains(s) by {
            if ta.contains(s) {
                let i = choose|i: int| 0 <= i < ta.len() && ta[i] == s;
                assert(a[i + 1] == s);
                assert(a.contains(s));
                let m = choose|m: int| 0 <= m < b.len() && b[m] == s;
                lemma_sorted_first_is_least(a, i + 1);
                if m == 0 {
                    lemma_less_irreflexive(s);
                }
                assert(tb[m - 1] == s);
            }
            if tb.contains(s) {
                let i = choose|i: int| 0 <= i < tb.len() && tb[i] == s;
                assert(b[i + 1] == s);
                assert(b.contains(s));
                let m = choose|m: int| 0 <= m < a.len() && a[m] == s;
                lemma_sorted_first_is_least(b, i + 1);
                if m == 0 {
                    lemma_less_irreflexive(s);
                }
                assert(ta[m - 1] == s);
            }
        }
        law_sorted_listing_is_unique(ta, tb);
        assert(a =~= seq![a[0]] + ta);
        assert(b =~= seq![b[0]] + tb);
    }
}

proof fn lemma_less_after_prefix(a: Seq<char>, b: Seq<char>, i: int)
    requires
        0 <= i <= a.len(),
        i <= b.len(),
        a.take(i) == b.take(i),
    ensures
        seq_less(a, b) == seq_less(a.skip(i), b.skip(i)),
    decreases i,
{
    if i > 0 {
        assert(a[0] == a.take(i)[0]);
        assert(b[0] == b.take(i)[0]);
        assert(a.drop_first().take(i - 1) =~= a.take(i).drop_first());
        assert(b.drop_first().take(i - 1) =~= b.take(i).drop_first());
        lemma_less_after_prefix(a.drop_first(), b.drop_first(), i - 1);
        assert(a.drop_first().skip(i - 1) =~= a.skip(i));
        assert(b.drop_first().skip(i - 1) =~= b.skip(i));
    } else {
        assert(a.skip(0) =~= a);
        assert(b.skip(0) =~= b);
    }
}

/// Whether `a` comes strictly before `b`.
pub fn chars_less(a: &Vec<char>, b: &Vec<char>) -> (r: bool)
    ensures
        r == seq_less(a@, b@),
{
    let mut i: usize = 0;
    while i < a.len() && i < b.len()
        invariant
            i <= a.len(),
            i <= b.len(),
            a@.take(i as int) == b@.take(i as int),
        decreases a.len() - i,
    {
        if a[i] != b[i] {
            proof {
                lemma_less_after_prefix(a@, b@, i as int);
            }
            return a[i] < b[i];
        }
        assert(a@.take(i + 1) =~= a@.take(i as int).push(a@[i as int]));
        assert(b@.take(i + 1) =~= b@.take(i as int).push(b@[i as int]));
        i = i + 1;
    }
    proof {
        lemma_less_after_prefix(a@, b@, i as int);
    }
    i < b.len()
}

/// Whether two character vectors are equal.
fn chars_equal(a: &Vec<char>, b: &Vec<char>) -> (r: bool)
    ensures
        r == (a@ == b@),
{
    if a.len() != b.len() {
        return false;
    }
    let mut i: usize = 0;
    while i < a.len()
        invariant
            a.len() == b.len(),
            i <= a.len(),
            forall|j: int| 0 <= j < i ==> a@[j] == b@[j],
        decreases a.len() - i,
    {
        if a[i] != b[i] {
            return false;
        }
        i = i + 1;
    }
    assert(a@ =~= b@);
    true
}

/// The strings of `names`, strictly increasing, each once: the contents
/// of a `BTreeSet` built from them, in iteration order.
pub fn sort_unique(names: &Vec<String>) -> (r: Vec<String>)
    ensures
        strictly_sorted(views_of(r@)),
        forall|s: Seq<char>| views_of(r@).contains(s) <==> views_of(names@).contains(s),
{
    let mut out: Vec<String> = Vec::new();
    let mut keys: Vec<Vec<char>> = Vec::new();
    let mut k: usize = 0;
    while k < names.len()
        invariant
            k <= names.len(),
            out.len() == keys.len(),
            forall|i: int| 0 <= i < keys.len() ==> (#[trigger] keys@[i])@ == out@[i]@,
            strictly_sorted(views_of(out@)),
            forall|s: Seq<char>|
                views_of(out@).contains(s) <==> views_of(names@.take(k as int)).contains(s),
        decreases names.len() - k,
    {
        let key = chars_of(names[k].as_str());
        let ghost n = names@[k as int]@;
        let mut p: usize = 0;
        while p < keys.len() && chars_less(&keys[p], &key)
            invariant
                p <= keys.len(),
                out.len() == keys.len(),
                key@ == n,
                forall|i: int| 0 <= i < keys.len() ==> (#[trigger] keys@[i])@ == out@[i]@,
                forall|i: int| 0 <= i < p ==> seq_less(#[trigger] out@[i]@, n),
            decreases keys.len() - p,
        {
            p = p + 1;
        }
        let ghost old_out = out@;
        proof {
            assert(views_of(names@.take(k + 1)) =~= views_of(names@.take(k as int)).push(n));
        }
        if p < keys.len() && chars_equal(&keys[p], &key) {
            assert(views_of(out@)[p as int] == n);
            assert forall|s: Seq<char>|
                views_of(out@).contains(s) <==> views_of(names@.take(k + 1)).contains(s) by {
                if s == n {
                    assert(views_of(out@)[p as int] == s);
                }
                let t = views_of(names@.take(k + 1));
                let t0 = views_of(names@.take(k as int));
                if views_of(out@).contains(s) {
                    assert(t0.contains(s));
                    let j = choose|j: int| 0 <= j < t0.len() && #[trigger] t0[j] == s;
                    assert(t[j] == s);
                }
                if t.contains(s) && s != n {
                    let j = choose|j: int| 0 <= j < t.len() && #[trigger] t[j] == s;
                    assert(views_of(names@.take(k as int))[j] == s);
                }
            }
        } else {
            proof {
                if p < keys.len() {
                    assert(!seq_less(out@[p as int]@, n));
                    assert(out@[p as int]@ != n);
                    lemma_less_total(out@[p as int]@, n);
                }
            }
            let copy = names[k].clone();
            out.insert(p, copy);
            keys.insert(p, key);
            assert(out@[p as int]@ == n);
            assert forall|i: int, j: int|
                0 <= i < j < views_of(out@).len() implies seq_less(
                #[trigger] views_of(out@)[i],
                #[trigger] views_of(out@)[j],
            ) by {
                if j < p {
                    assert(views_of(old_out)[i] == views_of(out@)[i]);
                    assert(views_of(old_out)[j] == views_of(out@)[j]);
                } else if j == p {
                } else if i == p {
                    assert(out@[j] == old_out[j - 1]);
                    if j - 1 > p {
                        assert(seq_less(views_of(old_out)[p as int], views_of(old_out)[j - 1]));
                        lemma_less_transitive(n, old_out[p as int]@, old_out[j - 1]@);
                    }
                } else if i < p {
                    assert(out@[j] == old_out[j - 1]);
                    assert(seq_less(old_out[i]@, n));
                    if j - 1 == p as int {
                        lemma_less_transitive(old_out[i]@, n, old_out[j - 1]@);
                    } else {
                        assert(seq_less(views_of(old_out)[i], views_of(old_out)[j - 1]));
                    }
                } else {
                    assert(out@[i] == old_out[i - 1]);
                    assert(out@[j] == old_out[j - 1]);
                    assert(seq_less(views_of(old_out)[i - 1], views_of(old_out)[j - 1]));
                }
            }
            assert forall|s: Seq<char>|
                views_of(out@).contains(s) <==> views_of(names@.take(k + 1)).contains(s) by {
                let o = views_of(out@);
                let t = views_of(names@.take(k + 1));
                let w = views_of(old_out);
                if o.contains(s) {
                    let j = choose|j: int| 0 <= j < o.len() && #[trigger] o[j] == s;
                    let t0 = views_of(names@.take(k as int));
                    if j < p {
                        assert(w[j] == s);
                    } else if j > p {
                        assert(w[j - 1] == s);
                    }
                    if j != p {
                        assert(w.contains(s));
                        assert(t0.contains(s));
                        let i = choose|i: int| 0 <= i < t0.len() && #[trigger] t0[i] == s;
                        assert(t[i] == s);
                    } else {
                        assert(t[k as int] == s);
                    }
                }
                if t.contains(s) {
                    if s == n {
                        assert(views_of(out@)[p as int] == s);
                    } else {
                        let j = choose|j: int| 0 <= j < t.len() && #[trigger] t[j] == s;
                        assert(views_of(names@.take(k as int))[j] == s);
                        assert(w.contains(s));
                        let m = choose|m: int| 0 <= m < w.len() && #[trigger] w[m] == s;
                        if m < p {
                            assert(views_of(out@)[m] == s);
                        } else {
                            assert(views_of(out@)[m + 1] == s);
                        }
                    }
                }
            }
        }
        k = k + 1;
    }
    assert(names@.take(names.len() as int) =~= names@);
    out
}

} // verus!
