//! Stable sorting by key, as `slice::sort_by` does it.

use vstd::prelude::*;

verus! {

/// A type whose values are ordered by a key, as a sort compares them.
pub trait SortKey: View + Sized {
    /// Whether the key of `a` is at most the key of `b`.
    spec fn key_le(a: Self::V, b: Self::V) -> bool;

    fn key_le_exec(&self, other: &Self) -> (r: bool)
        ensures
            r == Self::key_le(self@, other@),
    ;
}

/// `x` placed after every element of `s`, from the end, whose key is at most
/// its own: where a stable insertion puts it.
pub open spec fn insert_sorted<T: SortKey>(s: Seq<T::V>, x: T::V) -> Seq<T::V>
    decreases s.len(),
{
    if s.len() == 0 || T::key_le(s.last(), x) {
        s.push(x)
    } else {
        insert_sorted::<T>(s.drop_last(), x).push(s.last())
    }
}

/// `s` sorted stably by key.
pub open spec fn stable_sorted<T: SortKey>(s: Seq<T::V>) -> Seq<T::V>
    decreases s.len(),
{
    if s.len() == 0 {
        s
    } else {
        insert_sorted::<T>(stable_sorted::<T>(s.drop_last()), s.last())
    }
}

pub open spec fn views<T: View>(s: Seq<T>) -> Seq<T::V> {
    s.map_values(|x: T| x@)
}

proof fn lemma_insert_at<T: SortKey>(s: Seq<T::V>, x: T::V, j: int)
    requires
        0 <= j <= s.len(),
        forall|k: int| j <= k < s.len() ==> !T::key_le(#[trigger] s[k], x),
        j > 0 ==> T::key_le(s[j - 1], x),
    ensures
        insert_sorted::<T>(s, x) == s.insert(j, x),
    decreases s.len(),
{
    if j == s.len() {
        assert(s.insert(j, x) =~= s.push(x));
    } else {
        let t = s.drop_last();
        assert forall|k: int| j <= k < t.len() implies !T::key_le(#[trigger] t[k], x) by {
            assert(t[k] == s[k]);
        }
        lemma_insert_at::<T>(t, x, j);
        assert(s.insert(j, x) =~= t.insert(j, x).push(s.last()));
    }
}

/// Sorts `v` stably by key (insertion sort).
pub fn stable_sort<T: SortKey>(v: Vec<T>) -> (out: Vec<T>)
    ensures
        views(out@) == stable_sorted::<T>(views(v@)),
{
    let mut out: Vec<T> = Vec::new();
    let mut src = v;
    let ghost all = views(src@);
    let mut i: usize = 0;
    let n = src.len();
    // Reverse once, so that popping yields the elements from the front.
    let mut rest: Vec<T> = Vec::new();
    while src.len() > 0
        invariant
            n == all.len(),
            src.len() + rest.len() == n,
            forall|k: int| 0 <= k < src.len() ==> (#[trigger] src@[k])@ == all[k],
            forall|k: int| 0 <= k < rest.len() ==> (#[trigger] rest@[k])@ == all[n - 1 - k],
        decreases src.len(),
    {
        let y = src.pop().unwrap();
        rest.push(y);
    }
    assert(all.take(0) =~= Seq::<T::V>::empty());
    assert(views(out@) =~= stable_sorted::<T>(all.take(0)));
    while rest.len() > 0
        invariant
            n == all.len(),
            rest.len() + i == n,
            forall|k: int| 0 <= k < rest.len() ==> (#[trigger] rest@[k])@ == all[n - 1 - k],
            views(out@) == stable_sorted::<T>(all.take(i as int)),
        decreases rest.len(),
    {
        let x = rest.pop().unwrap();
        assert(x@ == all[i as int]);
        let mut j = out.len();
        while j > 0 && !out[j - 1].key_le_exec(&x)
            invariant
                j <= out.len(),
                forall|k: int| j <= k < out.len() ==> !T::key_le((#[trigger] out@[k])@, x@),
            decreases j,
        {
            j = j - 1;
        }
        let ghost before = views(out@);
        proof {
            assert forall|k: int| j <= k < before.len() implies !T::key_le(#[trigger] before[k], x@) by {
                assert(before[k] == out@[k]@);
            }
            if j > 0 {
                assert(before[j - 1] == out@[j - 1]@);
            }
            lemma_insert_at::<T>(before, x@, j as int);
        }
        out.insert(j, x);
        assert(views(out@) =~= before.insert(j as int, x@));
        assert(all.take(i + 1).drop_last() =~= all.take(i as int));
        i = i + 1;
    }
    assert(all.take(n as int) =~= all);
    out
}


/// `a <= b` in the order of `String`: lexicographic by code point (the order
/// of their UTF-8 bytes).
pub open spec fn lex_le(a: Seq<char>, b: Seq<char>) -> bool
    decreases a.len(),
{
    if a.len() == 0 {
        true
    } else if b.len() == 0 {
        false
    } else if (a[0] as u32) < (b[0] as u32) {
        true
    } else if (a[0] as u32) > (b[0] as u32) {
        false
    } else {
        lex_le(a.drop_first(), b.drop_first())
    }
}

pub fn chars_le(a: &Vec<char>, b: &Vec<char>) -> (r: bool)
    ensures
        r == lex_le(a@, b@),
{
    let mut i: usize = 0;
    assert(a@.skip(0) =~= a@);
    assert(b@.skip(0) =~= b@);
    while i < a.len() && i < b.len() && (a[i] as u32) == (b[i] as u32)
        invariant
            i <= a.len(),
            i <= b.len(),
            lex_le(a@, b@) == lex_le(a@.skip(i as int), b@.skip(i as int)),
        decreases a.len() - i,
    {
        proof {
            let sa = a@.skip(i as int);
            let sb = b@.skip(i as int);
            assert(sa.drop_first() =~= a@.skip(i + 1));
            assert(sb.drop_first() =~= b@.skip(i + 1));
            assert(sa[0] == a@[i as int]);
            assert(sb[0] == b@[i as int]);
        }
        i = i + 1;
    }
    let ghost sa = a@.skip(i as int);
    let ghost sb = b@.skip(i as int);
    if i == a.len() {
        assert(sa.len() == 0);
        true
    } else if i == b.len() {
        assert(sb.len() == 0);
        false
    } else {
        assert(sa[0] == a@[i as int]);
        assert(sb[0] == b@[i as int]);
        (a[i] as u32) < (b[i] as u32)
    }
}

pub proof fn lemma_lex_le_total(a: Seq<char>, b: Seq<char>)
    ensures
        lex_le(a, b) || lex_le(b, a),
    decreases a.len(),
{
    if a.len() > 0 && b.len() > 0 && (a[0] as u32) == (b[0] as u32) {
        lemma_lex_le_total(a.drop_first(), b.drop_first());
    }
}

pub proof fn lemma_lex_le_trans(a: Seq<char>, b: Seq<char>, c: Seq<char>)
    requires
        lex_le(a, b),
        lex_le(b, c),
    ensures
        lex_le(a, c),
    decreases a.len(),
{
    if a.len() > 0 && b.len() > 0 && c.len() > 0 && (a[0] as u32) == (b[0] as u32) && (b[0] as u32) == (c[0] as u32) {
        lemma_lex_le_trans(a.drop_first(), b.drop_first(), c.drop_first());
    }
}

/// Keys in order: each element's key is at most the key of every later one.
pub open spec fn sorted_by_key<T: SortKey>(s: Seq<T::V>) -> bool {
    forall|i: int, j: int| 0 <= i < j < s.len() ==> T::key_le(#[trigger] s[i], #[trigger] s[j])
}

/// The key order is total and transitive.
pub open spec fn key_order_total<T: SortKey>() -> bool {
    &&& forall|a: T::V, b: T::V| #[trigger] T::key_le(a, b) || T::key_le(b, a)
    &&& forall|a: T::V, b: T::V, c: T::V| #[trigger] T::key_le(a, b) && #[trigger] T::key_le(b, c)
        ==> T::key_le(a, c)
}

proof fn lemma_insert_sorted<T: SortKey>(s: Seq<T::V>, x: T::V)
    requires
        key_order_total::<T>(),
        sorted_by_key::<T>(s),
    ensures
        sorted_by_key::<T>(insert_sorted::<T>(s, x)),
        insert_sorted::<T>(s, x).len() == s.len() + 1,
        forall|y: T::V| #[trigger] insert_sorted::<T>(s, x).contains(y) <==> (s.contains(y) || y == x),
    decreases s.len(),
{
    let r = insert_sorted::<T>(s, x);
    if s.len() == 0 || T::key_le(s.last(), x) {
        assert forall|i: int, j: int| 0 <= i < j < r.len() implies T::key_le(#[trigger] r[i], #[trigger] r[j]) by {
            if j == s.len() {
                if i < s.len() - 1 {
                    assert(T::key_le(s[i], s[s.len() - 1]));
                }
            }
        }
        assert forall|y: T::V| #[trigger] r.contains(y) <==> (s.contains(y) || y == x) by {
            if s.contains(y) {
                let k = choose|k: int| 0 <= k < s.len() && s[k] == y;
                assert(r[k] == y);
            }
            if y == x {
                assert(r[s.len() as int] == y);
            }
            if r.contains(y) {
                let k = choose|k: int| 0 <= k < r.len() && r[k] == y;
                if k < s.len() {
                    assert(s[k] == y);
                }
            }
        }
    } else {
        let d = s.drop_last();
        let l = s.last();
        assert(sorted_by_key::<T>(d)) by {
            assert forall|i: int, j: int| 0 <= i < j < d.len() implies T::key_le(#[trigger] d[i], #[trigger] d[j]) by {
                assert(d[i] == s[i] && d[j] == s[j]);
            }
        }
        lemma_insert_sorted::<T>(d, x);
        let t = insert_sorted::<T>(d, x);
        assert(T::key_le(x, l));
        assert forall|k: int| 0 <= k < t.len() implies T::key_le(#[trigger] t[k], l) by {
            assert(t.contains(t[k]));
            if t[k] != x {
                assert(d.contains(t[k]));
                let m = choose|m: int| 0 <= m < d.len() && d[m] == t[k];
                assert(T::key_le(s[m], s[s.len() - 1]));
            }
        }
        assert forall|i: int, j: int| 0 <= i < j < r.len() implies T::key_le(#[trigger] r[i], #[trigger] r[j]) by {
            if j == t.len() {
                assert(T::key_le(t[i], l));
            } else {
                assert(r[i] == t[i] && r[j] == t[j]);
            }
        }
        assert forall|y: T::V| #[trigger] r.contains(y) <==> (s.contains(y) || y == x) by {
            if r.contains(y) {
                let k = choose|k: int| 0 <= k < r.len() && r[k] == y;
                if k < t.len() {
                    assert(t[k] == y);
                    assert(t.contains(y));
                    if y != x {
                        let m = choose|m: int| 0 <= m < d.len() && d[m] == y;
                        assert(s[m] == y);
                    }
                } else {
                    assert(s[s.len() - 1] == y);
                }
            }
            if s.contains(y) {
                let k = choose|k: int| 0 <= k < s.len() && s[k] == y;
                if k < s.len() - 1 {
                    assert(d[k] == y);
                    assert(t.contains(y));
                    let m = choose|m: int| 0 <= m < t.len() && t[m] == y;
                    assert(r[m] == y);
                } else {
                    assert(r[t.len() as int] == y);
                }
            }
            if y == x {
                assert(t.contains(x));
                let m = choose|m: int| 0 <= m < t.len() && t[m] == x;
                assert(r[m] == x);
            }
        }
    }
}

/// A stable sort by a total key order puts the keys in order and keeps
/// exactly the elements it was given.
pub proof fn lemma_stable_sorted<T: SortKey>(s: Seq<T::V>)
    requires
        key_order_total::<T>(),
    ensures
        sorted_by_key::<T>(stable_sorted::<T>(s)),
        stable_sorted::<T>(s).len() == s.len(),
        forall|y: T::V| #[trigger] stable_sorted::<T>(s).contains(y) <==> s.contains(y),
    decreases s.len(),
{
    if s.len() > 0 {
        let d = s.drop_last();
        lemma_stable_sorted::<T>(d);
        lemma_insert_sorted::<T>(stable_sorted::<T>(d), s.last());
        assert forall|y: T::V| #[trigger] stable_sorted::<T>(s).contains(y) <==> s.contains(y) by {
            if s.contains(y) {
                let k = choose|k: int| 0 <= k < s.len() && s[k] == y;
                if k < s.len() - 1 {
                    assert(d[k] == y);
                    assert(d.contains(y));
                }
            }
            if d.contains(y) {
                let k = choose|k: int| 0 <= k < d.len() && d[k] == y;
                assert(s[k] == y);
            }
        }
    }
}

} // verus!
