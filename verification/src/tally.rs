//! Counting keys: a tally lists each distinct key once, in the order of its
//! first occurrence, with the number of its occurrences; a ranking orders a
//! tally by count, highest first, keeping equal counts in tally order.

use vstd::prelude::*;
use crate::text::{dec, dec_of, owned, push_chars, push_str, str_eq};

verus! {

/// The texts of a sequence of strings.
pub open spec fn strs_view(s: Seq<String>) -> Seq<Seq<char>> {
    Seq::new(s.len(), |i: int| s[i]@)
}

/// A tally held in a vector, taken as texts and counts.
pub open spec fn counts_view(v: Seq<(String, u64)>) -> Seq<(Seq<char>, nat)> {
    Seq::new(v.len(), |i: int| (v[i].0@, v[i].1 as nat))
}

/// No key occurs twice.
pub open spec fn distinct_keys(t: Seq<(Seq<char>, nat)>) -> bool {
    forall|i: int, j: int| 0 <= i < j < t.len() ==> (#[trigger] t[i]).0 != (#[trigger] t[j]).0
}

/// Whether `k` has an entry.
pub open spec fn has_key(t: Seq<(Seq<char>, nat)>, k: Seq<char>) -> bool {
    exists|i: int| 0 <= i < t.len() && (#[trigger] t[i]).0 == k
}

/// A position of `k`'s entry.
pub open spec fn key_index(t: Seq<(Seq<char>, nat)>, k: Seq<char>) -> int {
    choose|i: int| 0 <= i < t.len() && (#[trigger] t[i]).0 == k
}

/// One more occurrence of `k`: its count goes up by one, or it joins at the
/// end with a count of one.
pub open spec fn bump(t: Seq<(Seq<char>, nat)>, k: Seq<char>) -> Seq<(Seq<char>, nat)> {
    if has_key(t, k) {
        let i = key_index(t, k);
        t.update(i, (k, t[i].1 + 1))
    } else {
        t.push((k, 1nat))
    }
}

/// The tally of a sequence of keys.
pub open spec fn tally(keys: Seq<Seq<char>>) -> Seq<(Seq<char>, nat)>
    decreases keys.len(),
{
    if keys.len() == 0 {
        Seq::empty()
    } else {
        bump(tally(keys.drop_last()), keys.last())
    }
}

/// The number of occurrences of `k` in `keys`.
pub open spec fn occurrences(keys: Seq<Seq<char>>, k: Seq<char>) -> nat
    decreases keys.len(),
{
    if keys.len() == 0 {
        0
    } else {
        occurrences(keys.drop_last(), k) + (if keys.last() == k { 1nat } else { 0nat })
    }
}

/// Places `x` after every entry whose count is at least its own.
pub open spec fn insert_desc(s: Seq<(Seq<char>, nat)>, x: (Seq<char>, nat)) -> Seq<(Seq<char>, nat)>
    decreases s.len(),
{
    if s.len() == 0 {
        seq![x]
    } else if s[0].1 < x.1 {
        seq![x] + s
    } else {
        seq![s[0]] + insert_desc(s.drop_first(), x)
    }
}

/// A tally ordered by count, highest first; equal counts keep their order.
pub open spec fn ranked(t: Seq<(Seq<char>, nat)>) -> Seq<(Seq<char>, nat)>
    decreases t.len(),
{
    if t.len() == 0 {
        t
    } else {
        insert_desc(ranked(t.drop_last()), t.last())
    }
}

/// At most the first `n` entries.
pub open spec fn top(t: Seq<(Seq<char>, nat)>, n: nat) -> Seq<(Seq<char>, nat)> {
    if t.len() <= n {
        t
    } else {
        t.take(n as int)
    }
}

/// One line per entry: `  - key: count` and `unit`.
pub open spec fn lines(t: Seq<(Seq<char>, nat)>, unit: Seq<char>) -> Seq<char>
    decreases t.len(),
{
    if t.len() == 0 {
        Seq::empty()
    } else {
        lines(t.drop_last(), unit) + "  - "@ + t.last().0 + ": "@ + dec(t.last().1) + unit + "\n"@
    }
}

/// Sorted by count, highest first.
pub open spec fn sorted_desc(s: Seq<(Seq<char>, nat)>) -> bool {
    forall|i: int, j: int| 0 <= i < j < s.len() ==> (#[trigger] s[i]).1 >= (#[trigger] s[j]).1
}

proof fn lemma_bump_distinct(t: Seq<(Seq<char>, nat)>, k: Seq<char>)
    requires
        distinct_keys(t),
    ensures
        distinct_keys(bump(t, k)),
{
    if has_key(t, k) {
        let i = key_index(t, k);
        let u = bump(t, k);
        assert forall|a: int, b: int| 0 <= a < b < u.len() implies (#[trigger] u[a]).0 != (#[trigger] u[b]).0 by {
            assert(u[a].0 == t[a].0);
            assert(u[b].0 == t[b].0);
        }
    } else {
        let u = bump(t, k);
        assert forall|a: int, b: int| 0 <= a < b < u.len() implies (#[trigger] u[a]).0 != (#[trigger] u[b]).0 by {
            if b == t.len() {
                assert(u[a] == t[a]);
            } else {
                assert(u[a] == t[a]);
                assert(u[b] == t[b]);
            }
        }
    }
}

/// A tally lists each key once.
pub proof fn lemma_tally_distinct(keys: Seq<Seq<char>>)
    ensures
        distinct_keys(tally(keys)),
    decreases keys.len(),
{
    if keys.len() > 0 {
        lemma_tally_distinct(keys.drop_last());
        lemma_bump_distinct(tally(keys.drop_last()), keys.last());
    }
}

/// A tally counts every key: a key has an entry exactly when it occurs, and
/// the entry holds the number of its occurrences.
pub proof fn lemma_tally_counts(keys: Seq<Seq<char>>, k: Seq<char>)
    ensures
        has_key(tally(keys), k) <==> occurrences(keys, k) > 0,
        forall|i: int| 0 <= i < tally(keys).len() && (#[trigger] tally(keys)[i]).0 == k
            ==> tally(keys)[i].1 == occurrences(keys, k),
    decreases keys.len(),
{
    if keys.len() > 0 {
        let pre = keys.drop_last();
        let t = tally(pre);
        lemma_tally_counts(pre, k);
        lemma_tally_distinct(pre);
        let x = keys.last();
        let u = bump(t, x);
        assert(tally(keys) == u);
        if has_key(t, x) {
            let i = key_index(t, x);
            assert forall|j: int| 0 <= j < u.len() && (#[trigger] u[j]).0 == k implies u[j].1 == occurrences(keys, k) by {
                if j == i {
                    lemma_tally_counts(pre, x);
                } else {
                    assert(u[j] == t[j]);
                    if x == k {
                        assert(t[i].0 == t[j].0);
                    }
                }
            }
            if occurrences(keys, k) > 0 {
                if x == k {
                    assert(u[i].0 == k);
                } else {
                    let w = choose|w: int| 0 <= w < t.len() && (#[trigger] t[w]).0 == k;
                    assert(u[w].0 == k);
                }
            }
            if has_key(u, k) {
                let w = choose|w: int| 0 <= w < u.len() && (#[trigger] u[w]).0 == k;
                if w != i {
                    assert(u[w] == t[w]);
                }
            }
        } else {
            assert forall|j: int| 0 <= j < u.len() && (#[trigger] u[j]).0 == k implies u[j].1 == occurrences(keys, k) by {
                if j < t.len() {
                    assert(u[j] == t[j]);
                    if x == k {
                        assert(has_key(t, x));
                    }
                } else {
                    lemma_tally_counts(pre, x);
                }
            }
            if occurrences(keys, k) > 0 {
                if x == k {
                    assert(u[t.len() as int].0 == k);
                } else {
                    let w = choose|w: int| 0 <= w < t.len() && (#[trigger] t[w]).0 == k;
                    assert(u[w].0 == k);
                }
            }
            if has_key(u, k) {
                let w = choose|w: int| 0 <= w < u.len() && (#[trigger] u[w]).0 == k;
                if w < t.len() {
                    assert(u[w] == t[w]);
                }
            }
        }
    }
}

/// A tally is empty exactly when there are no keys.
pub proof fn lemma_tally_empty(keys: Seq<Seq<char>>)
    ensures
        tally(keys).len() == 0 <==> keys.len() == 0,
{
    if keys.len() > 0 {
        let t = tally(keys.drop_last());
        if has_key(t, keys.last()) {
            let i = key_index(t, keys.last());
            assert(t.len() > 0);
        }
    }
}

/// The sum of a tally's counts.
pub open spec fn total(t: Seq<(Seq<char>, nat)>) -> nat
    decreases t.len(),
{
    if t.len() == 0 {
        0
    } else {
        total(t.drop_last()) + t.last().1
    }
}

proof fn lemma_total_update(t: Seq<(Seq<char>, nat)>, i: int, x: (Seq<char>, nat))
    requires
        0 <= i < t.len(),
    ensures
        total(t.update(i, x)) + t[i].1 == total(t) + x.1,
    decreases t.len(),
{
    let u = t.update(i, x);
    if i == t.len() - 1 {
        assert(u.drop_last() =~= t.drop_last());
    } else {
        assert(u.drop_last() =~= t.drop_last().update(i, x));
        lemma_total_update(t.drop_last(), i, x);
    }
}

/// A tally counts every key once: its counts add up to the number of keys.
pub proof fn lemma_tally_total(keys: Seq<Seq<char>>)
    ensures
        total(tally(keys)) == keys.len(),
    decreases keys.len(),
{
    if keys.len() > 0 {
        let t = tally(keys.drop_last());
        lemma_tally_total(keys.drop_last());
        let k = keys.last();
        assert(tally(keys) == bump(t, k));
        if has_key(t, k) {
            let i = key_index(t, k);
            assert(bump(t, k) == t.update(i, (k, t[i].1 + 1)));
            lemma_total_update(t, i, (k, t[i].1 + 1));
        } else {
            assert(bump(t, k) == t.push((k, 1nat)));
            assert(t.push((k, 1nat)).drop_last() =~= t);
            assert(total(t.push((k, 1nat))) == total(t) + 1);
        }
    }
}

proof fn lemma_insert_desc_at(s: Seq<(Seq<char>, nat)>, x: (Seq<char>, nat), p: int)
    requires
        0 <= p <= s.len(),
        forall|j: int| 0 <= j < p ==> (#[trigger] s[j]).1 >= x.1,
        p < s.len() ==> s[p].1 < x.1,
    ensures
        insert_desc(s, x) == s.insert(p, x),
    decreases s.len(),
{
    if s.len() == 0 {
        assert(s.insert(p, x) =~= seq![x]);
    } else if p == 0 {
        assert(s.insert(p, x) =~= seq![x] + s);
    } else {
        let r = s.drop_first();
        assert forall|j: int| 0 <= j < p - 1 implies (#[trigger] r[j]).1 >= x.1 by {
            assert(r[j] == s[j + 1]);
        }
        lemma_insert_desc_at(r, x, p - 1);
        assert(s.insert(p, x) =~= seq![s[0]] + r.insert(p - 1, x));
    }
}

proof fn lemma_insert_desc_sorted(s: Seq<(Seq<char>, nat)>, x: (Seq<char>, nat))
    requires
        sorted_desc(s),
    ensures
        sorted_desc(insert_desc(s, x)),
        insert_desc(s, x).len() == s.len() + 1,
        insert_desc(s, x).to_multiset() == s.to_multiset().insert(x),
    decreases s.len(),
{
    broadcast use vstd::seq_lib::group_to_multiset_ensures;
    if s.len() == 0 {
        assert(insert_desc(s, x) =~= seq![x]);
        assert(seq![x] =~= Seq::<(Seq<char>, nat)>::empty().push(x));
    } else if s[0].1 < x.1 {
        let u = seq![x] + s;
        assert forall|i: int, j: int| 0 <= i < j < u.len() implies (#[trigger] u[i]).1 >= (#[trigger] u[j]).1 by {
            if i == 0 {
                assert(u[j] == s[j - 1]);
                assert(s[0].1 >= s[j - 1].1 || j - 1 == 0);
            } else {
                assert(u[i] == s[i - 1]);
                assert(u[j] == s[j - 1]);
            }
        }
        vstd::seq_lib::lemma_multiset_commutative(seq![x], s);
        assert(seq![x] =~= Seq::<(Seq<char>, nat)>::empty().push(x));
    } else {
        let r = s.drop_first();
        assert forall|i: int, j: int| 0 <= i < j < r.len() implies (#[trigger] r[i]).1 >= (#[trigger] r[j]).1 by {
            assert(r[i] == s[i + 1]);
            assert(r[j] == s[j + 1]);
        }
        lemma_insert_desc_sorted(r, x);
        let w = insert_desc(r, x);
        let u = seq![s[0]] + w;
        assert forall|i: int, j: int| 0 <= i < j < u.len() implies (#[trigger] u[i]).1 >= (#[trigger] u[j]).1 by {
            if i == 0 {
                assert(u[j] == w[j - 1]);
                assert(w.to_multiset().count(w[j - 1]) > 0);
                assert(r.to_multiset().insert(x).count(w[j - 1]) > 0);
                if w[j - 1] != x {
                    assert(r.to_multiset().count(w[j - 1]) > 0);
                    assert(r.contains(w[j - 1]));
                    let k = choose|k: int| 0 <= k < r.len() && r[k] == w[j - 1];
                    assert(r[k] == s[k + 1]);
                }
            } else {
                assert(u[i] == w[i - 1]);
                assert(u[j] == w[j - 1]);
            }
        }
        vstd::seq_lib::lemma_multiset_commutative(seq![s[0]], w);
        vstd::seq_lib::lemma_multiset_commutative(seq![s[0]], r);
        assert(s =~= seq![s[0]] + r);
        assert(seq![s[0]] =~= Seq::<(Seq<char>, nat)>::empty().push(s[0]));
    }
}

/// A ranking is sorted by count, highest first, and holds the same entries
/// as the tally it ranks.
pub proof fn lemma_ranked(t: Seq<(Seq<char>, nat)>)
    ensures
        sorted_desc(ranked(t)),
        ranked(t).len() == t.len(),
        ranked(t).to_multiset() == t.to_multiset(),
    decreases t.len(),
{
    broadcast use vstd::seq_lib::group_to_multiset_ensures;
    if t.len() > 0 {
        lemma_ranked(t.drop_last());
        lemma_insert_desc_sorted(ranked(t.drop_last()), t.last());
        assert(t =~= t.drop_last().push(t.last()));
    }
}

/// `l` lists the busiest of `keys`, at most `n` of them: each entry is a key
/// that occurs, with the number of its occurrences; entries go from the
/// highest count down; and a key that occurs but is left out occurs no more
/// often than any listed one, and is left out only when `n` are listed.
pub open spec fn lists_busiest(l: Seq<(Seq<char>, nat)>, keys: Seq<Seq<char>>, n: nat) -> bool {
    &&& l.len() <= n
    &&& sorted_desc(l)
    &&& forall|i: int| 0 <= i < l.len() ==> (#[trigger] l[i]).1 == occurrences(keys, l[i].0) && l[i].1 > 0
    &&& forall|k: Seq<char>| #[trigger] occurrences(keys, k) > 0 && !has_key(l, k) ==> l.len() == n
        && forall|i: int| 0 <= i < l.len() ==> occurrences(keys, k) <= (#[trigger] l[i]).1
}

/// The first `n` entries of a ranked tally list the busiest keys.
pub proof fn lemma_top_lists_busiest(keys: Seq<Seq<char>>, n: nat)
    ensures
        lists_busiest(top(ranked(tally(keys)), n), keys, n),
{
    broadcast use vstd::seq_lib::group_to_multiset_ensures;
    let t = tally(keys);
    let r = ranked(t);
    let l = top(r, n);
    lemma_ranked(t);
    assert forall|i: int| 0 <= i < l.len() implies (#[trigger] l[i]).1 == occurrences(keys, l[i].0) && l[i].1 > 0 by {
        assert(l[i] == r[i]);
        assert(r.to_multiset().count(r[i]) > 0);
        assert(t.contains(r[i]));
        let j = choose|j: int| 0 <= j < t.len() && t[j] == r[i];
        lemma_tally_counts(keys, r[i].0);
        assert(has_key(t, r[i].0));
    }
    assert forall|k: Seq<char>| #[trigger] occurrences(keys, k) > 0 && !has_key(l, k) implies l.len() == n
        && forall|i: int| 0 <= i < l.len() ==> occurrences(keys, k) <= (#[trigger] l[i]).1 by {
        lemma_tally_counts(keys, k);
        let j = choose|j: int| 0 <= j < t.len() && (#[trigger] t[j]).0 == k;
        assert(t.contains(t[j]));
        assert(r.to_multiset().count(t[j]) > 0);
        assert(r.contains(t[j]));
        let m = choose|m: int| 0 <= m < r.len() && r[m] == t[j];
        if m < l.len() {
            assert(l[m] == r[m]);
            assert(has_key(l, k));
        }
        assert forall|i: int| 0 <= i < l.len() implies occurrences(keys, k) <= (#[trigger] l[i]).1 by {
            assert(l[i] == r[i]);
        }
    }
    assert forall|i: int, j: int| 0 <= i < j < l.len() implies (#[trigger] l[i]).1 >= (#[trigger] l[j]).1 by {
        assert(l[i] == r[i]);
        assert(l[j] == r[j]);
    }
}

/// Adds one occurrence of `k` to a tally held in a vector.
fn bump_in(v: &mut Vec<(String, u64)>, k: &str, Ghost(bound): Ghost<nat>)
    requires
        distinct_keys(counts_view(old(v)@)),
        bound < u64::MAX,
        forall|j: int| 0 <= j < old(v)@.len() ==> (#[trigger] old(v)@[j]).1 <= bound,
    ensures
        counts_view(final(v)@) == bump(counts_view(old(v)@), k@),
        forall|j: int| 0 <= j < final(v)@.len() ==> (#[trigger] final(v)@[j]).1 <= bound + 1,
{
    let ghost t = counts_view(old(v)@);
    let mut i: usize = 0;
    while i < v.len()
        invariant
            v@ == old(v)@,
            t == counts_view(v@),
            distinct_keys(t),
            bound < u64::MAX,
            forall|j: int| 0 <= j < v@.len() ==> (#[trigger] v@[j]).1 <= bound,
            i <= v@.len(),
            forall|j: int| 0 <= j < i ==> (#[trigger] t[j]).0 != k@,
        decreases v@.len() - i,
    {
        if str_eq(v[i].0.as_str(), k) {
            let c = v[i].1;
            assert(v@[i as int].1 <= bound);
            proof {
                assert(t[i as int].0 == k@);
                assert(has_key(t, k@));
                let w = key_index(t, k@);
                if w != i {
                    assert(t[w].0 == t[i as int].0);
                }
            }
            v.set(i, (owned(k), c + 1));
            assert(counts_view(v@) =~= t.update(i as int, (k@, t[i as int].1 + 1)));
            return;
        }
        i = i + 1;
    }
    v.push((owned(k), 1));
    assert(counts_view(v@) =~= t.push((k@, 1nat)));
}

/// The tally of a list of keys.
pub fn tally_of(keys: &Vec<String>) -> (r: Vec<(String, u64)>)
    ensures
        counts_view(r@) == tally(strs_view(keys@)),
        forall|j: int| 0 <= j < r@.len() ==> (#[trigger] r@[j]).1 <= keys@.len(),
{
    let mut v: Vec<(String, u64)> = Vec::new();
    let mut i: usize = 0;
    assert(strs_view(keys@).take(0) =~= Seq::<Seq<char>>::empty());
    while i < keys.len()
        invariant
            i <= keys@.len(),
            counts_view(v@) == tally(strs_view(keys@).take(i as int)),
            forall|j: int| 0 <= j < v@.len() ==> (#[trigger] v@[j]).1 <= i,
        decreases keys@.len() - i,
    {
        proof {
            lemma_tally_distinct(strs_view(keys@).take(i as int));
        }
        bump_in(&mut v, keys[i].as_str(), Ghost(i as nat));
        assert(strs_view(keys@).take(i + 1).drop_last() =~= strs_view(keys@).take(i as int));
        i = i + 1;
    }
    assert(strs_view(keys@).take(i as int) =~= strs_view(keys@));
    v
}

/// The ranking of a tally (see `ranked`).
pub fn rank(t: &Vec<(String, u64)>) -> (r: Vec<(String, u64)>)
    ensures
        counts_view(r@) == ranked(counts_view(t@)),
{
    let mut r: Vec<(String, u64)> = Vec::new();
    let mut i: usize = 0;
    while i < t.len()
        invariant
            i <= t@.len(),
            counts_view(r@) == ranked(counts_view(t@).take(i as int)),
        decreases t@.len() - i,
    {
        let ghost s = counts_view(r@);
        let c = t[i].1;
        let mut p: usize = 0;
        while p < r.len() && r[p].1 >= c
            invariant
                p <= r@.len(),
                s == counts_view(r@),
                forall|j: int| 0 <= j < p ==> (#[trigger] s[j]).1 >= c,
            decreases r@.len() - p,
        {
            p = p + 1;
        }
        let x = (owned(t[i].0.as_str()), c);
        proof {
            lemma_insert_desc_at(s, (t@[i as int].0@, c as nat), p as int);
            assert(counts_view(t@).take(i + 1).drop_last() =~= counts_view(t@).take(i as int));
        }
        r.insert(p, x);
        assert(counts_view(r@) =~= s.insert(p as int, (t@[i as int].0@, c as nat)));
        i = i + 1;
    }
    assert(counts_view(t@).take(i as int) =~= counts_view(t@));
    r
}

/// Appends the lines of the first `n` entries of a tally (see `lines`).
pub fn push_lines(out: &mut Vec<char>, t: &Vec<(String, u64)>, n: usize, unit: &str)
    requires
        n <= t@.len(),
    ensures
        final(out)@ == old(out)@ + lines(counts_view(t@).take(n as int), unit@),
{
    let mut i: usize = 0;
    assert(counts_view(t@).take(0) =~= Seq::<(Seq<char>, nat)>::empty());
    while i < n
        invariant
            n <= t@.len(),
            i <= n,
            out@ == old(out)@ + lines(counts_view(t@).take(i as int), unit@),
        decreases n - i,
    {
        let ghost before = out@;
        push_str(out, "  - ");
        push_str(out, t[i].0.as_str());
        push_str(out, ": ");
        let d = dec_of(t[i].1);
        push_chars(out, &d);
        push_str(out, unit);
        push_str(out, "\n");
        proof {
            let pre = counts_view(t@).take(i + 1);
            assert(pre.drop_last() =~= counts_view(t@).take(i as int));
            assert(pre.last() == (t@[i as int].0@, t@[i as int].1 as nat));
            assert(out@ =~= before + "  - "@ + t@[i as int].0@ + ": "@ + dec(t@[i as int].1 as nat) + unit@ + "\n"@);
        }
        i = i + 1;
    }
}

} // verus!
