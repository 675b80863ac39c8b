//! Lexicographic order on texts (the order of `String`'s `Ord`) and a sorting
//! permutation for lists of distinct texts.
use vstd::prelude::*;
use crate::text::{chars_of, views};

verus! {

/// `a` sorts strictly before `b`, character by character, a proper prefix first.
pub open spec fn text_lt(a: Seq<char>, b: Seq<char>) -> bool
    decreases a.len(),
{
    if a.len() == 0 {
        b.len() > 0
    } else if b.len() == 0 {
        false
    } else if a[0] < b[0] {
        true
    } else if a[0] == b[0] {
        text_lt(a.drop_first(), b.drop_first())
    } else {
        false
    }
}

/// No text sorts before itself.
pub proof fn lemma_text_lt_irreflexive(a: Seq<char>)
    ensures
        !text_lt(a, a),
    decreases a.len(),
{
    if a.len() > 0 {
        lemma_text_lt_irreflexive(a.drop_first());
    }
}

/// The order is transitive.
pub proof fn lemma_text_lt_transitive(a: Seq<char>, b: Seq<char>, c: Seq<char>)
    requires
        text_lt(a, b),
        text_lt(b, c),
    ensures
        text_lt(a, c),
    decreases a.len(),
{
    if a.len() > 0 && b.len() > 0 && c.len() > 0 {
        if a[0] == b[0] && b[0] == c[0] {
            lemma_text_lt_transitive(a.drop_first(), b.drop_first(), c.drop_first());
        }
    }
}

/// Two different texts are ordered one way or the other.
pub proof fn lemma_text_lt_total(a: Seq<char>, b: Seq<char>)
    requires
        a != b,
    ensures
        text_lt(a, b) || text_lt(b, a),
    decreases a.len(),
{
    if a.len() > 0 && b.len() > 0 && a[0] == b[0] {
        if a.drop_first() == b.drop_first() {
            assert(a =~= seq![a[0]] + a.drop_first());
            assert(b =~= seq![b[0]] + b.drop_first());
        }
        lemma_text_lt_total(a.drop_first(), b.drop_first());
    } else if a.len() == 0 && b.len() == 0 {
        assert(a =~= b);
    }
}

/// The order is asymmetric.
pub proof fn lemma_text_lt_asymmetric(a: Seq<char>, b: Seq<char>)
    requires
        text_lt(a, b),
    ensures
        !text_lt(b, a),
{
    if text_lt(b, a) {
        lemma_text_lt_transitive(a, b, a);
        lemma_text_lt_irreflexive(a);
    }
}

/// `a < b` on texts, as `String`'s ordering answers it.
pub fn text_less(a: &str, b: &str) -> (r: bool)
    ensures
        r == text_lt(a@, b@),
{
    let av = chars_of(a);
    let bv = chars_of(b);
    let mut i: usize = 0;
    assert(a@.skip(0) =~= a@);
    assert(b@.skip(0) =~= b@);
    while i < av.len() && i < bv.len()
        invariant
            av@ == a@,
            bv@ == b@,
            i <= av@.len(),
            i <= bv@.len(),
            text_lt(a@, b@) == text_lt(a@.skip(i as int), b@.skip(i as int)),
        decreases av@.len() - i,
    {
        let ghost sa = a@.skip(i as int);
        let ghost sb = b@.skip(i as int);
        assert(sa[0] == av@[i as int]);
        assert(sb[0] == bv@[i as int]);
        if av[i] < bv[i] {
            return true;
        }
        if av[i] != bv[i] {
            return false;
        }
        assert(sa.drop_first() =~= a@.skip(i + 1));
        assert(sb.drop_first() =~= b@.skip(i + 1));
        i = i + 1;
    }
    i < bv.len()
}

/// The texts of `keys` are pairwise different.
pub open spec fn distinct_texts(keys: Seq<Seq<char>>) -> bool {
    forall|i: int, j: int| 0 <= i < keys.len() && 0 <= j < keys.len() && i != j ==> keys[i] != keys[j]
}

/// Position `p` occurs in `idx`.
pub open spec fn occurs(idx: Seq<usize>, p: int) -> bool {
    exists|i: int| 0 <= i < idx.len() && idx[i] == p
}

/// `idx` lists each position of `0..n` once.
pub open spec fn is_permutation(idx: Seq<usize>, n: nat) -> bool {
    &&& idx.len() == n
    &&& forall|i: int| 0 <= i < idx.len() ==> idx[i] < n
    &&& forall|i: int, j: int| 0 <= i < idx.len() && 0 <= j < idx.len() && i != j ==> idx[i] != idx[j]
    &&& forall|p: int| 0 <= p < n ==> #[trigger] occurs(idx, p)
}

pub(crate) proof fn lemma_perm_covers(idx: Seq<usize>, n: nat)
    requires
        n <= usize::MAX,
        idx.len() == n,
        forall|i: int| 0 <= i < idx.len() ==> idx[i] < n,
        forall|i: int, j: int| 0 <= i < idx.len() && 0 <= j < idx.len() && i != j ==> idx[i] != idx[j],
    ensures
        forall|p: int| 0 <= p < n ==> #[trigger] occurs(idx, p),
{
    assert forall|p: int| 0 <= p < n implies #[trigger] occurs(idx, p) by {
        if !occurs(idx, p) {
            let full = Set::new(|q: usize| q < n);
            lemma_range_set_len(n);
            let rest = full.remove(p as usize);
            assert(idx.no_duplicates());
            idx.unique_seq_to_set();
            assert(idx.to_set().subset_of(rest)) by {
                assert forall|q: usize| idx.to_set().contains(q) implies rest.contains(q) by {
                    let i = choose|i: int| 0 <= i < idx.len() && idx[i] == q;
                }
            }
            vstd::set_lib::lemma_len_subset(idx.to_set(), rest);
        }
    }
}

/// `keys` taken in the order `idx` is strictly increasing.
pub open spec fn sorted_by_index(keys: Seq<Seq<char>>, idx: Seq<usize>) -> bool {
    forall|i: int, j: int|
        0 <= i < j < idx.len() ==> text_lt(keys[idx[i] as int], keys[idx[j] as int])
}

/// The positions of `keys` in increasing order of their texts.
pub fn sorting_permutation(keys: &Vec<String>) -> (idx: Vec<usize>)
    requires
        distinct_texts(views(keys@)),
    ensures
        is_permutation(idx@, keys@.len()),
        sorted_by_index(views(keys@), idx@),
{
    let n = keys.len();
    let ghost kv = views(keys@);
    let mut used: Vec<bool> = Vec::new();
    let mut k: usize = 0;
    while k < n
        invariant
            n == keys@.len(),
            k <= n,
            used@.len() == k,
            forall|i: int| 0 <= i < k ==> !used@[i],
        decreases n - k,
    {
        used.push(false);
        k = k + 1;
    }
    let mut idx: Vec<usize> = Vec::new();
    let mut round: usize = 0;
    while round < n
        invariant
            n == keys@.len(),
            kv == views(keys@),
            distinct_texts(kv),
            used@.len() == n,
            idx@.len() == round,
            round <= n,
            forall|i: int| 0 <= i < idx@.len() ==> idx@[i] < n && used@[idx@[i] as int],
            forall|i: int, j: int|
                0 <= i < idx@.len() && 0 <= j < idx@.len() && i != j ==> idx@[i] != idx@[j],
            forall|p: int|
                0 <= p < n && used@[p] ==> exists|i: int| 0 <= i < idx@.len() && idx@[i] == p,
            sorted_by_index(kv, idx@),
            forall|i: int, p: int|
                0 <= i < idx@.len() && 0 <= p < n && !used@[p] ==> text_lt(
                    kv[idx@[i] as int],
                    kv[p],
                ),
        decreases n - round,
    {
        let mut best: usize = 0;
        let mut found = false;
        let mut p: usize = 0;
        while p < n
            invariant
                n == keys@.len(),
                kv == views(keys@),
                used@.len() == n,
                p <= n,
                found ==> best < p && !used@[best as int],
                found ==> forall|q: int|
                    0 <= q < p && !used@[q] && q != best ==> text_lt(kv[best as int], kv[q]),
                !found ==> forall|q: int| 0 <= q < p ==> used@[q],
                distinct_texts(kv),
            decreases n - p,
        {
            if !used[p] {
                if !found {
                    best = p;
                    found = true;
                } else if text_less(keys[p].as_str(), keys[best].as_str()) {
                    proof {
                        assert forall|q: int|
                            0 <= q < p && !used@[q] && q != p implies text_lt(kv[p as int], kv[q]) by {
                            if q != best {
                                lemma_text_lt_transitive(kv[p as int], kv[best as int], kv[q]);
                            }
                        }
                    }
                    best = p;
                } else {
                    proof {
                        assert(kv[p as int] != kv[best as int]);
                        lemma_text_lt_total(kv[p as int], kv[best as int]);
                    }
                }
            }
            p = p + 1;
        }
        proof {
            if !found {
                assert(forall|q: int| 0 <= q < n ==> used@[q]);
                lemma_all_used_means_full(idx@, used@, n as nat);
            }
        }
        let ghost old_used = used@;
        let ghost old_idx = idx@;
        used.set(best, true);
        idx.push(best);
        proof {
            assert forall|i: int, j: int|
                0 <= i < j < idx@.len() implies text_lt(kv[idx@[i] as int], kv[idx@[j] as int]) by {
                if j == idx@.len() - 1 {
                    assert(idx@[j] == best);
                    assert(old_idx[i] == idx@[i]);
                } else {
                    assert(old_idx[i] == idx@[i]);
                    assert(old_idx[j] == idx@[j]);
                }
            }
            assert forall|i: int, q: int|
                0 <= i < idx@.len() && 0 <= q < n && !used@[q] implies text_lt(
                    kv[idx@[i] as int],
                    kv[q],
                ) by {
                assert(q != best);
                assert(!old_used[q]);
                if i == idx@.len() - 1 {
                    assert(idx@[i] == best);
                } else {
                    assert(old_idx[i] == idx@[i]);
                }
            }
            assert forall|q: int| 0 <= q < n && used@[q] implies exists|i: int|
                0 <= i < idx@.len() && idx@[i] == q by {
                if q == best {
                    assert(idx@[idx@.len() - 1] == q);
                } else {
                    assert(old_used[q]);
                    let i0 = choose|i: int| 0 <= i < old_idx.len() && old_idx[i] == q;
                    assert(idx@[i0] == q);
                }
            }
            assert forall|i: int, j: int|
                0 <= i < idx@.len() && 0 <= j < idx@.len() && i != j implies idx@[i] != idx@[j] by {
                if i == idx@.len() - 1 {
                    assert(used@[idx@[j] as int]);
                    assert(old_used[old_idx[j] as int]);
                } else if j == idx@.len() - 1 {
                    assert(old_used[old_idx[i] as int]);
                }
            }
        }
        round = round + 1;
    }
    proof {
        lemma_perm_covers(idx@, n as nat);
    }
    idx
}

proof fn lemma_range_set_len(n: nat)
    requires
        n <= usize::MAX,
    ensures
        Set::new(|p: usize| p < n).finite(),
        Set::new(|p: usize| p < n).len() == n,
    decreases n,
{
    if n == 0 {
        assert(Set::new(|p: usize| p < n) =~= Set::<usize>::empty());
    } else {
        lemma_range_set_len((n - 1) as nat);
        let smaller = Set::new(|p: usize| p < (n - 1) as nat);
        assert(Set::new(|p: usize| p < n) =~= smaller.insert((n - 1) as usize));
    }
}

pub(crate) proof fn lemma_all_used_means_full(idx: Seq<usize>, used: Seq<bool>, n: nat)
    requires
        n <= usize::MAX,
        used.len() == n,
        forall|i: int, j: int| 0 <= i < idx.len() && 0 <= j < idx.len() && i != j ==> idx[i] != idx[j],
        forall|i: int| 0 <= i < idx.len() ==> idx[i] < n,
        forall|p: int| 0 <= p < n && used[p] ==> exists|i: int| 0 <= i < idx.len() && idx[i] == p,
        forall|q: int| 0 <= q < n ==> used[q],
    ensures
        idx.len() >= n,
{
    let full = Set::new(|p: usize| p < n);
    lemma_range_set_len(n);
    assert(full.subset_of(idx.to_set())) by {
        assert forall|p: usize| full.contains(p) implies idx.to_set().contains(p) by {
            assert(used[p as int]);
            let i = choose|i: int| 0 <= i < idx.len() && idx[i] == p;
            assert(idx.contains(p));
        }
    }
    idx.unique_seq_to_set();
    vstd::set_lib::lemma_len_subset(full, idx.to_set());
}

/// The texts strictly increase.
pub open spec fn strictly_sorted(s: Seq<Seq<char>>) -> bool {
    forall|i: int, j: int| 0 <= i < j < s.len() ==> text_lt(s[i], s[j])
}

/// The distinct texts of `v`, sorted.
pub fn sorted_texts(v: &Vec<String>) -> (r: Vec<String>)
    requires
        distinct_texts(views(v@)),
    ensures
        r@.len() == v@.len(),
        strictly_sorted(views(r@)),
        forall|x: Seq<char>| views(r@).contains(x) <==> views(v@).contains(x),
{
    let perm = sorting_permutation(v);
    let ghost vv = views(v@);
    let mut r: Vec<String> = Vec::new();
    let mut t: usize = 0;
    while t < perm.len()
        invariant
            vv == views(v@),
            is_permutation(perm@, v@.len()),
            t <= perm@.len(),
            r@.len() == t,
            forall|q: int| 0 <= q < t ==> (#[trigger] views(r@)[q]) == vv[perm@[q] as int],
        decreases perm@.len() - t,
    {
        let ghost before = r@;
        r.push(v[perm[t]].clone());
        proof {
            assert(views(r@) =~= views(before).push(v@[perm@[t as int] as int]@));
        }
        t = t + 1;
    }
    proof {
        let rv = views(r@);
        assert forall|i: int, j: int| 0 <= i < j < rv.len() implies text_lt(rv[i], rv[j]) by {
            assert(rv[i] == vv[perm@[i] as int]);
            assert(rv[j] == vv[perm@[j] as int]);
        }
        assert forall|x: Seq<char>| rv.contains(x) <==> vv.contains(x) by {
            if rv.contains(x) {
                let q = choose|q: int| 0 <= q < rv.len() && rv[q] == x;
                assert(vv[perm@[q] as int] == x);
            }
            if vv.contains(x) {
                let p = choose|p: int| 0 <= p < vv.len() && vv[p] == x;
                assert(occurs(perm@, p));
                let q = choose|q: int| 0 <= q < perm@.len() && perm@[q] == p;
                assert(rv[q] == x);
            }
        }
    }
    r
}

} // verus!
