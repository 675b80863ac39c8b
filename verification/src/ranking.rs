//! Stable ordering of positions by integer keys compared lexicographically,
//! and the position of the last greatest key.
use vstd::prelude::*;
use crate::order::{is_permutation, lemma_text_lt_asymmetric, lemma_text_lt_irreflexive, lemma_text_lt_total, lemma_text_lt_transitive, occurs, text_less, text_lt};

verus! {

/// A key of three integers, compared lexicographically.
pub type Key3 = (i64, i64, i64);

/// `a` sorts strictly before `b`.
pub open spec fn key_lt(a: Key3, b: Key3) -> bool {
    a.0 < b.0 || (a.0 == b.0 && (a.1 < b.1 || (a.1 == b.1 && a.2 < b.2)))
}

/// Position `a` comes before position `b`: a smaller key, or an equal key and
/// an earlier position.
pub open spec fn comes_before(keys: Seq<Key3>, a: int, b: int) -> bool {
    key_lt(keys[a], keys[b]) || (keys[a] == keys[b] && a < b)
}

/// `idx` lists the positions by increasing key, equal keys in their original
/// order.
pub open spec fn stably_sorted(keys: Seq<Key3>, idx: Seq<usize>) -> bool {
    forall|i: int, j: int| 0 <= i < j < idx.len() ==> comes_before(keys, idx[i] as int, idx[j] as int)
}

proof fn lemma_comes_before_transitive(keys: Seq<Key3>, a: int, b: int, c: int)
    requires
        comes_before(keys, a, b),
        comes_before(keys, b, c),
    ensures
        comes_before(keys, a, c),
{
}

/// The positions of `keys` in increasing order of key, equal keys keeping
/// their order.
pub fn stable_order(keys: &Vec<Key3>) -> (idx: Vec<usize>)
    ensures
        is_permutation(idx@, keys@.len()),
        stably_sorted(keys@, idx@),
{
    let n = keys.len();
    let ghost kv = keys@;
    let mut used: Vec<bool> = Vec::new();
    let mut k: usize = 0;
    while k < n
        invariant
            n == keys@.len(),
            k <= n,
            used@.len() == k,
            forall|i: int| 0 <= i < k ==> !used@[i],
        decreases n - k,
    {
        used.push(false);
        k = k + 1;
    }
    let mut idx: Vec<usize> = Vec::new();
    let mut round: usize = 0;
    while round < n
        invariant
            n == keys@.len(),
            kv == keys@,
            used@.len() == n,
            idx@.len() == round,
            round <= n,
            forall|i: int| 0 <= i < idx@.len() ==> idx@[i] < n && used@[idx@[i] as int],
            forall|i: int, j: int|
                0 <= i < idx@.len() && 0 <= j < idx@.len() && i != j ==> idx@[i] != idx@[j],
            forall|p: int|
                0 <= p < n && used@[p] ==> exists|i: int| 0 <= i < idx@.len() && idx@[i] == p,
            stably_sorted(kv, idx@),
            forall|i: int, p: int|
                0 <= i < idx@.len() && 0 <= p < n && !used@[p] ==> comes_before(kv, idx@[i] as int, p),
        decreases n - round,
    {
        let mut best: usize = 0;
        let mut found = false;
        let mut p: usize = 0;
        while p < n
            invariant
                n == keys@.len(),
                kv == keys@,
                used@.len() == n,
                p <= n,
                found ==> best < p && !used@[best as int],
                found ==> forall|q: int|
                    0 <= q < p && !used@[q] && q != best ==> comes_before(kv, best as int, q),
                !found ==> forall|q: int| 0 <= q < p ==> used@[q],
            decreases n - p,
        {
            if !used[p] {
                if !found {
                    best = p;
                    found = true;
                } else {
                    let a = keys[p];
                    let b = keys[best];
                    let less = a.0 < b.0 || (a.0 == b.0 && (a.1 < b.1 || (a.1 == b.1 && a.2 < b.2)));
                    if less {
                        proof {
                            assert forall|q: int|
                                0 <= q < p + 1 && !used@[q] && q != p implies comes_before(kv, p as int, q) by {
                                if q != best {
                                    lemma_comes_before_transitive(kv, p as int, best as int, q);
                                }
                            }
                        }
                        best = p;
                    }
                }
            }
            p = p + 1;
        }
        proof {
            if !found {
                crate::order::lemma_all_used_means_full(idx@, used@, n as nat);
            }
        }
        let ghost old_used = used@;
        let ghost old_idx = idx@;
        used.set(best, true);
        idx.push(best);
        proof {
            assert forall|i: int, j: int|
                0 <= i < j < idx@.len() implies comes_before(kv, idx@[i] as int, idx@[j] as int) by {
                if j == idx@.len() - 1 {
                    assert(idx@[j] == best);
                    assert(old_idx[i] == idx@[i]);
                } else {
                    assert(old_idx[i] == idx@[i]);
                    assert(old_idx[j] == idx@[j]);
                }
            }
            assert forall|i: int, q: int|
                0 <= i < idx@.len() && 0 <= q < n && !used@[q] implies comes_before(kv, idx@[i] as int, q) by {
                assert(q != best);
                assert(!old_used[q]);
                if i == idx@.len() - 1 {
                    assert(idx@[i] == best);
                } else {
                    assert(old_idx[i] == idx@[i]);
                }
            }
            assert forall|q: int| 0 <= q < n && used@[q] implies exists|i: int|
                0 <= i < idx@.len() && idx@[i] == q by {
                if q == best {
                    assert(idx@[idx@.len() - 1] == q);
                } else {
                    assert(old_used[q]);
                    let i0 = choose|i: int| 0 <= i < old_idx.len() && old_idx[i] == q;
                    assert(idx@[i0] == q);
                }
            }
            assert forall|i: int, j: int|
                0 <= i < idx@.len() && 0 <= j < idx@.len() && i != j implies idx@[i] != idx@[j] by {
                if i == idx@.len() - 1 {
                    assert(used@[idx@[j] as int]);
                    assert(old_used[old_idx[j] as int]);
                } else if j == idx@.len() - 1 {
                    assert(old_used[old_idx[i] as int]);
                }
            }
        }
        round = round + 1;
    }
    proof {
        crate::order::lemma_perm_covers(idx@, n as nat);
    }
    idx
}

/// Position `f` holds a greatest key, and every later position a strictly
/// smaller one.
pub open spec fn is_last_max(keys: Seq<Key3>, f: int) -> bool {
    &&& 0 <= f < keys.len()
    &&& forall|j: int| 0 <= j < keys.len() ==> !key_lt(keys[f], #[trigger] keys[j])
    &&& forall|j: int| f < j < keys.len() ==> key_lt(#[trigger] keys[j], keys[f])
}

/// The last position holding a greatest key.
pub fn last_max(keys: &Vec<Key3>) -> (f: usize)
    requires
        keys@.len() > 0,
    ensures
        is_last_max(keys@, f as int),
{
    let mut f: usize = 0;
    let mut i: usize = 1;
    while i < keys.len()
        invariant
            keys@.len() > 0,
            1 <= i <= keys@.len(),
            f < i,
            forall|j: int| 0 <= j < i ==> !key_lt(keys@[f as int], #[trigger] keys@[j]),
            forall|j: int| f < j < i ==> key_lt(#[trigger] keys@[j], keys@[f as int]),
        decreases keys@.len() - i,
    {
        let a = keys[i];
        let b = keys[f];
        let smaller = a.0 < b.0 || (a.0 == b.0 && (a.1 < b.1 || (a.1 == b.1 && a.2 < b.2)));
        if !smaller {
            f = i;
        }
        i = i + 1;
    }
    f
}

/// Two orderings of the same positions, both stable and sorted by the same
/// keys, are the same ordering.
pub proof fn lemma_stably_sorted_unique(keys: Seq<Key3>, a: Seq<usize>, b: Seq<usize>)
    requires
        is_permutation(a, keys.len()),
        is_permutation(b, keys.len()),
        stably_sorted(keys, a),
        stably_sorted(keys, b),
    ensures
        a == b,
{
    assert forall|i: int| 0 <= i < a.len() implies a[i] == b[i] by {
        lemma_same_at(keys, a, b, i);
    }
    assert(a =~= b);
}

proof fn lemma_same_at(keys: Seq<Key3>, a: Seq<usize>, b: Seq<usize>, i: int)
    requires
        is_permutation(a, keys.len()),
        is_permutation(b, keys.len()),
        stably_sorted(keys, a),
        stably_sorted(keys, b),
        0 <= i < a.len(),
    ensures
        a[i] == b[i],
    decreases i,
{
    if a[i] != b[i] {
        let x = a[i];
        let y = b[i];
        assert(occurs(b, x as int));
        let j = choose|j: int| 0 <= j < b.len() && b[j] == x;
        assert(occurs(a, y as int));
        let k = choose|k: int| 0 <= k < a.len() && a[k] == y;
        if j < i {
            lemma_same_at(keys, a, b, j);
        }
        if k < i {
            lemma_same_at(keys, a, b, k);
        }
        assert(j > i);
        assert(k > i);
        assert(comes_before(keys, y as int, x as int));
        assert(comes_before(keys, x as int, y as int));
    }
}

// ---------------------------------------------------------------------------
// Keys of two integers and a text
// ---------------------------------------------------------------------------

/// A key of two integers and a text, compared lexicographically (the text by
/// character order).
pub type NamedKey = (i64, i64, Seq<char>);

pub open spec fn named_lt(a: NamedKey, b: NamedKey) -> bool {
    a.0 < b.0 || (a.0 == b.0 && (a.1 < b.1 || (a.1 == b.1 && text_lt(a.2, b.2))))
}

/// Position `a` comes before position `b`: a smaller key, or an equal key and
/// an earlier position.
pub open spec fn named_before(keys: Seq<NamedKey>, a: int, b: int) -> bool {
    named_lt(keys[a], keys[b]) || (keys[a] == keys[b] && a < b)
}

/// `idx` lists the positions by increasing key, equal keys in their order.
pub open spec fn named_sorted(keys: Seq<NamedKey>, idx: Seq<usize>) -> bool {
    forall|i: int, j: int| 0 <= i < j < idx.len() ==> named_before(keys, idx[i] as int, idx[j] as int)
}

pub open spec fn named_views(k: Seq<(i64, i64, String)>) -> Seq<NamedKey> {
    k.map_values(|e: (i64, i64, String)| (e.0, e.1, e.2@))
}

proof fn lemma_named_transitive(keys: Seq<NamedKey>, a: int, b: int, c: int)
    requires
        named_before(keys, a, b),
        named_before(keys, b, c),
    ensures
        named_before(keys, a, c),
{
    let (x, y, z) = (keys[a], keys[b], keys[c]);
    if x.0 == y.0 && y.0 == z.0 && x.1 == y.1 && y.1 == z.1 && text_lt(x.2, y.2) && text_lt(y.2, z.2) {
        lemma_text_lt_transitive(x.2, y.2, z.2);
    }
}

proof fn lemma_named_total(keys: Seq<NamedKey>, a: int, b: int)
    requires
        a != b,
    ensures
        named_before(keys, a, b) || named_before(keys, b, a),
{
    let (x, y) = (keys[a], keys[b]);
    if x.0 == y.0 && x.1 == y.1 && x.2 != y.2 {
        lemma_text_lt_total(x.2, y.2);
    }
    if x.0 == y.0 && x.1 == y.1 && x.2 == y.2 {
        assert(x == y);
    }
}

fn named_less(a: &(i64, i64, String), b: &(i64, i64, String)) -> (r: bool)
    ensures
        r == named_lt((a.0, a.1, a.2@), (b.0, b.1, b.2@)),
{
    a.0 < b.0 || (a.0 == b.0 && (a.1 < b.1 || (a.1 == b.1 && text_less(a.2.as_str(), b.2.as_str()))))
}

/// The positions of `keys` in increasing order, equal keys keeping their
/// order.
pub fn named_order(keys: &Vec<(i64, i64, String)>) -> (idx: Vec<usize>)
    ensures
        is_permutation(idx@, keys@.len()),
        named_sorted(named_views(keys@), idx@),
{
    let n = keys.len();
    let ghost kv = named_views(keys@);
    let mut used: Vec<bool> = Vec::new();
    let mut k: usize = 0;
    while k < n
        invariant
            n == keys@.len(),
            k <= n,
            used@.len() == k,
            forall|i: int| 0 <= i < k ==> !used@[i],
        decreases n - k,
    {
        used.push(false);
        k = k + 1;
    }
    let mut idx: Vec<usize> = Vec::new();
    let mut round: usize = 0;
    while round < n
        invariant
            n == keys@.len(),
            kv == named_views(keys@),
            used@.len() == n,
            idx@.len() == round,
            round <= n,
            forall|i: int| 0 <= i < idx@.len() ==> idx@[i] < n && used@[idx@[i] as int],
            forall|i: int, j: int|
                0 <= i < idx@.len() && 0 <= j < idx@.len() && i != j ==> idx@[i] != idx@[j],
            forall|p: int|
                0 <= p < n && used@[p] ==> exists|i: int| 0 <= i < idx@.len() && idx@[i] == p,
            named_sorted(kv, idx@),
            forall|i: int, p: int|
                0 <= i < idx@.len() && 0 <= p < n && !used@[p] ==> named_before(kv, idx@[i] as int, p),
        decreases n - round,
    {
        let mut best: usize = 0;
        let mut found = false;
        let mut p: usize = 0;
        while p < n
            invariant
                n == keys@.len(),
                kv == named_views(keys@),
                used@.len() == n,
                p <= n,
                found ==> best < p && !used@[best as int],
                found ==> forall|q: int|
                    0 <= q < p && !used@[q] && q != best ==> named_before(kv, best as int, q),
                !found ==> forall|q: int| 0 <= q < p ==> used@[q],
            decreases n - p,
        {
            if !used[p] {
                if !found {
                    best = p;
                    found = true;
                } else {
                    assert(kv[p as int] == (keys@[p as int].0, keys@[p as int].1, keys@[p as int].2@));
                    assert(kv[best as int] == (keys@[best as int].0, keys@[best as int].1, keys@[best as int].2@));
                    if named_less(&keys[p], &keys[best]) {
                        proof {
                            assert forall|q: int|
                                0 <= q < p + 1 && !used@[q] && q != p implies named_before(kv, p as int, q) by {
                                if q != best {
                                    lemma_named_transitive(kv, p as int, best as int, q);
                                }
                            }
                        }
                        best = p;
                    } else {
                        proof {
                            lemma_named_total(kv, p as int, best as int);
                        }
                    }
                }
            }
            p = p + 1;
        }
        proof {
            if !found {
                crate::order::lemma_all_used_means_full(idx@, used@, n as nat);
            }
        }
        let ghost old_used = used@;
        let ghost old_idx = idx@;
        used.set(best, true);
        idx.push(best);
        proof {
            assert forall|i: int, j: int|
                0 <= i < j < idx@.len() implies named_before(kv, idx@[i] as int, idx@[j] as int) by {
                if j == idx@.len() - 1 {
                    assert(idx@[j] == best);
                    assert(old_idx[i] == idx@[i]);
                } else {
                    assert(old_idx[i] == idx@[i]);
                    assert(old_idx[j] == idx@[j]);
                }
            }
            assert forall|i: int, q: int|
                0 <= i < idx@.len() && 0 <= q < n && !used@[q] implies named_before(kv, idx@[i] as int, q) by {
                assert(q != best);
                assert(!old_used[q]);
                if i == idx@.len() - 1 {
                    assert(idx@[i] == best);
                } else {
                    assert(old_idx[i] == idx@[i]);
                }
            }
            assert forall|q: int| 0 <= q < n && used@[q] implies exists|i: int|
                0 <= i < idx@.len() && idx@[i] == q by {
                if q == best {
                    assert(idx@[idx@.len() - 1] == q);
                } else {
                    assert(old_used[q]);
                    let i0 = choose|i: int| 0 <= i < old_idx.len() && old_idx[i] == q;
                    assert(idx@[i0] == q);
                }
            }
            assert forall|i: int, j: int|
                0 <= i < idx@.len() && 0 <= j < idx@.len() && i != j implies idx@[i] != idx@[j] by {
                if i == idx@.len() - 1 {
                    assert(used@[idx@[j] as int]);
                    assert(old_used[old_idx[j] as int]);
                } else if j == idx@.len() - 1 {
                    assert(old_used[old_idx[i] as int]);
                }
            }
        }
        round = round + 1;
    }
    proof {
        crate::order::lemma_perm_covers(idx@, n as nat);
    }
    idx
}

} // verus!
