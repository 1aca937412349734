//! Lexicographic order on character sequences, and a stable sort of positions by it.
use vstd::prelude::*;

verus! {

/// `a` comes no later than `b` when compared character by character, by code point.
pub open spec fn lex_le(a: Seq<char>, b: Seq<char>) -> bool
    decreases a.len(),
{
    if a.len() == 0 {
        true
    } else if b.len() == 0 {
        false
    } else if a[0] != b[0] {
        a[0] < b[0]
    } else {
        lex_le(a.drop_first(), b.drop_first())
    }
}

pub proof fn lemma_lex_total(a: Seq<char>, b: Seq<char>)
    ensures
        lex_le(a, b) || lex_le(b, a),
    decreases a.len(),
{
    if a.len() > 0 && b.len() > 0 && a[0] == b[0] {
        lemma_lex_total(a.drop_first(), b.drop_first());
    }
}

pub proof fn lemma_lex_trans(a: Seq<char>, b: Seq<char>, c: Seq<char>)
    requires
        lex_le(a, b),
        lex_le(b, c),
    ensures
        lex_le(a, c),
    decreases a.len(),
{
    if a.len() > 0 && b.len() > 0 && c.len() > 0 && a[0] == b[0] && b[0] == c[0] {
        lemma_lex_trans(a.drop_first(), b.drop_first(), c.drop_first());
    }
}

/// Whether `a` comes no later than `b`.
pub fn lex_le_exec(a: &Vec<char>, b: &Vec<char>) -> (r: bool)
    ensures
        r == lex_le(a@, b@),
{
    let mut i: usize = 0;
    assert(a@.subrange(0, a@.len() as int) == a@);
    assert(b@.subrange(0, b@.len() as int) == b@);
    while i < a.len() && i < b.len() && a[i] == b[i]
        invariant
            i <= a@.len(),
            i <= b@.len(),
            a@.subrange(0, i as int) == b@.subrange(0, i as int),
            lex_le(a@, b@) == lex_le(a@.subrange(i as int, a@.len() as int), b@.subrange(i as int, b@.len() as int)),
        decreases a@.len() - i,
    {
        proof {
            let sa = a@.subrange(i as int, a@.len() as int);
            let sb = b@.subrange(i as int, b@.len() as int);
            assert(sa.drop_first() == a@.subrange(i + 1, a@.len() as int));
            assert(sb.drop_first() == b@.subrange(i + 1, b@.len() as int));
            assert(a@.subrange(0, i + 1) == a@.subrange(0, i as int).push(a@[i as int]));
            assert(b@.subrange(0, i + 1) == b@.subrange(0, i as int).push(b@[i as int]));
        }
        i += 1;
    }
    if i == a.len() {
        true
    } else if i == b.len() {
        false
    } else {
        a[i] < b[i]
    }
}

/// Some entry of `order` is `t`.
pub open spec fn covers(order: Seq<usize>, t: int) -> bool {
    exists|p: int| 0 <= p < order.len() && order[p] as int == t
}

/// `order` lists each of `0..n` exactly once.
pub open spec fn is_permutation(order: Seq<usize>, n: nat) -> bool {
    &&& order.len() == n
    &&& forall|i: int| 0 <= i < order.len() ==> order[i] < n
    &&& forall|i: int, j: int| 0 <= i < j < order.len() ==> order[i] != order[j]
    &&& forall|t: int| 0 <= t < n ==> #[trigger] covers(order, t)
}

/// Taking `keys` in the positions `order` gives a nondecreasing sequence, and
/// positions with equal keys keep their relative order.
pub open spec fn sorts_stably(keys: Seq<Seq<char>>, order: Seq<usize>) -> bool {
    &&& forall|i: int, j: int| 0 <= i < j < order.len() ==> lex_le(keys[order[i] as int], keys[order[j] as int])
    &&& forall|i: int, j: int| 0 <= i < j < order.len() && keys[order[i] as int] == keys[order[j] as int]
            ==> order[i] < order[j]
}

/// The positions of `keys`, in the order that sorts the keys stably.
pub fn stable_order(keys: &Vec<Vec<char>>) -> (r: Vec<usize>)
    ensures
        is_permutation(r@, keys@.len()),
        sorts_stably(keys@.map_values(|k: Vec<char>| k@), r@),
{
    let ghost ks = keys@.map_values(|k: Vec<char>| k@);
    let mut r: Vec<usize> = Vec::new();
    let mut i: usize = 0;
    while i < keys.len()
        invariant
            ks == keys@.map_values(|k: Vec<char>| k@),
            i <= keys@.len(),
            r@.len() == i,
            forall|a: int| 0 <= a < r@.len() ==> r@[a] < i,
            forall|a: int, b: int| 0 <= a < b < r@.len() ==> r@[a] != r@[b],
            forall|t: int| 0 <= t < i ==> #[trigger] covers(r@, t),
            sorts_stably(ks, r@),
        decreases keys@.len() - i,
    {
        // Find the place after every key that is not greater than keys[i].
        let mut k: usize = r.len();
        while k > 0 && !lex_le_exec(&keys[r[k - 1]], &keys[i])
            invariant
                ks == keys@.map_values(|k: Vec<char>| k@),
                i < keys@.len(),
                r@.len() == i,
                k <= r@.len(),
                forall|a: int| 0 <= a < r@.len() ==> r@[a] < i,
                forall|a: int| k <= a < r@.len() ==> !lex_le(ks[r@[a] as int], ks[i as int]),
            decreases k,
        {
            k -= 1;
        }
        proof {
            assert forall|a: int| k <= a < r@.len() implies lex_le(ks[i as int], ks[r@[a] as int])
                && ks[i as int] != ks[r@[a] as int] by {
                lemma_lex_total(ks[i as int], ks[r@[a] as int]);
                if ks[i as int] == ks[r@[a] as int] {
                    lemma_lex_total(ks[i as int], ks[i as int]);
                }
            }
            if k > 0 {
                assert(lex_le(ks[r@[k - 1] as int], ks[i as int]));
                assert forall|a: int| 0 <= a < k implies lex_le(ks[r@[a] as int], ks[i as int]) by {
                    if a < k - 1 {
                        lemma_lex_trans(ks[r@[a] as int], ks[r@[k - 1] as int], ks[i as int]);
                    }
                }
            }
        }
        let ghost old_r = r@;
        r.insert(k, i);
        proof {
            assert(r@ == old_r.insert(k as int, i));
            assert forall|t: int| 0 <= t < i + 1 implies #[trigger] covers(r@, t) by {
                if t == i {
                    assert(r@[k as int] as int == t);
                } else {
                    assert(covers(old_r, t));
                    let p = choose|p: int| 0 <= p < old_r.len() && old_r[p] as int == t;
                    if p < k {
                        assert(r@[p] as int == t);
                    } else {
                        assert(r@[p + 1] as int == t);
                    }
                }
            }
            assert forall|a: int, b: int| 0 <= a < b < r@.len() implies lex_le(ks[r@[a] as int], ks[r@[b] as int]) by {
                if b < k {
                } else if b == k {
                } else if a < k {
                    lemma_lex_trans(ks[r@[a] as int], ks[i as int], ks[r@[b] as int]);
                } else if a == k {
                } else {
                }
            }
        }
        i += 1;
    }
    r
}

/// `r` holds the items of `src` stably sorted by `keys` (one key per item of `src`).
pub open spec fn sorted_arrangement<T>(r: Seq<T>, src: Seq<T>, keys: Seq<Seq<char>>) -> bool {
    exists|order: Seq<usize>|
        is_permutation(order, src.len()) && sorts_stably(keys, order)
            && r == order.map_values(|i: usize| src[i as int])
}

} // verus!
