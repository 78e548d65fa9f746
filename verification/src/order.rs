//! Ordering byte strings: the order in which the mods of a directory are
//! listed.

use vstd::prelude::*;

verus! {

/// Whether the bytes `a` come before the bytes `b`, or equal them, in
/// lexicographic order.
pub open spec fn bytes_le(a: Seq<u8>, b: Seq<u8>) -> bool
    decreases a.len(),
{
    if a.len() == 0 {
        true
    } else if b.len() == 0 {
        false
    } else if a[0] != b[0] {
        a[0] < b[0]
    } else {
        bytes_le(a.drop_first(), b.drop_first())
    }
}

/// Lemma: the lexicographic order is reflexive.
pub proof fn lemma_bytes_le_reflexive(a: Seq<u8>)
    ensures
        bytes_le(a, a),
    decreases a.len(),
{
    if a.len() > 0 {
        lemma_bytes_le_reflexive(a.drop_first());
    }
}

/// Lemma: of two byte strings, one comes before or equals the other.
pub proof fn lemma_bytes_le_total(a: Seq<u8>, b: Seq<u8>)
    ensures
        bytes_le(a, b) || bytes_le(b, a),
    decreases a.len(),
{
    if a.len() > 0 && b.len() > 0 && a[0] == b[0] {
        lemma_bytes_le_total(a.drop_first(), b.drop_first());
    }
}

/// Lemma: the lexicographic order is transitive.
pub proof fn lemma_bytes_le_transitive(a: Seq<u8>, b: Seq<u8>, c: Seq<u8>)
    requires
        bytes_le(a, b),
        bytes_le(b, c),
    ensures
        bytes_le(a, c),
    decreases a.len(),
{
    if a.len() > 0 && b.len() > 0 && c.len() > 0 && a[0] == b[0] && b[0] == c[0] {
        lemma_bytes_le_transitive(a.drop_first(), b.drop_first(), c.drop_first());
    }
}

/// Lemma: byte strings that come before one another are equal.
pub proof fn lemma_bytes_le_antisymmetric(a: Seq<u8>, b: Seq<u8>)
    requires
        bytes_le(a, b),
        bytes_le(b, a),
    ensures
        a == b,
    decreases a.len(),
{
    if a.len() > 0 {
        lemma_bytes_le_antisymmetric(a.drop_first(), b.drop_first());
        assert(a =~= seq![a[0]] + a.drop_first());
        assert(b =~= seq![b[0]] + b.drop_first());
    } else {
        assert(b.len() == 0);
        assert(a =~= b);
    }
}

/// Whether `a` comes before `b`, or equals it, in lexicographic order.
pub fn bytes_le_exec(a: &Vec<u8>, b: &Vec<u8>) -> (r: bool)
    ensures
        r == bytes_le(a@, b@),
{
    let mut i: usize = 0;
    assert(a@.skip(0) =~= a@);
    assert(b@.skip(0) =~= b@);
    while i < a.len() && i < b.len()
        invariant
            i <= a@.len(),
            i <= b@.len(),
            bytes_le(a@, b@) == bytes_le(a@.skip(i as int), b@.skip(i as int)),
        decreases a@.len() - i,
    {
        if a[i] != b[i] {
            return a[i] < b[i];
        }
        assert(a@.skip(i as int).drop_first() =~= a@.skip(i + 1));
        assert(b@.skip(i as int).drop_first() =~= b@.skip(i + 1));
        i = i + 1;
    }
    i == a.len()
}

/// The byte strings seen as sequences.
pub open spec fn keys_view(keys: Seq<Vec<u8>>) -> Seq<Seq<u8>> {
    keys.map_values(|k: Vec<u8>| k@)
}

/// Whether `order` lists the indices of `keys`, each once, so that their
/// keys come in lexicographic order, equal keys in the order of their
/// indices.
pub open spec fn sorts_keys(keys: Seq<Seq<u8>>, order: Seq<usize>) -> bool {
    &&& order.len() == keys.len()
    &&& forall|i: int| 0 <= i < order.len() ==> #[trigger] order[i] < keys.len()
    &&& forall|i: int, j: int| 0 <= i < j < order.len() ==> #[trigger] order[i] != #[trigger] order[j]
    &&& forall|i: int, j: int|
        0 <= i < j < order.len() ==> bytes_le(keys[#[trigger] order[i] as int], keys[#[trigger] order[j] as int])
    &&& forall|i: int, j: int|
        0 <= i < j < order.len() && keys[#[trigger] order[i] as int] == keys[#[trigger] order[j] as int]
            ==> order[i] < order[j]
}

/// The order in which to list the byte strings `keys`: their indices, sorted
/// by key, a stable sort.
pub fn sorted_order(keys: &Vec<Vec<u8>>) -> (order: Vec<usize>)
    ensures
        sorts_keys(keys_view(keys@), order@),
{
    let ghost ks = keys_view(keys@);
    let mut order: Vec<usize> = Vec::new();
    let mut k: usize = 0;
    while k < keys.len()
        invariant
            k <= keys@.len(),
            ks == keys_view(keys@),
            sorts_keys(ks.take(k as int), order@),
        decreases keys@.len() - k,
    {
        let mut p: usize = order.len();
        while p > 0 && !bytes_le_exec(&keys[order[p - 1]], &keys[k])
            invariant
                k < keys@.len(),
                ks == keys_view(keys@),
                p <= order@.len(),
                order@.len() == k,
                forall|i: int| 0 <= i < order@.len() ==> #[trigger] order@[i] < k,
                forall|q: int| p <= q < order@.len() ==> !bytes_le(#[trigger] ks[order@[q] as int], ks[k as int]),
            decreases p,
        {
            p = p - 1;
        }
        let ghost old_order = order@;
        proof {
            let kt = ks.take(k as int);
            assert forall|i: int| 0 <= i < old_order.len() implies #[trigger] kt[old_order[i] as int]
                == ks[old_order[i] as int] by {}
            // Everything before `p` comes before the new key.
            assert forall|i: int| 0 <= i < p implies bytes_le(#[trigger] ks[old_order[i] as int], ks[k as int]) by {
                if i < p - 1 {
                    assert(kt[old_order[i] as int] == ks[old_order[i] as int]);
                    assert(kt[old_order[p - 1] as int] == ks[old_order[p - 1] as int]);
                    lemma_bytes_le_transitive(
                        ks[old_order[i] as int],
                        ks[old_order[p - 1] as int],
                        ks[k as int],
                    );
                }
            }
            // Everything from `p` on comes after it, and differs from it.
            assert forall|i: int| p <= i < old_order.len() implies bytes_le(ks[k as int], #[trigger] ks[old_order[i] as int])
                && ks[old_order[i] as int] != ks[k as int] by {
                lemma_bytes_le_total(ks[k as int], ks[old_order[i] as int]);
                lemma_bytes_le_reflexive(ks[k as int]);
            }
        }
        order.insert(p, k);
        proof {
            let kt1 = ks.take(k + 1);
            let kt = ks.take(k as int);
            let o = order@;
            assert(o == old_order.insert(p as int, k));
            assert forall|i: int| 0 <= i < o.len() implies #[trigger] kt1[o[i] as int] == ks[o[i] as int] by {
                if i < p {
                    assert(o[i] == old_order[i]);
                } else if i > p {
                    assert(o[i] == old_order[i - 1]);
                }
            }
            assert forall|i: int| 0 <= i < o.len() implies #[trigger] o[i] < k + 1 by {
                if i < p {
                    assert(o[i] == old_order[i]);
                } else if i > p {
                    assert(o[i] == old_order[i - 1]);
                }
            }
            assert forall|i: int, j: int| 0 <= i < j < o.len() implies #[trigger] o[i] != #[trigger] o[j] by {
                if i < p && j < p {
                    assert(o[i] == old_order[i] && o[j] == old_order[j]);
                } else if i < p && j == p {
                    assert(o[i] == old_order[i]);
                } else if i < p {
                    assert(o[i] == old_order[i] && o[j] == old_order[j - 1]);
                } else if i == p {
                    assert(o[j] == old_order[j - 1]);
                } else {
                    assert(o[i] == old_order[i - 1] && o[j] == old_order[j - 1]);
                }
            }
            assert forall|i: int, j: int| 0 <= i < j < o.len() implies bytes_le(
                kt1[#[trigger] o[i] as int],
                kt1[#[trigger] o[j] as int],
            ) && (kt1[o[i] as int] == kt1[o[j] as int] ==> o[i] < o[j]) by {
                assert(kt1[o[i] as int] == ks[o[i] as int]);
                assert(kt1[o[j] as int] == ks[o[j] as int]);
                if i < p && j < p {
                    assert(o[i] == old_order[i] && o[j] == old_order[j]);
                    assert(kt[old_order[i] as int] == ks[old_order[i] as int]);
                    assert(kt[old_order[j] as int] == ks[old_order[j] as int]);
                } else if i < p && j == p {
                    assert(o[i] == old_order[i]);
                } else if i < p {
                    assert(o[i] == old_order[i] && o[j] == old_order[j - 1]);
                    lemma_bytes_le_transitive(ks[old_order[i] as int], ks[k as int], ks[old_order[j - 1] as int]);
                    if ks[old_order[i] as int] == ks[old_order[j - 1] as int] {
                        lemma_bytes_le_antisymmetric(ks[k as int], ks[old_order[j - 1] as int]);
                    }
                } else if i == p {
                    assert(o[j] == old_order[j - 1]);
                } else {
                    assert(o[i] == old_order[i - 1] && o[j] == old_order[j - 1]);
                    assert(kt[old_order[i - 1] as int] == ks[old_order[i - 1] as int]);
                    assert(kt[old_order[j - 1] as int] == ks[old_order[j - 1] as int]);
                }
            }
        }
        k = k + 1;
    }
    assert(ks.take(keys@.len() as int) =~= ks);
    order
}

} // verus!
