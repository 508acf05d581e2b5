//! The selective-update computation over a desired-state bitfield and a
//! mask: which line indices must be rewritten, and to which value.

use vstd::prelude::*;

verus! {

/// Bit `i` of `field`, as 0 or 1.
pub open spec fn nth_bit(field: u8, i: u8) -> u8 {
    (field >> i) & 1u8
}

/// Whether bit `i` of `field` is set.
pub open spec fn bit_is_set(field: u8, i: u8) -> bool {
    field & (1u8 << i) != 0u8
}

/// The updates that `bit_iterator` yields for the first `n` line indices,
/// in ascending index order.
pub open spec fn spec_bit_updates_upto(state: u8, mask: u8, n: int) -> Seq<(usize, u8)>
    decreases n,
{
    if n <= 0 {
        Seq::empty()
    } else {
        let prev = spec_bit_updates_upto(state, mask, n - 1);
        if bit_is_set(mask, (n - 1) as u8) {
            prev.push((((n - 1) as usize), nth_bit(state, (n - 1) as u8)))
        } else {
            prev
        }
    }
}

/// The updates that `bit_iterator` yields over all four line indices.
pub open spec fn spec_bit_updates(state: u8, mask: u8) -> Seq<(usize, u8)> {
    spec_bit_updates_upto(state, mask, 4)
}

/// Computes the ordered list of `(line index, new value)` pairs that a
/// masked bitfield write must perform: one pair for every index whose mask
/// bit is set, carrying that index's bit of `nodes_state`; indices whose
/// mask bit is clear are absent, so the lines they name are left untouched.
pub fn bit_iterator(nodes_state: u8, nodes_mask: u8) -> (updates: Vec<(usize, u8)>)
    ensures
        updates@ == spec_bit_updates(nodes_state, nodes_mask),
{
    let mut updates: Vec<(usize, u8)> = Vec::new();
    let mut i: u8 = 0;
    while i < 4
        invariant
            i <= 4,
            updates@ == spec_bit_updates_upto(nodes_state, nodes_mask, i as int),
        decreases 4 - i,
    {
        if nodes_mask & (1u8 << i) != 0u8 {
            updates.push((i as usize, (nodes_state >> i) & 1u8));
        }
        i = i + 1;
    }
    updates
}

/// Every yielded pair names an index below `n`, an index whose mask bit is
/// set, and carries exactly that index's bit of `state`.
proof fn lemma_upto_entries(state: u8, mask: u8, n: int)
    requires
        0 <= n <= 4,
    ensures
        forall|k: int|
            0 <= k < spec_bit_updates_upto(state, mask, n).len() ==> (
            #[trigger] spec_bit_updates_upto(state, mask, n)[k]).0 < n && bit_is_set(
                mask,
                spec_bit_updates_upto(state, mask, n)[k].0 as u8,
            ) && spec_bit_updates_upto(state, mask, n)[k].1 == nth_bit(
                state,
                spec_bit_updates_upto(state, mask, n)[k].0 as u8,
            ),
    decreases n,
{
    if n > 0 {
        lemma_upto_entries(state, mask, n - 1);
        let prev = spec_bit_updates_upto(state, mask, n - 1);
        let cur = spec_bit_updates_upto(state, mask, n);
        if bit_is_set(mask, (n - 1) as u8) {
            let pushed = (((n - 1) as usize), nth_bit(state, (n - 1) as u8));
            assert(cur == prev.push(pushed));
            assert forall|k: int|
                0 <= k < cur.len() implies (#[trigger] cur[k]).0 < n && bit_is_set(
                mask,
                cur[k].0 as u8,
            ) && cur[k].1 == nth_bit(state, cur[k].0 as u8) by {
                if k < prev.len() {
                    assert(cur[k] == prev[k]);
                } else {
                    assert(cur[k] == pushed);
                }
            }
        } else {
            assert(cur == prev);
        }
    }
}

/// Every index below `n` whose mask bit is set is yielded, with its bit of
/// `state` as the value.
proof fn lemma_upto_complete(state: u8, mask: u8, n: int)
    requires
        0 <= n <= 4,
    ensures
        forall|i: u8|
            i < n && bit_is_set(mask, i) ==> #[trigger] spec_bit_updates_upto(
                state,
                mask,
                n,
            ).contains((i as usize, nth_bit(state, i))),
    decreases n,
{
    if n > 0 {
        lemma_upto_complete(state, mask, n - 1);
        assert forall|i: u8| i < n && bit_is_set(mask, i) implies #[trigger] spec_bit_updates_upto(
            state,
            mask,
            n,
        ).contains((i as usize, nth_bit(state, i))) by {
            let prev = spec_bit_updates_upto(state, mask, n - 1);
            let cur = spec_bit_updates_upto(state, mask, n);
            let entry = (i as usize, nth_bit(state, i));
            if i < n - 1 {
                assert(prev.contains(entry));
                let k = choose|k: int| 0 <= k < prev.len() && prev[k] == entry;
                assert(cur[k] == entry);
            } else {
                assert(cur[cur.len() - 1] == entry);
            }
        }
    }
}

/// The yielded indices are strictly ascending.
proof fn lemma_upto_ascending(state: u8, mask: u8, n: int)
    requires
        0 <= n <= 4,
    ensures
        forall|k1: int, k2: int|
            0 <= k1 < k2 < spec_bit_updates_upto(state, mask, n).len()
                ==> spec_bit_updates_upto(state, mask, n)[k1].0 < spec_bit_updates_upto(
                state,
                mask,
                n,
            )[k2].0,
    decreases n,
{
    if n > 0 {
        lemma_upto_ascending(state, mask, n - 1);
        lemma_upto_entries(state, mask, n - 1);
        let prev = spec_bit_updates_upto(state, mask, n - 1);
        let cur = spec_bit_updates_upto(state, mask, n);
        assert forall|k1: int, k2: int| 0 <= k1 < k2 < cur.len() implies cur[k1].0 < cur[k2].0 by {
            assert(cur[k1] == prev[k1]);
            if k2 < prev.len() {
                assert(cur[k2] == prev[k2]);
            }
        }
    }
}

/// The selective-update law: over all `(state, mask)` pairs, a line index
/// `i` appears among the computed updates if and only if bit `i` of `mask`
/// is set; when it appears, its new value is exactly bit `i` of `state`;
/// and the updates are listed in strictly ascending index order (so no line
/// is written twice).
pub proof fn lemma_bit_updates_selective(state: u8, mask: u8)
    ensures
        forall|k: int|
            0 <= k < spec_bit_updates(state, mask).len() ==> (
            #[trigger] spec_bit_updates(state, mask)[k]).0 < 4 && bit_is_set(
                mask,
                spec_bit_updates(state, mask)[k].0 as u8,
            ) && spec_bit_updates(state, mask)[k].1 == nth_bit(
                state,
                spec_bit_updates(state, mask)[k].0 as u8,
            ),
        forall|i: u8|
            i < 4 && bit_is_set(mask, i) ==> #[trigger] spec_bit_updates(state, mask).contains(
                (i as usize, nth_bit(state, i)),
            ),
        forall|k1: int, k2: int|
            0 <= k1 < k2 < spec_bit_updates(state, mask).len() ==> spec_bit_updates(
                state,
                mask,
            )[k1].0 < spec_bit_updates(state, mask)[k2].0,
{
    lemma_upto_entries(state, mask, 4);
    lemma_upto_complete(state, mask, 4);
    lemma_upto_ascending(state, mask, 4);
}

} // verus!
