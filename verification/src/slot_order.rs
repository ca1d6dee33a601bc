//! Reordering the slots of a channel's running chain to follow a new order
//! of effect ids.
use vstd::prelude::*;

verus! {

/// The position of the first slot with this id.
pub open spec fn slot_pos<T>(s: Seq<(u128, T)>, id: u128, k: nat) -> Option<nat>
    decreases s.len() - k,
{
    if k >= s.len() {
        None
    } else if s[k as int].0 == id {
        Some(k)
    } else {
        slot_pos(s, id, k + 1)
    }
}

pub proof fn lemma_slot_pos<T>(s: Seq<(u128, T)>, id: u128, k: nat)
    ensures
        match slot_pos(s, id, k) {
            Some(p) => k <= p < s.len() && s[p as int].0 == id,
            None => forall|j: int| k <= j < s.len() ==> s[j].0 != id,
        },
    decreases s.len() - k,
{
    if k < s.len() && s[k as int].0 != id {
        lemma_slot_pos(s, id, k + 1);
    }
}

/// The placed slots and the slots still to place after following the first
/// `order.len()` ids: each id moves the first remaining slot with that id
/// to the end of the placed ones; an id without a slot is skipped.
pub open spec fn placed<T>(taken: Seq<(u128, T)>, order: Seq<u128>) -> (Seq<(u128, T)>, Seq<(u128, T)>)
    decreases order.len(),
{
    if order.len() == 0 {
        (Seq::empty(), taken)
    } else {
        let (chain, rest) = placed(taken, order.drop_last());
        match slot_pos(rest, order.last(), 0) {
            Some(p) => (chain.push(rest[p as int]), rest.remove(p as int)),
            None => (chain, rest),
        }
    }
}

/// The slots in the new order, followed by the slots the order does not
/// name in their old order.
pub open spec fn reorder_spec<T>(taken: Seq<(u128, T)>, order: Seq<u128>) -> Seq<(u128, T)> {
    placed(taken, order).0 + placed(taken, order).1
}

fn find_slot<T>(v: &Vec<(u128, T)>, id: u128) -> (r: Option<usize>)
    ensures
        match r {
            Some(p) => slot_pos(v@, id, 0) == Some(p as nat),
            None => slot_pos(v@, id, 0).is_none(),
        },
{
    let mut i: usize = 0;
    while i < v.len()
        invariant
            i <= v@.len(),
            slot_pos(v@, id, 0) == slot_pos(v@, id, i as nat),
        decreases v@.len() - i,
    {
        if v[i].0 == id {
            return Some(i);
        }
        i = i + 1;
    }
    None
}

/// Puts the slots in the order of `order`; slots whose id the order does not
/// name keep their relative order at the end.
pub fn reorder_slots<T>(slots: Vec<(u128, T)>, order: &[u128]) -> (r: Vec<(u128, T)>)
    ensures
        r@ == reorder_spec(slots@, order@),
{
    let ghost start = slots@;
    let mut taken = slots;
    let mut chain: Vec<(u128, T)> = Vec::new();
    let mut i: usize = 0;
    while i < order.len()
        invariant
            i <= order@.len(),
            (chain@, taken@) == placed(start, order@.take(i as int)),
        decreases order@.len() - i,
    {
        assert(order@.take(i as int + 1).drop_last() =~= order@.take(i as int));
        match find_slot(&taken, order[i]) {
            Some(p) => {
                proof {
                    lemma_slot_pos(taken@, order@[i as int], 0);
                }
                let s = taken.remove(p);
                chain.push(s);
            },
            None => {},
        }
        i = i + 1;
    }
    assert(order@.take(order@.len() as int) =~= order@);
    chain.append(&mut taken);
    chain
}

/// Reordering neither loses nor duplicates a slot.
pub proof fn law_reorder_is_permutation<T>(taken: Seq<(u128, T)>, order: Seq<u128>)
    ensures
        reorder_spec(taken, order).to_multiset() == taken.to_multiset(),
    decreases order.len(),
{
    lemma_placed_multiset(taken, order);
    vstd::seq_lib::lemma_multiset_commutative(placed(taken, order).0, placed(taken, order).1);
}

proof fn lemma_placed_multiset<T>(taken: Seq<(u128, T)>, order: Seq<u128>)
    ensures
        placed(taken, order).0.to_multiset().add(placed(taken, order).1.to_multiset()) == taken.to_multiset(),
    decreases order.len(),
{
    broadcast use vstd::multiset::group_multiset_axioms;
    if order.len() == 0 {
        assert(Seq::<(u128, T)>::empty().to_multiset() =~= vstd::multiset::Multiset::empty()) by {
            broadcast use vstd::seq_lib::group_to_multiset_ensures;
        }
        assert(placed(taken, order).0.to_multiset().add(placed(taken, order).1.to_multiset()) =~= taken.to_multiset());
    } else {
        lemma_placed_multiset(taken, order.drop_last());
        let (chain, rest) = placed(taken, order.drop_last());
        match slot_pos(rest, order.last(), 0) {
            Some(p) => {
                lemma_slot_pos(rest, order.last(), 0);
                vstd::seq_lib::to_multiset_remove(rest, p as int);
                assert(chain.push(rest[p as int]).to_multiset() == chain.to_multiset().insert(rest[p as int])) by {
                    broadcast use vstd::seq_lib::group_to_multiset_ensures;
                }
                assert(rest.to_multiset().count(rest[p as int]) > 0) by {
                    broadcast use vstd::seq_lib::group_to_multiset_ensures;
                    assert(rest.contains(rest[p as int]));
                }
                assert(chain.push(rest[p as int]).to_multiset().add(rest.remove(p as int).to_multiset())
                    =~= chain.to_multiset().add(rest.to_multiset()));
            },
            None => {},
        }
    }
}

} // verus!
