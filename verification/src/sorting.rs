//! Stable ordering of items by the text offset they come from.
//!
//! The order is described by offsets alone: `order_of` gives, for a sequence
//! of offsets, the indices in the order in which a stable sort visits them.

use vstd::prelude::*;

verus! {

/// Something that comes from a place in a text.
pub trait Placed {
    /// The byte offset the item comes from.
    spec fn place(&self) -> usize;

    /// The byte offset the item comes from.
    fn position(&self) -> (p: usize)
        ensures
            p == self.place(),
    ;
}

/// The offsets of `items`.
pub open spec fn places<T: Placed>(items: Seq<T>) -> Seq<int> {
    Seq::new(items.len(), |i: int| items[i].place() as int)
}

/// `items` taken in the given order of indices.
pub open spec fn arranged<T>(order: Seq<int>, items: Seq<T>) -> Seq<T> {
    Seq::new(order.len(), |k: int| items[order[k]])
}

/// Where `key` goes into ascending `sorted`: behind every offset that is not
/// larger, found from the back.
pub open spec fn slot_for(sorted: Seq<int>, key: int) -> int
    decreases sorted.len(),
{
    if sorted.len() == 0 || sorted.last() <= key {
        sorted.len() as int
    } else {
        slot_for(sorted.drop_last(), key)
    }
}

/// The indices of `keys` by ascending key; equal keys keep their order.
pub open spec fn order_of(keys: Seq<int>) -> Seq<int>
    decreases keys.len(),
{
    if keys.len() == 0 {
        Seq::empty()
    } else {
        let head = order_of(keys.drop_last());
        head.insert(slot_for(arranged(head, keys), keys.last()), keys.len() - 1)
    }
}

/// `items` by ascending offset; items with equal offsets keep their order.
pub open spec fn in_order<T: Placed>(items: Seq<T>) -> Seq<T> {
    arranged(order_of(places(items)), items)
}

/// The keys never decrease.
pub open spec fn ascending(keys: Seq<int>) -> bool {
    forall|i: int, j: int| 0 <= i < j < keys.len() ==> keys[i] <= keys[j]
}

/// `order` holds every index below `n` once, and along it the keys ascend,
/// with equal keys in their first order.
pub open spec fn stable_order(order: Seq<int>, keys: Seq<int>) -> bool {
    &&& order.len() == keys.len()
    &&& forall|k: int| 0 <= k < order.len() ==> 0 <= #[trigger] order[k] < keys.len()
    &&& forall|a: int, b: int|
        0 <= a < b < order.len() ==> keys[#[trigger] order[a]] < keys[#[trigger] order[b]] || (
        keys[order[a]] == keys[order[b]] && order[a] < order[b])
}

/// The slot lies inside the sequence, everything from it on is larger than
/// the key, and what stands just before it is not.
pub proof fn lemma_slot_for(sorted: Seq<int>, key: int)
    ensures
        0 <= slot_for(sorted, key) <= sorted.len(),
        forall|k: int| slot_for(sorted, key) <= k < sorted.len() ==> #[trigger] sorted[k] > key,
        slot_for(sorted, key) > 0 ==> sorted[slot_for(sorted, key) - 1] <= key,
    decreases sorted.len(),
{
    if sorted.len() > 0 && sorted.last() > key {
        lemma_slot_for(sorted.drop_last(), key);
        assert forall|k: int| slot_for(sorted, key) <= k < sorted.len() implies #[trigger] sorted[k]
            > key by {
            if k < sorted.len() - 1 {
                assert(sorted.drop_last()[k] == sorted[k]);
            }
        }
    }
}

/// `order_of` is a stable ascending order of all indices.
pub proof fn lemma_order_of(keys: Seq<int>)
    ensures
        stable_order(order_of(keys), keys),
        ascending(arranged(order_of(keys), keys)),
    decreases keys.len(),
{
    if keys.len() > 0 {
        let front = keys.drop_last();
        let head = order_of(front);
        let n = keys.len() - 1;
        let hk = arranged(head, keys);
        let slot = slot_for(hk, keys.last());
        let out = head.insert(slot, n);
        lemma_order_of(front);
        lemma_slot_for(hk, keys.last());
        assert(out == order_of(keys));
        assert forall|k: int| 0 <= k < head.len() implies hk[k] == front[head[k]] && 0
            <= #[trigger] head[k] < n by {}
        assert forall|a: int, b: int| 0 <= a < b < head.len() implies hk[a] <= hk[b] by {
            assert(front[head[a]] <= front[head[b]]);
        }
        assert forall|a: int, b: int| 0 <= a < b < out.len() implies keys[#[trigger] out[a]]
            < keys[#[trigger] out[b]] || (keys[out[a]] == keys[out[b]] && out[a] < out[b]) by {
            if b < slot {
                assert(out[a] == head[a] && out[b] == head[b]);
                assert(front[head[a]] == keys[head[a]] && front[head[b]] == keys[head[b]]);
            } else if b == slot {
                assert(out[a] == head[a] && out[b] == n);
                assert(hk[a] <= hk[slot - 1]);
                assert(hk[a] == keys[head[a]]);
            } else if a < slot {
                assert(out[a] == head[a] && out[b] == head[b - 1]);
                assert(front[head[a]] == keys[head[a]] && front[head[b - 1]] == keys[head[b
                    - 1]]);
                if a == b - 1 {
                } else {
                }
            } else if a == slot {
                assert(out[a] == n && out[b] == head[b - 1]);
                assert(hk[b - 1] > keys.last());
            } else {
                assert(out[a] == head[a - 1] && out[b] == head[b - 1]);
                assert(front[head[a - 1]] == keys[head[a - 1]] && front[head[b - 1]] == keys[head[b
                    - 1]]);
            }
        }
        assert forall|k: int| 0 <= k < out.len() implies 0 <= #[trigger] out[k] < keys.len() by {
            if k < slot {
                assert(out[k] == head[k]);
            } else if k > slot {
                assert(out[k] == head[k - 1]);
            }
        }
        let ok = arranged(out, keys);
        assert forall|i: int, j: int| 0 <= i < j < ok.len() implies ok[i] <= ok[j] by {
            assert(keys[out[i]] < keys[out[j]] || keys[out[i]] == keys[out[j]]);
        }
    }
}

/// Ordering by offset puts the offsets in ascending order and keeps the length.
pub proof fn lemma_in_order<T: Placed>(items: Seq<T>)
    ensures
        in_order(items).len() == items.len(),
        ascending(places(in_order(items))),
{
    let keys = places(items);
    lemma_order_of(keys);
    let order = order_of(keys);
    assert(places(in_order(items)) =~= arranged(order, keys));
}

/// Sorts by offset. The sort is stable, and cheap where the input is nearly
/// sorted already: each item is placed by a search from the back.
pub fn sort_by_position<T: Placed>(items: Vec<T>) -> (sorted: Vec<T>)
    ensures
        sorted@ == in_order(items@),
        sorted@.len() == items@.len(),
        ascending(places(sorted@)),
{
    let ghost input = items@;
    let ghost keys = places(input);
    let mut rest = items;
    let mut stack: Vec<T> = Vec::new();
    while rest.len() > 0
        invariant
            rest@ == input.take(rest@.len() as int),
            rest@.len() <= input.len(),
            stack@.len() + rest@.len() == input.len(),
            forall|k: int| 0 <= k < stack@.len() ==> stack@[k] == input[input.len() - 1 - k],
        decreases rest.len(),
    {
        let x = rest.pop().unwrap();
        stack.push(x);
        assert(rest@ =~= input.take(rest@.len() as int));
    }
    let mut sorted: Vec<T> = Vec::new();
    assert(keys.take(0) =~= Seq::<int>::empty());
    assert(sorted@ =~= arranged(order_of(keys.take(0)), input));
    while stack.len() > 0
        invariant
            keys == places(input),
            stack@.len() <= input.len(),
            forall|k: int| 0 <= k < stack@.len() ==> stack@[k] == input[input.len() - 1 - k],
            sorted@ == arranged(order_of(keys.take(input.len() - stack@.len())), input),
        decreases stack.len(),
    {
        let ghost done = input.len() - stack@.len();
        let ghost head = order_of(keys.take(done));
        let ghost next = keys.take(done + 1);
        let ghost hk = arranged(head, next);
        let x = stack.pop().unwrap();
        let key = x.position();
        let mut slot: usize = sorted.len();
        proof {
            lemma_order_of(keys.take(done));
            assert(next.drop_last() =~= keys.take(done));
            assert(next.last() == key as int);
            assert(places(sorted@) =~= hk) by {
                assert forall|k: int| 0 <= k < head.len() implies places(sorted@)[k] == hk[k] by {
                    assert(0 <= head[k] < done);
                    assert(sorted@[k] == input[head[k]]);
                }
            }
            assert(hk.take(slot as int) =~= hk);
        }
        while slot > 0 && sorted[slot - 1].position() > key
            invariant
                slot <= sorted@.len(),
                places(sorted@) == hk,
                slot_for(hk, key as int) == slot_for(hk.take(slot as int), key as int),
            decreases slot,
        {
            assert(hk.take(slot as int).drop_last() =~= hk.take(slot - 1));
            assert(hk.take(slot as int).last() == places(sorted@)[slot - 1]);
            slot -= 1;
        }
        proof {
            if slot > 0 {
                assert(hk.take(slot as int).last() == places(sorted@)[slot - 1]);
            }
            assert(slot_for(hk, key as int) == slot);
            assert(order_of(next) == head.insert(slot as int, done as int));
        }
        sorted.insert(slot, x);
        proof {
            let order = order_of(next);
            assert(sorted@ =~= arranged(order, input)) by {
                assert forall|k: int| 0 <= k < order.len() implies sorted@[k] == input[order[k]] by {
                    if k < slot {
                        assert(order[k] == head[k]);
                    } else if k > slot {
                        assert(order[k] == head[k - 1]);
                    }
                }
            }
        }
    }
    proof {
        assert(keys.take(input.len() as int) =~= keys);
        lemma_in_order(input);
    }
    sorted
}

} // verus!
