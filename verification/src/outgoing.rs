//! The table of outgoing requests that wait for their responses.
//!
//! Each request that goes out gets a fresh id and leaves a slot behind, by
//! which its response will be delivered. A response takes the slot of its id
//! out of the table; what is left when the connection closes is drained.

use vstd::prelude::*;

verus! {

/// Whether the entry at place `i` holds the given id.
spec fn holds_at<T>(entries: Seq<(i32, T)>, id: i32, i: int) -> bool {
    0 <= i < entries.len() && entries[i].0 == id
}

/// Whether the ids of the entries ascend, all of them below `next`.
spec fn ascending<T>(entries: Seq<(i32, T)>, next: int) -> bool {
    &&& forall|i: int| 0 <= i < entries.len() ==> (#[trigger] entries[i]).0 < next
    &&& forall|i: int, j: int|
        0 <= i < j < entries.len() ==> (#[trigger] entries[i]).0 < (#[trigger] entries[j]).0
}

/// The slots of the entries, by id.
spec fn slots_of<T>(entries: Seq<(i32, T)>) -> Map<i32, T> {
    Map::new(
        |id: i32| exists|i: int| holds_at(entries, id, i),
        |id: i32| entries[choose|i: int| holds_at(entries, id, i)].1,
    )
}

/// Among ascending entries, each id stands for the slot beside it.
proof fn lemma_slot_at<T>(entries: Seq<(i32, T)>, next: int, i: int)
    requires
        ascending(entries, next),
        0 <= i < entries.len(),
    ensures
        slots_of(entries).dom().contains(entries[i].0),
        slots_of(entries)[entries[i].0] == entries[i].1,
{
    let id = entries[i].0;
    assert(holds_at(entries, id, i));
    let j = choose|j: int| holds_at(entries, id, j);
    assert(j == i);
}

/// Ascending entries hold as many ids as there are entries.
proof fn lemma_count<T>(entries: Seq<(i32, T)>, next: int)
    requires
        ascending(entries, next),
    ensures
        slots_of(entries).dom().finite(),
        slots_of(entries).dom().len() == entries.len(),
    decreases entries.len(),
{
    if entries.len() == 0 {
        assert(slots_of(entries).dom() =~= Set::<i32>::empty());
    } else {
        let earlier = entries.drop_last();
        let last = entries.last();
        lemma_count(earlier, next);
        assert(!slots_of(earlier).dom().contains(last.0));
        assert(slots_of(entries).dom() =~= slots_of(earlier).dom().insert(last.0)) by {
            assert forall|id: i32| slots_of(entries).dom().contains(id) <==> slots_of(
                earlier,
            ).dom().insert(last.0).contains(id) by {
                if slots_of(entries).dom().contains(id) {
                    let i = choose|i: int| holds_at(entries, id, i);
                    if i < earlier.len() {
                        assert(holds_at(earlier, id, i));
                    }
                }
                if slots_of(earlier).dom().contains(id) {
                    let i = choose|i: int| holds_at(earlier, id, i);
                    assert(holds_at(entries, id, i));
                }
                if id == last.0 {
                    assert(holds_at(entries, id, entries.len() - 1));
                }
            }
        }
    }
}

/// The table of outgoing requests: the slots that wait for a response, by
/// the id of their request, and the id that the next request gets.
#[derive(Debug)]
pub struct OutgoingRequests<T> {
    next_id: i32,
    entries: Vec<(i32, T)>,
}

impl<T> OutgoingRequests<T> {
    #[verifier::type_invariant]
    spec fn well_formed(self) -> bool {
        ascending(self.entries@, self.next_id as int)
    }

    /// The slots that wait, by the id of their request.
    pub closed spec fn view(&self) -> Map<i32, T> {
        slots_of(self.entries@)
    }

    /// The id that the next request gets.
    pub closed spec fn next_id(&self) -> int {
        self.next_id as int
    }

    /// A table in which nothing waits, and which counts from 0.
    pub fn new() -> (table: Self)
        ensures
            table@ == Map::<i32, T>::empty(),
            table.next_id() == 0,
    {
        Self::starting_at(0)
    }

    /// A table in which nothing waits, and which counts from the given id.
    pub fn starting_at(first: i32) -> (table: Self)
        ensures
            table@ == Map::<i32, T>::empty(),
            table.next_id() == first,
    {
        OutgoingRequests { next_id: first, entries: Vec::new() }
    }

    /// Leaves a slot for a request that goes out and gives the id of the
    /// request: the next of the counter, which no request had before. Once
    /// the counter is used up the slot comes back and nothing changes.
    pub fn register(&mut self, slot: T) -> (result: Result<i32, T>)
        ensures
            result is Ok <==> old(self).next_id() < i32::MAX,
            match result {
                Ok(id) => {
                    &&& id == old(self).next_id()
                    &&& !old(self)@.dom().contains(id)
                    &&& final(self)@ == old(self)@.insert(id, slot)
                    &&& final(self).next_id() == id + 1
                },
                Err(back) => {
                    &&& back == slot
                    &&& final(self)@ == old(self)@
                    &&& final(self).next_id() == old(self).next_id()
                },
            },
            forall|other: i32| old(self)@.dom().contains(other) ==> other < old(self).next_id(),
    {
        proof {
            use_type_invariant(&*self);
        }
        let ghost before = self.entries@;
        assert forall|other: i32| slots_of(before).dom().contains(other) implies other
            < self.next_id by {}
        if self.next_id == i32::MAX {
            return Err(slot);
        }
        let id = self.next_id;
        let mut entries: Vec<(i32, T)> = Vec::new();
        std::mem::swap(&mut self.entries, &mut entries);
        entries.push((id, slot));
        let ghost after = entries@;
        proof {
            assert(ascending(after, id + 1)) by {
                assert forall|i: int| 0 <= i < after.len() implies (#[trigger] after[i]).0 < id
                    + 1 by {}
                assert forall|i: int, j: int| 0 <= i < j < after.len() implies (#[trigger] after[i]).0
                    < (#[trigger] after[j]).0 by {}
            }
            assert(slots_of(after) =~= slots_of(before).insert(id, slot)) by {
                assert forall|key: i32| slots_of(after).dom().contains(key) <==> slots_of(
                    before,
                ).insert(id, slot).dom().contains(key) by {
                    if slots_of(after).dom().contains(key) {
                        let i = choose|i: int| holds_at(after, key, i);
                        if i < before.len() {
                            assert(holds_at(before, key, i));
                        }
                    }
                    if slots_of(before).dom().contains(key) {
                        let i = choose|i: int| holds_at(before, key, i);
                        assert(holds_at(after, key, i));
                    }
                    if key == id {
                        assert(holds_at(after, key, before.len() as int));
                    }
                }
                assert forall|key: i32| slots_of(after).dom().contains(key) implies slots_of(
                    after,
                )[key] == slots_of(before).insert(id, slot)[key] by {
                    let i = choose|i: int| holds_at(after, key, i);
                    lemma_slot_at(after, id + 1, i);
                    if i < before.len() {
                        lemma_slot_at(before, id as int, i);
                    }
                }
            }
        }
        self.next_id = id + 1;
        std::mem::swap(&mut self.entries, &mut entries);
        Ok(id)
    }

    /// Takes out the slot that waits for the response with the given id.
    /// There is none where no request with that id waits: the id was never
    /// given, or its response has come before.
    pub fn complete(&mut self, id: i32) -> (slot: Option<T>)
        ensures
            slot == if old(self)@.dom().contains(id) {
                Some(old(self)@[id])
            } else {
                None
            },
            final(self)@ == old(self)@.remove(id),
            final(self).next_id() == old(self).next_id(),
    {
        proof {
            use_type_invariant(&*self);
        }
        let ghost before = self.entries@;
        let ghost next = self.next_id as int;
        let mut at: usize = 0;
        while at < self.entries.len() && self.entries[at].0 != id
            invariant
                self.entries@ == before,
                self.next_id == next,
                at <= before.len(),
                forall|i: int| 0 <= i < at ==> before[i].0 != id,
            decreases before.len() - at,
        {
            at += 1;
        }
        let mut entries: Vec<(i32, T)> = Vec::new();
        if at == self.entries.len() {
            assert(!slots_of(before).dom().contains(id));
            return None;
        }
        std::mem::swap(&mut self.entries, &mut entries);
        let entry = entries.remove(at);
        let ghost after = entries@;
        proof {
            lemma_slot_at(before, next, at as int);
            assert forall|i: int| 0 <= i < after.len() implies after[i] == before[if i < at {
                i
            } else {
                i + 1
            }] by {}
            assert(slots_of(after) =~= slots_of(before).remove(id)) by {
                assert forall|key: i32| slots_of(after).dom().contains(key) <==> slots_of(
                    before,
                ).remove(id).dom().contains(key) by {
                    if slots_of(after).dom().contains(key) {
                        let i = choose|i: int| holds_at(after, key, i);
                        let j = if i < at {
                            i
                        } else {
                            i + 1
                        };
                        assert(holds_at(before, key, j));
                    }
                    if slots_of(before).dom().contains(key) && key != id {
                        let j = choose|j: int| holds_at(before, key, j);
                        let i = if j < at {
                            j
                        } else {
                            j - 1
                        };
                        assert(holds_at(after, key, i));
                    }
                }
                assert forall|key: i32| slots_of(after).dom().contains(key) implies slots_of(
                    after,
                )[key] == slots_of(before).remove(id)[key] by {
                    let i = choose|i: int| holds_at(after, key, i);
                    let j = if i < at {
                        i
                    } else {
                        i + 1
                    };
                    lemma_slot_at(after, next, i);
                    lemma_slot_at(before, next, j);
                }
            }
        }
        std::mem::swap(&mut self.entries, &mut entries);
        Some(entry.1)
    }

    /// Takes out all the slots that still wait, each with the id of its
    /// request, in the order in which the requests went out.
    pub fn drain(&mut self) -> (left: Vec<(i32, T)>)
        ensures
            final(self)@ == Map::<i32, T>::empty(),
            final(self).next_id() == old(self).next_id(),
            old(self)@.dom().finite(),
            left@.len() == old(self)@.dom().len(),
            forall|i: int|
                0 <= i < left@.len() ==> old(self)@.dom().contains((#[trigger] left@[i]).0)
                    && old(self)@[left@[i].0] == left@[i].1,
            forall|i: int, j: int|
                0 <= i < j < left@.len() ==> (#[trigger] left@[i]).0 < (#[trigger] left@[j]).0,
            forall|id: i32|
                old(self)@.dom().contains(id) ==> exists|i: int|
                    0 <= i < left@.len() && (#[trigger] left@[i]).0 == id,
    {
        proof {
            use_type_invariant(&*self);
        }
        let ghost before = self.entries@;
        let ghost next = self.next_id as int;
        let mut left: Vec<(i32, T)> = Vec::new();
        std::mem::swap(&mut self.entries, &mut left);
        proof {
            lemma_count(before, next);
            assert forall|i: int| 0 <= i < before.len() implies slots_of(before).dom().contains(
                (#[trigger] before[i]).0,
            ) && slots_of(before)[before[i].0] == before[i].1 by {
                lemma_slot_at(before, next, i);
            }
            assert forall|id: i32| slots_of(before).dom().contains(id) implies exists|i: int|
                0 <= i < before.len() && (#[trigger] before[i]).0 == id by {
                let i = choose|i: int| holds_at(before, id, i);
                assert(before[i].0 == id);
            }
        }
        left
    }

    /// How many slots wait.
    pub fn len(&self) -> (len: usize)
        ensures
            self@.dom().finite(),
            len == self@.dom().len(),
    {
        proof {
            use_type_invariant(self);
            lemma_count(self.entries@, self.next_id as int);
        }
        self.entries.len()
    }

    /// Whether nothing waits.
    pub fn is_empty(&self) -> (empty: bool)
        ensures
            empty == (self@ == Map::<i32, T>::empty()),
    {
        let empty = self.entries.len() == 0;
        proof {
            use_type_invariant(self);
            if empty {
                assert(self@ =~= Map::<i32, T>::empty());
            } else {
                assert(holds_at(self.entries@, self.entries@[0].0, 0));
                assert(self@.dom().contains(self.entries@[0].0));
            }
        }
        empty
    }
}

/// The table after requests with the given slots went out of a new table,
/// one after the other: they got the ids from 0 on.
pub open spec fn registered<T>(slots: Seq<T>) -> Map<i32, T> {
    Map::new(|id: i32| 0 <= id < slots.len(), |id: i32| slots[id as int])
}

/// The table after the responses with the given ids came in, one after the
/// other.
pub open spec fn completed<T>(table: Map<i32, T>, order: Seq<i32>) -> Map<i32, T>
    decreases order.len(),
{
    if order.len() == 0 {
        table
    } else {
        completed(table.remove(order[0]), order.drop_first())
    }
}

/// One more request that goes out adds its slot under the next id.
pub proof fn lemma_registered_next<T>(slots: Seq<T>, slot: T)
    requires
        slots.len() < i32::MAX,
    ensures
        registered(slots.push(slot)) == registered(slots).insert(slots.len() as i32, slot),
{
}

/// After responses came in, the slots that wait are those whose ids were not
/// among them, each as it was.
pub proof fn lemma_completed<T>(table: Map<i32, T>, order: Seq<i32>)
    ensures
        forall|id: i32|
            #![trigger completed(table, order).dom().contains(id)]
            completed(table, order).dom().contains(id) <==> table.dom().contains(id)
                && !order.contains(id),
        forall|id: i32|
            #![trigger completed(table, order)[id]]
            completed(table, order).dom().contains(id) ==> completed(table, order)[id]
                == table[id],
    decreases order.len(),
{
    if order.len() == 0 {
        assert forall|id: i32| !order.contains(id) by {}
    } else {
        let first = order[0];
        let rest = order.drop_first();
        let later = completed(table.remove(first), rest);
        lemma_completed(table.remove(first), rest);
        assert forall|id: i32| order.contains(id) <==> id == first || rest.contains(id) by {
            if order.contains(id) {
                let i = choose|i: int| 0 <= i < order.len() && order[i] == id;
                if i > 0 {
                    assert(rest[i - 1] == id);
                }
            }
            if rest.contains(id) {
                let i = choose|i: int| 0 <= i < rest.len() && rest[i] == id;
                assert(order[i + 1] == id);
            }
        }
        assert forall|id: i32| later.dom().contains(id) <==> table.dom().contains(id)
            && !order.contains(id) by {
            assert(later.dom().contains(id) <==> table.remove(first).dom().contains(id)
                && !rest.contains(id));
        }
        assert forall|id: i32| later.dom().contains(id) implies later[id] == table[id] by {}
    }
}

/// Request correlation: in whatever order the responses come in, each finds
/// the slot that its own request left, as long as no id comes twice.
pub proof fn lemma_response_finds_its_slot<T>(slots: Seq<T>, order: Seq<i32>, k: int)
    requires
        slots.len() <= i32::MAX,
        order.no_duplicates(),
        0 <= k < order.len(),
        0 <= order[k] < slots.len(),
    ensures
        completed(registered(slots), order.take(k)).dom().contains(order[k]),
        completed(registered(slots), order.take(k))[order[k]] == slots[order[k] as int],
{
    let id = order[k];
    let earlier = order.take(k);
    lemma_completed(registered(slots), earlier);
    assert(!earlier.contains(id)) by {
        if earlier.contains(id) {
            let i = choose|i: int| 0 <= i < earlier.len() && earlier[i] == id;
            assert(order[i] == order[k]);
        }
    }
}

/// Once the response of every request has come in, nothing waits.
pub proof fn lemma_nothing_waits_at_quiescence<T>(slots: Seq<T>, order: Seq<i32>)
    requires
        forall|id: i32| 0 <= id < slots.len() ==> order.contains(id),
    ensures
        completed(registered(slots), order) == Map::<i32, T>::empty(),
{
    let table = completed(registered(slots), order);
    lemma_completed(registered(slots), order);
    assert forall|id: i32| !table.dom().contains(id) by {}
}

/// A response whose id no request waits for changes nothing: one that comes
/// a second time, or one with an id that was never given.
pub proof fn lemma_unknown_response_changes_nothing<T>(table: Map<i32, T>, id: i32)
    requires
        !table.dom().contains(id),
    ensures
        table.remove(id) == table,
{
}

} // verus!
