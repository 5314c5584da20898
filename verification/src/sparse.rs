//! The sparse map: an array of slots that never relocates live values, plus a
//! FIFO queue of freed slot indices. Reusing a freed slot bumps the slot's
//! generation, so handles into the slot's earlier life no longer validate.

use crate::handle::{index_of, next_meta, pack, Handle};
use std::collections::VecDeque;
use vstd::prelude::*;

verus! {

broadcast use vstd::set::group_set_axioms;

/// Relies on `Vec::capacity`: the number of elements the vector can hold
/// without reallocating, documented to be at least its length.
#[verifier::external_body]
pub(crate) fn vec_capacity<T>(v: &Vec<T>) -> (c: usize)
    ensures
        c >= v@.len(),
{
    v.capacity()
}

/// A sequence of distinct indices that all lie below `n` and all avoid one
/// further index `e` below `n` has fewer than `n` elements.
proof fn lemma_distinct_below_excluding(s: Seq<usize>, n: int, e: usize)
    requires
        s.no_duplicates(),
        forall|j: int| 0 <= j < s.len() ==> (#[trigger] s[j]) < n,
        e < n,
        !s.contains(e),
    ensures
        s.len() < n,
{
    let ints = s.map_values(|x: usize| x as int);
    assert(ints.no_duplicates()) by {
        assert forall|i: int, j: int|
            0 <= i < ints.len() && 0 <= j < ints.len() && i != j implies ints[i] != ints[j] by {
            assert(s[i] != s[j]);
        }
    }
    ints.unique_seq_to_set();
    let bound = vstd::set_lib::set_int_range(0, n).remove(e as int);
    assert(ints.to_set().subset_of(bound)) by {
        assert forall|x: int| ints.to_set().contains(x) implies bound.contains(x) by {
            let j = choose|j: int| 0 <= j < ints.len() && ints[j] == x;
            assert(s[j] < n);
            assert(s[j] != e);
        }
    }
    vstd::set_lib::lemma_int_range(0, n);
    vstd::set_lib::lemma_len_subset(ints.to_set(), bound);
}

/// A generation bumped by one, wrapping to zero at the 32-bit limit; wrapping
/// is the accepted cost of a 32-bit generation counter.
fn bump(meta: u32) -> (r: u32)
    ensures
        r == next_meta(meta),
{
    if meta == u32::MAX {
        0
    } else {
        meta + 1
    }
}

/// A map from handles to values that stores each value in a slot, never moves
/// a live value, and recycles freed slots in FIFO order under a bumped
/// generation.
pub struct SparseHandleMap<T> {
    values: Vec<(Handle<T>, Option<T>)>,
    available: VecDeque<usize>,
}

impl<T> SparseHandleMap<T> {
    /// The slot array: each slot holds the handle that currently owns it and,
    /// when the slot is live, its value.
    pub closed spec fn slots(self) -> Seq<(Handle<T>, Option<T>)> {
        self.values@
    }

    /// The FIFO queue of reusable slot indices, front first.
    pub closed spec fn free(self) -> Seq<usize> {
        self.available@
    }

    /// Well-formedness: every slot's handle records the slot's own index, the
    /// free queue holds distinct indices of exactly the empty slots, and slot
    /// indices fit in 32 bits.
    pub open spec fn inv(self) -> bool {
        &&& self.slots().len() <= 0x1_0000_0000
        &&& forall|i: int|
            0 <= i < self.slots().len() ==> (#[trigger] self.slots()[i]).0.index_spec() as int == i
        &&& forall|j: int| 0 <= j < self.free().len() ==> (#[trigger] self.free()[j]) < self.slots().len()
        &&& forall|j: int|
            0 <= j < self.free().len() ==> self.slots()[#[trigger] self.free()[j] as int].1 is None
        &&& self.free().no_duplicates()
        &&& forall|i: int|
            0 <= i < self.slots().len() && (#[trigger] self.slots()[i]).1 is None
                ==> self.free().contains(i as usize)
        &&& self.free().len() <= self.slots().len()
    }

    /// Whether raw identifier `id` currently names a live value: its index
    /// half points at an existing slot, that slot's handle is bit-for-bit
    /// `id`, and the slot holds a value.
    pub open spec fn valid_id(self, id: u64) -> bool {
        &&& (index_of(id) as int) < self.slots().len()
        &&& self.slots()[index_of(id) as int].0@ == id
        &&& self.slots()[index_of(id) as int].1 is Some
    }

    /// The value behind raw identifier `id`.
    pub open spec fn at_id(self, id: u64) -> T
        recommends
            self.valid_id(id),
    {
        self.slots()[index_of(id) as int].1->0
    }

    /// The map as a partial lookup from raw identifiers to values.
    pub open spec fn spec_get(self, id: u64) -> Option<T> {
        if self.valid_id(id) {
            Some(self.at_id(id))
        } else {
            None
        }
    }

    /// The number of live values: occupied slots, i.e. all slots minus the
    /// freed ones.
    pub open spec fn spec_len(self) -> int {
        self.slots().len() - self.free().len()
    }

    /// The raw identifier that the `count`-th future insert would return,
    /// assuming no intervening removal: the handle of the slot at FIFO
    /// position `count` of the free queue under a bumped generation, or a
    /// fresh slot index past the end of the array with generation zero.
    pub open spec fn predict_id(self, count: int) -> u64 {
        if count < self.free().len() {
            let slot_handle = self.slots()[self.free()[count] as int].0;
            pack(next_meta(slot_handle.meta_spec()), slot_handle.index_spec())
        } else {
            pack(0u32, (self.slots().len() + count - self.free().len()) as u32)
        }
    }

    /// Whether the `count`-th future insert stays within the 32-bit slot
    /// index space; exceeding it is a fatal resource-exhaustion condition.
    pub open spec fn can_predict(self, count: int) -> bool {
        count < self.free().len() || self.slots().len() + count - self.free().len()
            <= u32::MAX as int
    }

    /// Whether one more insert stays within the 32-bit slot index space.
    pub open spec fn can_insert(self) -> bool {
        self.can_predict(0)
    }

    /// Builds an empty map.
    pub fn new() -> (r: Self)
        ensures
            r.inv(),
            r.slots() == Seq::<(Handle<T>, Option<T>)>::empty(),
            r.free() == Seq::<usize>::empty(),
            r.spec_len() == 0,
    {
        SparseHandleMap { values: Vec::new(), available: VecDeque::new() }
    }

    /// Returns the number of populated values in the map.
    pub fn len(&self) -> (r: usize)
        requires
            self.inv(),
        ensures
            r == self.spec_len(),
    {
        self.values.len() - self.available.len()
    }

    /// Returns the total number of elements the map can hold without
    /// reallocating; never less than `len`.
    pub fn capacity(&self) -> (r: usize)
        requires
            self.inv(),
        ensures
            r >= self.spec_len(),
    {
        vec_capacity(&self.values)
    }

    /// Returns `true` if the map contains no elements.
    pub fn is_empty(&self) -> (r: bool)
        requires
            self.inv(),
        ensures
            r == (self.spec_len() == 0),
    {
        self.len() == 0
    }

    /// Returns a mutable reference to the value associated with `handle`, or
    /// `None` if the handle is stale or out of range.
    pub fn get_mut(&mut self, handle: Handle<T>) -> (r: Option<&mut T>)
        requires
            old(self).inv(),
        ensures
            final(self).inv(),
            r is Some <==> old(self).valid_id(handle@),
            r is None ==> final(self).slots() =~= old(self).slots() && final(self).free()
                == old(self).free(),
            r is Some ==> ({
                let i = index_of(handle@) as int;
                &&& *r.unwrap() == old(self).at_id(handle@)
                &&& final(self).slots() == old(self).slots().update(
                    i,
                    (old(self).slots()[i].0, Some(*final(r.unwrap()))),
                )
                &&& final(self).free() == old(self).free()
                &&& final(self).valid_id(handle@)
                &&& final(self).at_id(handle@) == *final(r.unwrap())
                &&& final(self).spec_len() == old(self).spec_len()
                &&& forall|id: u64|
                    id != handle@ ==> final(self).spec_get(id) == old(self).spec_get(id)
            }),
    {
        let i = handle.uindex();
        if i >= self.values.len() {
            return None;
        }
        if !(handle == self.values[i].0) {
            return None;
        }
        let slot = &mut self.values[i];
        slot.1.as_mut()
    }

    /// Removes the value associated with `handle` from the map and returns
    /// it, or returns `None` if the handle is stale or out of range. The
    /// freed slot keeps its handle and generation and joins the back of the
    /// free queue, so the same handle no longer resolves, every other entry
    /// is untouched, and the live count shrinks by one.
    pub fn remove(&mut self, handle: Handle<T>) -> (r: Option<T>)
        requires
            old(self).inv(),
        ensures
            final(self).inv(),
            match r {
                Some(v) => {
                    let i = index_of(handle@) as int;
                    &&& old(self).valid_id(handle@)
                    &&& v == old(self).at_id(handle@)
                    &&& final(self).slots() == old(self).slots().update(
                        i,
                        (old(self).slots()[i].0, None::<T>),
                    )
                    &&& final(self).free() == old(self).free().push(index_of(handle@) as usize)
                    &&& final(self).spec_len() == old(self).spec_len() - 1
                    &&& final(self).spec_get(handle@) is None
                    &&& forall|id: u64|
                        id != handle@ ==> final(self).spec_get(id) == old(self).spec_get(id)
                },
                None => {
                    &&& !old(self).valid_id(handle@)
                    &&& final(self).slots() =~= old(self).slots()
                    &&& final(self).free() == old(self).free()
                },
            },
    {
        let i = handle.uindex();
        if i >= self.values.len() {
            return None;
        }
        if !(handle == self.values[i].0) {
            return None;
        }
        let slot = &mut self.values[i];
        let value = slot.1.take();
        match value {
            Some(v) => {
                self.available.push_back(i);
                proof {
                    self.lemma_remove(*old(self), handle, i);
                }
                Some(v)
            },
            None => None,
        }
    }

    /// The state after clearing slot `i` and queueing it holds the remove
    /// contract.
    proof fn lemma_remove(self, pre: Self, handle: Handle<T>, i: usize)
        requires
            pre.inv(),
            index_of(handle@) as int == i as int,
            i < pre.slots().len(),
            pre.slots()[i as int].0@ == handle@,
            pre.slots()[i as int].1 is Some,
            self.slots() == pre.slots().update(i as int, (pre.slots()[i as int].0, None::<T>)),
            self.free() == pre.free().push(i),
        ensures
            self.inv(),
            self.spec_get(handle@) is None,
            self.spec_len() == pre.spec_len() - 1,
            forall|id: u64| id != handle@ ==> self.spec_get(id) == pre.spec_get(id),
    {
        assert(!pre.free().contains(i)) by {
            if pre.free().contains(i) {
                let j = choose|j: int| 0 <= j < pre.free().len() && pre.free()[j] == i;
                assert(pre.slots()[pre.free()[j] as int].1 is None);
            }
        }
        lemma_distinct_below_excluding(pre.free(), pre.slots().len() as int, i);
        assert forall|j1: int, j2: int|
            0 <= j1 < self.free().len() && 0 <= j2 < self.free().len() && j1
                != j2 implies self.free()[j1] != self.free()[j2] by {
            if j2 == pre.free().len() as int {
                assert(self.free()[j1] == pre.free()[j1]);
            } else if j1 == pre.free().len() as int {
                assert(self.free()[j2] == pre.free()[j2]);
            }
        }
        assert forall|i2: int|
            0 <= i2 < self.slots().len() && (#[trigger] self.slots()[i2]).1 is None implies self
            .free().contains(i2 as usize) by {
            if i2 == i as int {
                assert(self.free()[pre.free().len() as int] == i);
            } else {
                assert(pre.slots()[i2].1 is None);
                assert(pre.free().contains(i2 as usize));
                let j = choose|j: int| 0 <= j < pre.free().len() && pre.free()[j] == i2 as usize;
                assert(self.free()[j] == i2 as usize);
            }
        }
        assert forall|id: u64| id != handle@ implies self.spec_get(id) == pre.spec_get(id) by {
            if index_of(id) as int == i as int {
                assert(pre.slots()[i as int].0@ == handle@);
            }
        }
    }

    /// Returns a reference to the value associated with `handle`, which the
    /// caller must know to be valid; the recoverable counterpart is `get`.
    pub fn index(&self, handle: Handle<T>) -> (r: &T)
        requires
            self.valid_id(handle@),
        ensures
            *r == self.at_id(handle@),
    {
        match self.get(handle) {
            Some(v) => v,
            None => vstd::pervasive::unreached(),
        }
    }

    /// Returns a mutable reference to the value associated with `handle`,
    /// which the caller must know to be valid; the recoverable counterpart is
    /// `get_mut`.
    pub fn index_mut(&mut self, handle: Handle<T>) -> (r: &mut T)
        requires
            old(self).inv(),
            old(self).valid_id(handle@),
        ensures
            final(self).inv(),
            *r == old(self).at_id(handle@),
            ({
                let i = index_of(handle@) as int;
                &&& final(self).slots() == old(self).slots().update(
                    i,
                    (old(self).slots()[i].0, Some(*final(r))),
                )
                &&& final(self).free() == old(self).free()
                &&& final(self).valid_id(handle@)
                &&& final(self).at_id(handle@) == *final(r)
                &&& final(self).spec_len() == old(self).spec_len()
                &&& forall|id: u64|
                    id != handle@ ==> final(self).spec_get(id) == old(self).spec_get(id)
            }),
    {
        match self.get_mut(handle) {
            Some(v) => v,
            None => vstd::pervasive::unreached(),
        }
    }

    /// Predicts the handle that will be generated after inserting `count`
    /// values, without mutating the map. The forecast is accurate only for a
    /// run of inserts; a removal in between can de-sync it.
    pub fn predict_handle(&self, count: usize) -> (h: Handle<T>)
        requires
            self.inv(),
            self.can_predict(count as int),
        ensures
            h@ == self.predict_id(count as int),
    {
        if count < self.available.len() {
            let index = self.available[count];
            let slot_handle = self.values[index].0;
            Handle::from_parts(bump(slot_handle.meta()), slot_handle.index())
        } else {
            let new_count = count - self.available.len();
            let new_index = self.values.len() + new_count;
            Handle::from_parts(0, new_index as u32)
        }
    }

    /// Predicts the handle that the next insert will return, provided no
    /// removal occurs in between; an alias for `predict_handle(0)`.
    pub fn predict_next_handle(&self) -> (h: Handle<T>)
        requires
            self.inv(),
            self.can_insert(),
        ensures
            h@ == self.predict_id(0),
    {
        self.predict_handle(0)
    }

    /// Inserts `value` into the map, returning the handle to its slot. The
    /// front of the free queue is reused first, under a bumped generation;
    /// otherwise a fresh slot is appended with generation zero. The returned
    /// handle is exactly the one `predict_handle(0)` forecast; the new entry
    /// is immediately visible through `get`; every other entry is untouched;
    /// and the live count grows by one.
    pub fn insert(&mut self, value: T) -> (h: Handle<T>)
        requires
            old(self).inv(),
            old(self).can_insert(),
        ensures
            final(self).inv(),
            h@ == old(self).predict_id(0),
            !old(self).valid_id(h@),
            final(self).spec_get(h@) == Some(value),
            final(self).valid_id(h@),
            final(self).at_id(h@) == value,
            final(self).spec_len() == old(self).spec_len() + 1,
            forall|id: u64| id != h@ ==> final(self).spec_get(id) == old(self).spec_get(id),
            if old(self).free().len() > 0 {
                &&& final(self).slots() == old(self).slots().update(
                    old(self).free()[0] as int,
                    (h, Some(value)),
                )
                &&& final(self).free() == old(self).free().subrange(
                    1,
                    old(self).free().len() as int,
                )
            } else {
                &&& final(self).slots() == old(self).slots().push((h, Some(value)))
                &&& final(self).free() == old(self).free()
            },
    {
        match self.available.pop_front() {
            Some(index) => {
                let slot_handle = self.values[index].0;
                let h = Handle::from_parts(bump(slot_handle.meta()), slot_handle.index());
                self.values[index] = (h, Some(value));
                proof {
                    self.lemma_insert_reuse(*old(self), h, value, index);
                }
                h
            },
            None => {
                let new_index = self.values.len();
                let h = Handle::from_parts(0, new_index as u32);
                self.values.push((h, Some(value)));
                proof {
                    self.lemma_insert_push(*old(self), h, value);
                }
                h
            },
        }
    }

    /// The state after reusing freed slot `index` holds the insert contract.
    proof fn lemma_insert_reuse(self, pre: Self, h: Handle<T>, value: T, index: usize)
        requires
            pre.inv(),
            pre.free().len() > 0,
            index == pre.free()[0],
            h.index_spec() == pre.slots()[index as int].0.index_spec(),
            h@ == pack(
                next_meta(pre.slots()[index as int].0.meta_spec()),
                pre.slots()[index as int].0.index_spec(),
            ),
            self.slots() == pre.slots().update(index as int, (h, Some(value))),
            self.free() == pre.free().subrange(1, pre.free().len() as int),
        ensures
            self.inv(),
            h@ == pre.predict_id(0),
            !pre.valid_id(h@),
            self.valid_id(h@),
            self.at_id(h@) == value,
            self.spec_len() == pre.spec_len() + 1,
            forall|id: u64| id != h@ ==> self.spec_get(id) == pre.spec_get(id),
    {
        assert(index < pre.slots().len());
        assert(h.index_spec() as int == index as int);
        assert(self.valid_id(h@));
        assert forall|j: int| 0 <= j < self.free().len() implies (#[trigger] self.free()[j])
            < self.slots().len() && self.slots()[self.free()[j] as int].1 is None by {
            assert(self.free()[j] == pre.free()[j + 1]);
            assert(pre.free()[j + 1] != index) by {
                assert(pre.free().no_duplicates());
            }
        }
        assert forall|i: int|
            0 <= i < self.slots().len() && (#[trigger] self.slots()[i]).1 is None implies self.free()
            .contains(i as usize) by {
            assert(pre.slots()[i].1 is None);
            assert(pre.free().contains(i as usize));
            let j = choose|j: int| 0 <= j < pre.free().len() && pre.free()[j] == i as usize;
            assert(j != 0);
            assert(self.free()[j - 1] == i as usize);
        }
        assert forall|id: u64| id != h@ implies self.spec_get(id) == pre.spec_get(id) by {
            if index_of(id) as int == index as int {
                assert(pre.slots()[index as int].1 is None);
                assert(self.slots()[index as int].0@ == h@);
            }
        }
    }

    /// The state after appending a fresh slot holds the insert contract.
    proof fn lemma_insert_push(self, pre: Self, h: Handle<T>, value: T)
        requires
            pre.inv(),
            pre.free().len() == 0,
            pre.slots().len() <= u32::MAX as int,
            h.index_spec() == pre.slots().len() as u32,
            h@ == pack(0u32, pre.slots().len() as u32),
            self.slots() == pre.slots().push((h, Some(value))),
            self.free() == pre.free(),
        ensures
            self.inv(),
            h@ == pre.predict_id(0),
            !pre.valid_id(h@),
            self.valid_id(h@),
            self.at_id(h@) == value,
            self.spec_len() == pre.spec_len() + 1,
            forall|id: u64| id != h@ ==> self.spec_get(id) == pre.spec_get(id),
    {
        let n = pre.slots().len() as int;
        assert(h.index_spec() as int == n);
        assert(self.valid_id(h@));
        assert forall|i: int|
            0 <= i < self.slots().len() && (#[trigger] self.slots()[i]).1 is None implies self.free()
            .contains(i as usize) by {
            assert(i < n);
            assert(pre.slots()[i].1 is None);
        }
        assert forall|id: u64| id != h@ implies self.spec_get(id) == pre.spec_get(id) by {
            if index_of(id) as int == n {
                assert(self.slots()[n].0@ == h@);
            }
        }
    }

    /// Non-aliasing across reuse: the handle that the next insert would
    /// return for a reused slot never equals the handle that currently owns
    /// that slot, because reuse bumps the slot's generation.
    pub proof fn lemma_reused_handle_is_fresh(self)
        requires
            self.inv(),
            self.free().len() > 0,
        ensures
            self.predict_id(0) != self.slots()[self.free()[0] as int].0@,
    {
        let slot_handle = self.slots()[self.free()[0] as int].0;
        crate::handle::lemma_pack_unpack(
            next_meta(slot_handle.meta_spec()),
            slot_handle.index_spec(),
        );
    }

    /// Prediction accuracy: a handle returned by `predict_next_handle` and
    /// the handle returned by the next `insert` both carry the map's forecast
    /// identifier `predict_id(0)`, so they are one and the same handle.
    pub proof fn lemma_prediction_accuracy(self, predicted: Handle<T>, inserted: Handle<T>)
        requires
            predicted@ == self.predict_id(0),
            inserted@ == self.predict_id(0),
        ensures
            predicted == inserted,
    {
        Handle::lemma_eq_raw(predicted, inserted);
    }

    /// Returns an iterator that yields every live entry in the map, in slot
    /// order, as the owning handle and a reference to the value.
    pub fn iter<'a>(&'a self) -> (it: Iter<'a, T>)
        ensures
            it.map_spec() == *self,
            it.pos_spec() == 0,
    {
        Iter { map: self, pos: 0 }
    }

    /// Returns a cursor that yields every live entry in the map for in-place
    /// mutation; pass the map back to each call of its `next`.
    pub fn iter_mut(&mut self) -> (it: IterMut)
        ensures
            final(self).slots() == old(self).slots(),
            final(self).free() == old(self).free(),
            it.pos_spec() == 0,
    {
        IterMut { pos: 0 }
    }

    /// Returns an iterator that yields the handle of every live entry in the
    /// map, in slot order.
    pub fn handles<'a>(&'a self) -> (it: Handles<'a, T>)
        ensures
            it.map_spec() == *self,
            it.pos_spec() == 0,
    {
        Handles { map: self, pos: 0 }
    }

    /// Returns an iterator that yields a reference to every live value in the
    /// map, in slot order.
    pub fn values<'a>(&'a self) -> (it: Values<'a, T>)
        ensures
            it.map_spec() == *self,
            it.pos_spec() == 0,
    {
        Values { map: self, pos: 0 }
    }

    /// Returns a cursor that yields every live value in the map for in-place
    /// mutation; pass the map back to each call of its `next`.
    pub fn values_mut(&mut self) -> (it: ValuesMut)
        ensures
            final(self).slots() == old(self).slots(),
            final(self).free() == old(self).free(),
            it.pos_spec() == 0,
    {
        ValuesMut { pos: 0 }
    }

    /// Returns a reference to the value associated with `handle`, or `None`
    /// if the handle is stale or out of range.
    pub fn get(&self, handle: Handle<T>) -> (r: Option<&T>)
        ensures
            match r {
                Some(v) => self.valid_id(handle@) && *v == self.at_id(handle@),
                None => !self.valid_id(handle@),
            },
    {
        let i = handle.uindex();
        if i < self.values.len() {
            let (found, option) = &self.values[i];
            if handle == *found {
                option.as_ref()
            } else {
                None
            }
        } else {
            None
        }
    }
}

impl<T> Default for SparseHandleMap<T> {
    /// Builds an empty map, as `new` does.
    fn default() -> (r: Self)
        ensures
            r.inv(),
            r.slots() == Seq::<(Handle<T>, Option<T>)>::empty(),
            r.free() == Seq::<usize>::empty(),
    {
        Self::new()
    }
}

/// An iterator over a map's live entries, yielding each owning handle and a
/// reference to its value, in slot order.
pub struct Iter<'a, T> {
    map: &'a SparseHandleMap<T>,
    pos: usize,
}

impl<'a, T> Iter<'a, T> {
    /// The map being iterated.
    pub closed spec fn map_spec(self) -> SparseHandleMap<T> {
        *self.map
    }

    /// The next slot index the iterator will look at.
    pub closed spec fn pos_spec(self) -> int {
        self.pos as int
    }

    /// Yields the first live entry at or past the current position, or `None`
    /// when only empty slots are left.
    pub fn next(&mut self) -> (r: Option<(Handle<T>, &'a T)>)
        ensures
            final(self).map_spec() == old(self).map_spec(),
            old(self).pos_spec() <= final(self).pos_spec(),
            match r {
                Some(entry) => {
                    let m = old(self).map_spec();
                    let j = final(self).pos_spec() - 1;
                    &&& old(self).pos_spec() <= j < m.slots().len()
                    &&& m.slots()[j].0 == entry.0
                    &&& m.slots()[j].1 == Some(*entry.1)
                    &&& forall|k: int| old(self).pos_spec() <= k < j ==> m.slots()[k].1 is None
                },
                None => {
                    &&& final(self).pos_spec() >= old(self).map_spec().slots().len()
                    &&& forall|k: int|
                        old(self).pos_spec() <= k < old(self).map_spec().slots().len() ==> old(
                            self,
                        ).map_spec().slots()[k].1 is None
                },
            },
    {
        let m = self.map;
        loop
            invariant
                m == self.map,
                self.map == old(self).map,
                old(self).pos <= self.pos,
                forall|k: int|
                    old(self).pos_spec() <= k < self.pos as int ==> m.slots()[k].1 is None,
            decreases m.slots().len() - self.pos as int,
        {
            if self.pos >= m.values.len() {
                return None;
            }
            let j = self.pos;
            self.pos = j + 1;
            let (h, option) = &m.values[j];
            match option {
                Some(v) => {
                    return Some((*h, v));
                },
                None => {},
            }
        }
    }
}

/// An iterator over a map's live entries, yielding each owning handle, in
/// slot order.
pub struct Handles<'a, T> {
    map: &'a SparseHandleMap<T>,
    pos: usize,
}

impl<'a, T> Handles<'a, T> {
    /// The map being iterated.
    pub closed spec fn map_spec(self) -> SparseHandleMap<T> {
        *self.map
    }

    /// The next slot index the iterator will look at.
    pub closed spec fn pos_spec(self) -> int {
        self.pos as int
    }

    /// Yields the handle of the first live entry at or past the current
    /// position, or `None` when only empty slots are left.
    pub fn next(&mut self) -> (r: Option<Handle<T>>)
        ensures
            final(self).map_spec() == old(self).map_spec(),
            old(self).pos_spec() <= final(self).pos_spec(),
            match r {
                Some(h) => {
                    let m = old(self).map_spec();
                    let j = final(self).pos_spec() - 1;
                    &&& old(self).pos_spec() <= j < m.slots().len()
                    &&& m.slots()[j].0 == h
                    &&& m.slots()[j].1 is Some
                    &&& forall|k: int| old(self).pos_spec() <= k < j ==> m.slots()[k].1 is None
                },
                None => {
                    &&& final(self).pos_spec() >= old(self).map_spec().slots().len()
                    &&& forall|k: int|
                        old(self).pos_spec() <= k < old(self).map_spec().slots().len() ==> old(
                            self,
                        ).map_spec().slots()[k].1 is None
                },
            },
    {
        let m = self.map;
        loop
            invariant
                m == self.map,
                self.map == old(self).map,
                old(self).pos <= self.pos,
                forall|k: int|
                    old(self).pos_spec() <= k < self.pos as int ==> m.slots()[k].1 is None,
            decreases m.slots().len() - self.pos as int,
        {
            if self.pos >= m.values.len() {
                return None;
            }
            let j = self.pos;
            self.pos = j + 1;
            let (h, option) = &m.values[j];
            if option.is_some() {
                return Some(*h);
            }
        }
    }
}

/// An iterator over a map's live entries, yielding a reference to each value,
/// in slot order.
pub struct Values<'a, T> {
    map: &'a SparseHandleMap<T>,
    pos: usize,
}

impl<'a, T> Values<'a, T> {
    /// The map being iterated.
    pub closed spec fn map_spec(self) -> SparseHandleMap<T> {
        *self.map
    }

    /// The next slot index the iterator will look at.
    pub closed spec fn pos_spec(self) -> int {
        self.pos as int
    }

    /// Yields the value of the first live entry at or past the current
    /// position, or `None` when only empty slots are left.
    pub fn next(&mut self) -> (r: Option<&'a T>)
        ensures
            final(self).map_spec() == old(self).map_spec(),
            old(self).pos_spec() <= final(self).pos_spec(),
            match r {
                Some(v) => {
                    let m = old(self).map_spec();
                    let j = final(self).pos_spec() - 1;
                    &&& old(self).pos_spec() <= j < m.slots().len()
                    &&& m.slots()[j].1 == Some(*v)
                    &&& forall|k: int| old(self).pos_spec() <= k < j ==> m.slots()[k].1 is None
                },
                None => {
                    &&& final(self).pos_spec() >= old(self).map_spec().slots().len()
                    &&& forall|k: int|
                        old(self).pos_spec() <= k < old(self).map_spec().slots().len() ==> old(
                            self,
                        ).map_spec().slots()[k].1 is None
                },
            },
    {
        let m = self.map;
        loop
            invariant
                m == self.map,
                self.map == old(self).map,
                old(self).pos <= self.pos,
                forall|k: int|
                    old(self).pos_spec() <= k < self.pos as int ==> m.slots()[k].1 is None,
            decreases m.slots().len() - self.pos as int,
        {
            if self.pos >= m.values.len() {
                return None;
            }
            let j = self.pos;
            self.pos = j + 1;
            let (_, option) = &m.values[j];
            match option {
                Some(v) => {
                    return Some(v);
                },
                None => {},
            }
        }
    }
}

/// A cursor for mutating a map's live entries in slot order. It holds only a
/// position: each call to `next` borrows the map afresh, so no mutable borrow
/// has to be split across the yielded values.
pub struct IterMut {
    pos: usize,
}

impl IterMut {
    /// The next slot index the cursor will look at.
    pub closed spec fn pos_spec(self) -> int {
        self.pos as int
    }

    /// Yields the owning handle and a mutable reference to the value of the
    /// first live slot of `map` at or past the current position, or `None`
    /// when only empty slots are left.
    pub fn next<'m, T>(&mut self, map: &'m mut SparseHandleMap<T>) -> (r: Option<
        (Handle<T>, &'m mut T),
    >)
        requires
            old(map).inv(),
        ensures
            final(map).inv(),
            final(map).free() == old(map).free(),
            old(self).pos_spec() <= final(self).pos_spec(),
            match r {
                Some(entry) => {
                    let j = final(self).pos_spec() - 1;
                    &&& old(self).pos_spec() <= j < old(map).slots().len()
                    &&& old(map).slots()[j].0 == entry.0
                    &&& old(map).slots()[j].1 == Some(*entry.1)
                    &&& final(map).slots() == old(map).slots().update(
                        j,
                        (entry.0, Some(*final(r.unwrap().1))),
                    )
                    &&& forall|k: int| old(self).pos_spec() <= k < j ==> old(map).slots()[k].1 is None
                },
                None => {
                    &&& final(map).slots() =~= old(map).slots()
                    &&& final(self).pos_spec() >= old(map).slots().len()
                    &&& forall|k: int|
                        old(self).pos_spec() <= k < old(map).slots().len() ==> old(
                            map,
                        ).slots()[k].1 is None
                },
            },
    {
        while self.pos < map.values.len()
            invariant
                old(map).inv(),
                map.slots() == old(map).slots(),
                map.free() == old(map).free(),
                old(self).pos <= self.pos,
                forall|k: int|
                    old(self).pos_spec() <= k < self.pos as int ==> old(map).slots()[k].1 is None,
            decreases map.slots().len() - self.pos as int,
        {
            let j = self.pos;
            self.pos = j + 1;
            if self.map_slot_is_live(map, j) {
                let slot = &mut map.values[j];
                let h = slot.0;
                match slot.1.as_mut() {
                    Some(v) => {
                        return Some((h, v));
                    },
                    None => {
                        return vstd::pervasive::unreached();
                    },
                }
            }
        }
        None
    }

    /// Whether slot `j` of `map` currently holds a value.
    fn map_slot_is_live<T>(&self, map: &SparseHandleMap<T>, j: usize) -> (r: bool)
        requires
            j < map.slots().len(),
        ensures
            r == (map.slots()[j as int].1 is Some),
    {
        map.values[j].1.is_some()
    }
}

/// A cursor for mutating a map's live values in slot order. It holds only a
/// position: each call to `next` borrows the map afresh, so no mutable borrow
/// has to be split across the yielded values.
pub struct ValuesMut {
    pos: usize,
}

impl ValuesMut {
    /// The next slot index the cursor will look at.
    pub closed spec fn pos_spec(self) -> int {
        self.pos as int
    }

    /// Yields a mutable reference to the value of the first live slot of
    /// `map` at or past the current position, or `None` when only empty slots
    /// are left.
    pub fn next<'m, T>(&mut self, map: &'m mut SparseHandleMap<T>) -> (r: Option<&'m mut T>)
        requires
            old(map).inv(),
        ensures
            final(map).inv(),
            final(map).free() == old(map).free(),
            old(self).pos_spec() <= final(self).pos_spec(),
            match r {
                Some(v) => {
                    let j = final(self).pos_spec() - 1;
                    &&& old(self).pos_spec() <= j < old(map).slots().len()
                    &&& old(map).slots()[j].1 == Some(*v)
                    &&& final(map).slots() == old(map).slots().update(
                        j,
                        (old(map).slots()[j].0, Some(*final(r.unwrap()))),
                    )
                    &&& forall|k: int| old(self).pos_spec() <= k < j ==> old(map).slots()[k].1 is None
                },
                None => {
                    &&& final(map).slots() =~= old(map).slots()
                    &&& final(self).pos_spec() >= old(map).slots().len()
                    &&& forall|k: int|
                        old(self).pos_spec() <= k < old(map).slots().len() ==> old(
                            map,
                        ).slots()[k].1 is None
                },
            },
    {
        while self.pos < map.values.len()
            invariant
                old(map).inv(),
                map.slots() == old(map).slots(),
                map.free() == old(map).free(),
                old(self).pos <= self.pos,
                forall|k: int|
                    old(self).pos_spec() <= k < self.pos as int ==> old(map).slots()[k].1 is None,
            decreases map.slots().len() - self.pos as int,
        {
            let j = self.pos;
            self.pos = j + 1;
            if self.slot_is_live(map, j) {
                let slot = &mut map.values[j];
                match slot.1.as_mut() {
                    Some(v) => {
                        return Some(v);
                    },
                    None => {
                        return vstd::pervasive::unreached();
                    },
                }
            }
        }
        None
    }

    /// Whether slot `j` of `map` currently holds a value.
    fn slot_is_live<T>(&self, map: &SparseHandleMap<T>, j: usize) -> (r: bool)
        requires
            j < map.slots().len(),
        ensures
            r == (map.slots()[j as int].1 is Some),
    {
        map.values[j].1.is_some()
    }
}

} // verus!
