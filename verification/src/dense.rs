//! The dense map: values live in one contiguous array for cache-friendly
//! iteration, while a sparse map translates each externally visible handle
//! into the value's current position. Removal swap-removes the array and
//! relinks the one entry that moved into the vacated position.

use crate::handle::Handle;
use crate::sparse::{vec_capacity, SparseHandleMap};
use vstd::prelude::*;

verus! {

/// A map from handles to values that keeps its values contiguous, composing a
/// sparse map as an indirection layer from handles to positions.
pub struct DenseHandleMap<T> {
    link: SparseHandleMap<usize>,
    values: Vec<(Handle<T>, T)>,
}

impl<T> DenseHandleMap<T> {
    /// The indirection layer from raw handle identifiers to positions in the
    /// dense array.
    pub closed spec fn link_spec(self) -> SparseHandleMap<usize> {
        self.link
    }

    /// The dense array, in compaction order: each entry pairs a value with
    /// the handle that owns it.
    pub closed spec fn entries(self) -> Seq<(Handle<T>, T)> {
        self.values@
    }

    /// Well-formedness: the indirection layer is itself well-formed, holds
    /// one position per dense entry, and agrees with the dense array in both
    /// directions: a live handle's position carries that handle's entry, and
    /// every entry's handle links back to the entry's position.
    pub open spec fn inv(self) -> bool {
        &&& self.link_spec().inv()
        &&& self.link_spec().spec_len() == self.entries().len()
        &&& forall|id: u64|
            #[trigger] self.link_spec().valid_id(id) ==> self.link_spec().at_id(id) < self.entries().len()
                && self.entries()[self.link_spec().at_id(id) as int].0@ == id
        &&& forall|i: int|
            0 <= i < self.entries().len() ==> self.link_spec().valid_id(
                (#[trigger] self.entries()[i]).0@,
            ) && self.link_spec().at_id(self.entries()[i].0@) == i
    }

    /// Whether raw identifier `id` currently names a live value.
    pub open spec fn valid_id(self, id: u64) -> bool {
        self.link_spec().valid_id(id)
    }

    /// The value behind raw identifier `id`.
    pub open spec fn at_id(self, id: u64) -> T
        recommends
            self.valid_id(id),
    {
        self.entries()[self.link_spec().at_id(id) as int].1
    }

    /// The map as a partial lookup from raw identifiers to values.
    pub open spec fn spec_get(self, id: u64) -> Option<T> {
        if self.valid_id(id) {
            Some(self.at_id(id))
        } else {
            None
        }
    }

    /// The number of values in the map.
    pub open spec fn spec_len(self) -> int {
        self.entries().len() as int
    }

    /// Whether one more insert stays within the 32-bit slot index space of
    /// the indirection layer.
    pub open spec fn can_insert(self) -> bool {
        self.link_spec().can_insert()
    }

    /// Builds an empty map.
    pub fn new() -> (r: Self)
        ensures
            r.inv(),
            r.entries() == Seq::<(Handle<T>, T)>::empty(),
            r.spec_len() == 0,
            r.link_spec().slots() == Seq::<(Handle<usize>, Option<usize>)>::empty(),
            r.link_spec().free() == Seq::<usize>::empty(),
    {
        DenseHandleMap { link: SparseHandleMap::new(), values: Vec::new() }
    }

    /// Returns the number of values in the map.
    pub fn len(&self) -> (r: usize)
        ensures
            r == self.spec_len(),
    {
        self.values.len()
    }

    /// Returns the total number of elements the map can hold without
    /// reallocating; never less than `len`.
    pub fn capacity(&self) -> (r: usize)
        ensures
            r >= self.spec_len(),
    {
        vec_capacity(&self.values)
    }

    /// Returns `true` if the map contains no elements.
    pub fn is_empty(&self) -> (r: bool)
        ensures
            r == (self.spec_len() == 0),
    {
        self.values.is_empty()
    }

    /// Returns a reference to the value associated with `handle`, or `None`
    /// if the handle is stale or out of range.
    pub fn get(&self, handle: Handle<T>) -> (r: Option<&T>)
        requires
            self.inv(),
        ensures
            match r {
                Some(v) => self.valid_id(handle@) && *v == self.at_id(handle@),
                None => !self.valid_id(handle@),
            },
    {
        match self.link.get(handle.cast()) {
            Some(index) => Some(&self.values[*index].1),
            None => None,
        }
    }

    /// Returns a mutable reference to the value associated with `handle`, or
    /// `None` if the handle is stale or out of range.
    pub fn get_mut(&mut self, handle: Handle<T>) -> (r: Option<&mut T>)
        requires
            old(self).inv(),
        ensures
            final(self).inv(),
            r is Some <==> old(self).valid_id(handle@),
            r is None ==> final(self).entries() =~= old(self).entries() && final(self).link_spec()
                == old(self).link_spec(),
            r is Some ==> ({
                let p = old(self).link_spec().at_id(handle@) as int;
                &&& *r.unwrap() == old(self).at_id(handle@)
                &&& final(self).entries() == old(self).entries().update(
                    p,
                    (old(self).entries()[p].0, *final(r.unwrap())),
                )
                &&& final(self).link_spec() == old(self).link_spec()
                &&& final(self).valid_id(handle@)
                &&& final(self).at_id(handle@) == *final(r.unwrap())
                &&& final(self).spec_len() == old(self).spec_len()
                &&& forall|id: u64|
                    id != handle@ ==> final(self).spec_get(id) == old(self).spec_get(id)
            }),
    {
        let index: usize = match self.link.get(handle.cast()) {
            Some(i) => *i,
            None => {
                return None;
            },
        };
        let slot = &mut self.values[index];
        Some(&mut slot.1)
    }

    /// Returns a reference to the value associated with `handle`, which the
    /// caller must know to be valid; the recoverable counterpart is `get`.
    pub fn index(&self, handle: Handle<T>) -> (r: &T)
        requires
            self.inv(),
            self.valid_id(handle@),
        ensures
            *r == self.at_id(handle@),
    {
        match self.get(handle) {
            Some(v) => v,
            None => vstd::pervasive::unreached(),
        }
    }

    /// Returns a mutable reference to the value associated with `handle`,
    /// which the caller must know to be valid; the recoverable counterpart is
    /// `get_mut`.
    pub fn index_mut(&mut self, handle: Handle<T>) -> (r: &mut T)
        requires
            old(self).inv(),
            old(self).valid_id(handle@),
        ensures
            final(self).inv(),
            *r == old(self).at_id(handle@),
            ({
                let p = old(self).link_spec().at_id(handle@) as int;
                &&& final(self).entries() == old(self).entries().update(
                    p,
                    (old(self).entries()[p].0, *final(r)),
                )
                &&& final(self).link_spec() == old(self).link_spec()
                &&& final(self).valid_id(handle@)
                &&& final(self).at_id(handle@) == *final(r)
                &&& final(self).spec_len() == old(self).spec_len()
                &&& forall|id: u64|
                    id != handle@ ==> final(self).spec_get(id) == old(self).spec_get(id)
            }),
    {
        match self.get_mut(handle) {
            Some(v) => v,
            None => vstd::pervasive::unreached(),
        }
    }

    /// Inserts `value` into the map, returning the handle to it. The value is
    /// appended to the dense array and the indirection layer records its
    /// position under a fresh handle. The new entry is immediately visible
    /// through `get`, every other entry is untouched, and the length grows by
    /// one.
    pub fn insert(&mut self, value: T) -> (h: Handle<T>)
        requires
            old(self).inv(),
            old(self).can_insert(),
        ensures
            final(self).inv(),
            !old(self).valid_id(h@),
            final(self).valid_id(h@),
            final(self).at_id(h@) == value,
            final(self).spec_get(h@) == Some(value),
            final(self).spec_len() == old(self).spec_len() + 1,
            final(self).entries() == old(self).entries().push((h, value)),
            forall|id: u64| id != h@ ==> final(self).spec_get(id) == old(self).spec_get(id),
            final(self).link_spec().slots().len() == if old(self).link_spec().free().len() > 0 {
                old(self).link_spec().slots().len() as int
            } else {
                old(self).link_spec().slots().len() as int + 1
            },
            final(self).link_spec().free().len() == if old(self).link_spec().free().len() > 0 {
                old(self).link_spec().free().len() as int - 1
            } else {
                old(self).link_spec().free().len() as int
            },
    {
        let new_index = self.values.len();
        let h: Handle<T> = self.link.insert(new_index).cast();
        self.values.push((h, value));
        proof {
            let pre = *old(self);
            let n = pre.entries().len() as int;
            assert forall|id: u64| #[trigger] self.link_spec().valid_id(id) implies self.link_spec()
                .at_id(id) < self.entries().len() && self.entries()[self.link_spec().at_id(
                id,
            ) as int].0@ == id by {
                if id != h@ {
                    assert(pre.link_spec().spec_get(id) == self.link_spec().spec_get(id));
                    assert(pre.link_spec().valid_id(id));
                    assert(self.entries()[pre.link_spec().at_id(id) as int] == pre.entries()[
                        pre.link_spec().at_id(id) as int]);
                }
            }
            assert forall|i: int|
                0 <= i < self.entries().len() implies self.link_spec().valid_id(
                (#[trigger] self.entries()[i]).0@,
            ) && self.link_spec().at_id(self.entries()[i].0@) == i by {
                if i < n {
                    assert(pre.link_spec().valid_id(pre.entries()[i].0@));
                    assert(self.entries()[i] == pre.entries()[i]);
                    assert(self.entries()[i].0@ != h@);
                }
            }
            assert forall|id: u64| id != h@ implies self.spec_get(id) == pre.spec_get(id) by {
                if pre.link_spec().valid_id(id) {
                    assert(pre.link_spec().at_id(id) < n);
                }
            }
        }
        h
    }

    /// Removes the value associated with `handle` from the map and returns
    /// it, or returns `None` if the handle is stale or out of range. The
    /// vacated position is filled by swap-removal: the last dense entry moves
    /// into it, and that entry's position record in the indirection layer is
    /// relinked to match, so every other handle still resolves to its value.
    pub fn remove(&mut self, handle: Handle<T>) -> (r: Option<T>)
        requires
            old(self).inv(),
        ensures
            final(self).inv(),
            match r {
                Some(v) => {
                    let p = old(self).link_spec().at_id(handle@) as int;
                    &&& old(self).valid_id(handle@)
                    &&& v == old(self).at_id(handle@)
                    &&& final(self).spec_len() == old(self).spec_len() - 1
                    &&& final(self).spec_get(handle@) is None
                    &&& forall|id: u64|
                        id != handle@ ==> final(self).spec_get(id) == old(self).spec_get(id)
                    &&& final(self).entries() == old(self).entries().update(
                        p,
                        old(self).entries().last(),
                    ).drop_last()
                    &&& final(self).link_spec().slots().len() == old(
                        self,
                    ).link_spec().slots().len()
                    &&& final(self).link_spec().free().len() == old(self).link_spec().free().len()
                        + 1
                },
                None => {
                    &&& !old(self).valid_id(handle@)
                    &&& final(self).entries() =~= old(self).entries()
                    &&& final(self).link_spec().slots() =~= old(self).link_spec().slots()
                    &&& final(self).link_spec().free() == old(self).link_spec().free()
                },
            },
    {
        let ghost pre = *old(self);
        let ghost n = pre.entries().len() as int;
        let index: usize = match self.link.remove(handle.cast()) {
            Some(i) => i,
            None => {
                proof {
                    assert(self.link_spec().slots() == pre.link_spec().slots());
                    assert forall|id: u64| #[trigger] self.link_spec().valid_id(id) implies self
                        .link_spec().at_id(id) < self.entries().len() && self.entries()[self
                        .link_spec().at_id(id) as int].0@ == id by {
                        assert(pre.link_spec().valid_id(id));
                    }
                    assert forall|i: int|
                        0 <= i < self.entries().len() implies self.link_spec().valid_id(
                        (#[trigger] self.entries()[i]).0@,
                    ) && self.link_spec().at_id(self.entries()[i].0@) == i by {
                        assert(pre.link_spec().valid_id(pre.entries()[i].0@));
                    }
                }
                return None;
            },
        };
        let ghost link1 = self.link;
        let (_, value) = self.values.swap_remove(index);
        if index < self.values.len() {
            let moved: Handle<T> = self.values[index].0;
            proof {
                assert(moved == pre.entries()[n - 1].0);
                assert(pre.link_spec().valid_id(moved@) && pre.link_spec().at_id(moved@) == n
                    - 1);
                assert(moved@ != handle@);
                assert(link1.spec_get(moved@) == pre.link_spec().spec_get(moved@));
            }
            let p = self.link.index_mut(moved.cast());
            *p = index;
            proof {
                self.lemma_remove_relink(pre, link1, handle, moved, index);
            }
        } else {
            proof {
                assert(index as int == n - 1);
                assert forall|id: u64| #[trigger] self.link_spec().valid_id(id) implies self
                    .link_spec().at_id(id) < self.entries().len() && self.entries()[self.link_spec()
                    .at_id(id) as int].0@ == id by {
                    assert(link1.spec_get(id) == pre.link_spec().spec_get(id));
                    assert(pre.link_spec().valid_id(id));
                    let p2 = pre.link_spec().at_id(id) as int;
                    assert(pre.entries()[p2].0@ == id);
                    assert(p2 != n - 1);
                    assert(self.entries()[p2] == pre.entries()[p2]);
                }
                assert forall|i: int|
                    0 <= i < self.entries().len() implies self.link_spec().valid_id(
                    (#[trigger] self.entries()[i]).0@,
                ) && self.link_spec().at_id(self.entries()[i].0@) == i by {
                    assert(self.entries()[i] == pre.entries()[i]);
                    let id = pre.entries()[i].0@;
                    assert(pre.link_spec().valid_id(id) && pre.link_spec().at_id(id) == i);
                    assert(id != handle@);
                    assert(link1.spec_get(id) == pre.link_spec().spec_get(id));
                }
                assert forall|id: u64| id != handle@ implies self.spec_get(id) == pre.spec_get(
                    id,
                ) by {
                    assert(link1.spec_get(id) == pre.link_spec().spec_get(id));
                    if pre.link_spec().valid_id(id) {
                        let p2 = pre.link_spec().at_id(id) as int;
                        assert(pre.entries()[p2].0@ == id);
                        assert(p2 != n - 1);
                        assert(self.entries()[p2] == pre.entries()[p2]);
                    }
                }
            }
        }
        Some(value)
    }

    /// After a swap-removal that moved the last dense entry into position
    /// `index` and relinked that entry, the whole map is well-formed again
    /// and every handle but the removed one resolves as before.
    proof fn lemma_remove_relink(
        self,
        pre: Self,
        link1: SparseHandleMap<usize>,
        handle: Handle<T>,
        moved: Handle<T>,
        index: usize,
    )
        requires
            pre.inv(),
            pre.link_spec().valid_id(handle@),
            pre.link_spec().at_id(handle@) == index,
            index < pre.entries().len() - 1,
            moved == pre.entries()[pre.entries().len() - 1].0,
            moved@ != handle@,
            link1.inv(),
            link1.spec_len() == pre.link_spec().spec_len() - 1,
            link1.spec_get(handle@) is None,
            forall|id: u64|
                id != handle@ ==> link1.spec_get(id) == pre.link_spec().spec_get(id),
            self.link_spec().inv(),
            self.link_spec().spec_len() == link1.spec_len(),
            self.link_spec().valid_id(moved@),
            self.link_spec().at_id(moved@) == index,
            forall|id: u64| id != moved@ ==> self.link_spec().spec_get(id) == link1.spec_get(id),
            self.entries() == pre.entries().update(
                index as int,
                pre.entries().last(),
            ).drop_last(),
        ensures
            self.inv(),
            self.spec_len() == pre.spec_len() - 1,
            self.spec_get(handle@) is None,
            forall|id: u64| id != handle@ ==> self.spec_get(id) == pre.spec_get(id),
    {
        let n = pre.entries().len() as int;
        assert(pre.link_spec().valid_id(moved@) && pre.link_spec().at_id(moved@) == n - 1);
        assert(self.entries().len() == n - 1);
        assert(self.entries()[index as int] == pre.entries()[n - 1]);
        assert forall|id: u64| #[trigger] self.link_spec().valid_id(id) implies self.link_spec()
            .at_id(id) < self.entries().len() && self.entries()[self.link_spec().at_id(
            id,
        ) as int].0@ == id by {
            if id != moved@ {
                assert(link1.spec_get(id) == pre.link_spec().spec_get(id));
                assert(pre.link_spec().valid_id(id));
                let p2 = pre.link_spec().at_id(id) as int;
                assert(pre.entries()[p2].0@ == id);
                assert(p2 != index as int);
                assert(p2 != n - 1);
                assert(self.entries()[p2] == pre.entries()[p2]);
            }
        }
        assert forall|i: int|
            0 <= i < self.entries().len() implies self.link_spec().valid_id(
            (#[trigger] self.entries()[i]).0@,
        ) && self.link_spec().at_id(self.entries()[i].0@) == i by {
            if i != index as int {
                assert(self.entries()[i] == pre.entries()[i]);
                let id = pre.entries()[i].0@;
                assert(pre.link_spec().valid_id(id) && pre.link_spec().at_id(id) == i);
                assert(id != handle@);
                assert(id != moved@);
                assert(link1.spec_get(id) == pre.link_spec().spec_get(id));
                assert(self.link_spec().spec_get(id) == link1.spec_get(id));
            }
        }
        assert forall|id: u64| id != handle@ implies self.spec_get(id) == pre.spec_get(id) by {
            if id == moved@ {
                assert(self.at_id(id) == pre.entries()[n - 1].1);
                assert(pre.at_id(id) == pre.entries()[n - 1].1);
            } else {
                assert(self.link_spec().spec_get(id) == link1.spec_get(id));
                assert(link1.spec_get(id) == pre.link_spec().spec_get(id));
                if pre.link_spec().valid_id(id) {
                    let p2 = pre.link_spec().at_id(id) as int;
                    assert(pre.entries()[p2].0@ == id);
                    assert(p2 != index as int);
                    assert(p2 != n - 1);
                    assert(self.entries()[p2] == pre.entries()[p2]);
                }
            }
        }
        assert(self.spec_get(handle@) is None);
    }

    /// Returns an iterator that yields every entry in the map, in dense
    /// (compaction) order, as the owning handle and a reference to the value.
    pub fn iter<'a>(&'a self) -> (it: Iter<'a, T>)
        ensures
            it.map_spec() == *self,
            it.pos_spec() == 0,
    {
        Iter { map: self, pos: 0 }
    }

    /// Returns a cursor that yields every entry in the map for in-place
    /// mutation; pass the map back to each call of its `next`.
    pub fn iter_mut(&mut self) -> (it: IterMut)
        ensures
            final(self).entries() == old(self).entries(),
            final(self).link_spec() == old(self).link_spec(),
            it.pos_spec() == 0,
    {
        IterMut { pos: 0 }
    }

    /// Returns an iterator that yields the handle of every entry in the map,
    /// in dense order.
    pub fn handles<'a>(&'a self) -> (it: Handles<'a, T>)
        ensures
            it.map_spec() == *self,
            it.pos_spec() == 0,
    {
        Handles { map: self, pos: 0 }
    }

    /// Returns an iterator that yields a reference to every value in the map,
    /// in dense order.
    pub fn values<'a>(&'a self) -> (it: Values<'a, T>)
        ensures
            it.map_spec() == *self,
            it.pos_spec() == 0,
    {
        Values { map: self, pos: 0 }
    }

    /// Returns a cursor that yields every value in the map for in-place
    /// mutation; pass the map back to each call of its `next`.
    pub fn values_mut(&mut self) -> (it: ValuesMut)
        ensures
            final(self).entries() == old(self).entries(),
            final(self).link_spec() == old(self).link_spec(),
            it.pos_spec() == 0,
    {
        ValuesMut { pos: 0 }
    }
}

impl<T> Default for DenseHandleMap<T> {
    /// Builds an empty map, as `new` does.
    fn default() -> (r: Self)
        ensures
            r.inv(),
            r.entries() == Seq::<(Handle<T>, T)>::empty(),
            r.link_spec().slots() == Seq::<(Handle<usize>, Option<usize>)>::empty(),
            r.link_spec().free() == Seq::<usize>::empty(),
    {
        Self::new()
    }
}

/// An iterator over a map's entries, yielding each owning handle and a
/// reference to its value, in dense order.
pub struct Iter<'a, T> {
    map: &'a DenseHandleMap<T>,
    pos: usize,
}

impl<'a, T> Iter<'a, T> {
    /// The map being iterated.
    pub closed spec fn map_spec(self) -> DenseHandleMap<T> {
        *self.map
    }

    /// The next dense position the iterator will yield.
    pub closed spec fn pos_spec(self) -> int {
        self.pos as int
    }

    /// Yields the entry at the current position, or `None` past the end.
    pub fn next(&mut self) -> (r: Option<(Handle<T>, &'a T)>)
        ensures
            final(self).map_spec() == old(self).map_spec(),
            match r {
                Some(entry) => {
                    let m = old(self).map_spec();
                    let j = old(self).pos_spec();
                    &&& final(self).pos_spec() == j + 1
                    &&& 0 <= j < m.entries().len()
                    &&& m.entries()[j].0 == entry.0
                    &&& m.entries()[j].1 == *entry.1
                },
                None => {
                    &&& old(self).pos_spec() >= old(self).map_spec().entries().len()
                    &&& final(self).pos_spec() == old(self).pos_spec()
                },
            },
    {
        let m = self.map;
        if self.pos >= m.values.len() {
            return None;
        }
        let j = self.pos;
        self.pos = j + 1;
        let (h, v) = &m.values[j];
        Some((*h, v))
    }
}

/// An iterator over a map's entries, yielding each owning handle, in dense
/// order.
pub struct Handles<'a, T> {
    map: &'a DenseHandleMap<T>,
    pos: usize,
}

impl<'a, T> Handles<'a, T> {
    /// The map being iterated.
    pub closed spec fn map_spec(self) -> DenseHandleMap<T> {
        *self.map
    }

    /// The next dense position the iterator will yield.
    pub closed spec fn pos_spec(self) -> int {
        self.pos as int
    }

    /// Yields the handle at the current position, or `None` past the end.
    pub fn next(&mut self) -> (r: Option<Handle<T>>)
        ensures
            final(self).map_spec() == old(self).map_spec(),
            match r {
                Some(h) => {
                    let m = old(self).map_spec();
                    let j = old(self).pos_spec();
                    &&& final(self).pos_spec() == j + 1
                    &&& 0 <= j < m.entries().len()
                    &&& m.entries()[j].0 == h
                },
                None => {
                    &&& old(self).pos_spec() >= old(self).map_spec().entries().len()
                    &&& final(self).pos_spec() == old(self).pos_spec()
                },
            },
    {
        let m = self.map;
        if self.pos >= m.values.len() {
            return None;
        }
        let j = self.pos;
        self.pos = j + 1;
        Some(m.values[j].0)
    }
}

/// An iterator over a map's values, in dense order.
pub struct Values<'a, T> {
    map: &'a DenseHandleMap<T>,
    pos: usize,
}

impl<'a, T> Values<'a, T> {
    /// The map being iterated.
    pub closed spec fn map_spec(self) -> DenseHandleMap<T> {
        *self.map
    }

    /// The next dense position the iterator will yield.
    pub closed spec fn pos_spec(self) -> int {
        self.pos as int
    }

    /// Yields the value at the current position, or `None` past the end.
    pub fn next(&mut self) -> (r: Option<&'a T>)
        ensures
            final(self).map_spec() == old(self).map_spec(),
            match r {
                Some(v) => {
                    let m = old(self).map_spec();
                    let j = old(self).pos_spec();
                    &&& final(self).pos_spec() == j + 1
                    &&& 0 <= j < m.entries().len()
                    &&& m.entries()[j].1 == *v
                },
                None => {
                    &&& old(self).pos_spec() >= old(self).map_spec().entries().len()
                    &&& final(self).pos_spec() == old(self).pos_spec()
                },
            },
    {
        let m = self.map;
        if self.pos >= m.values.len() {
            return None;
        }
        let j = self.pos;
        self.pos = j + 1;
        let (_, v) = &m.values[j];
        Some(v)
    }
}

/// A cursor for mutating a map's entries in dense order. It holds only a
/// position: each call to `next` borrows the map afresh, so no mutable borrow
/// has to be split across the yielded values.
pub struct IterMut {
    pos: usize,
}

impl IterMut {
    /// The next dense position the cursor will yield.
    pub closed spec fn pos_spec(self) -> int {
        self.pos as int
    }

    /// Yields the owning handle and a mutable reference to the value at the
    /// current position of `map`, or `None` past the end.
    pub fn next<'m, T>(&mut self, map: &'m mut DenseHandleMap<T>) -> (r: Option<
        (Handle<T>, &'m mut T),
    >)
        requires
            old(map).inv(),
        ensures
            final(map).inv(),
            final(map).link_spec() == old(map).link_spec(),
            match r {
                Some(entry) => {
                    let j = old(self).pos_spec();
                    &&& final(self).pos_spec() == j + 1
                    &&& 0 <= j < old(map).entries().len()
                    &&& old(map).entries()[j].0 == entry.0
                    &&& old(map).entries()[j].1 == *entry.1
                    &&& final(map).entries() == old(map).entries().update(
                        j,
                        (entry.0, *final(r.unwrap().1)),
                    )
                },
                None => {
                    &&& old(self).pos_spec() >= old(map).entries().len()
                    &&& final(self).pos_spec() == old(self).pos_spec()
                    &&& final(map).entries() =~= old(map).entries()
                },
            },
    {
        if self.pos >= map.values.len() {
            return None;
        }
        let j = self.pos;
        self.pos = j + 1;
        let slot = &mut map.values[j];
        let h = slot.0;
        Some((h, &mut slot.1))
    }
}

/// A cursor for mutating a map's values in dense order. It holds only a
/// position: each call to `next` borrows the map afresh, so no mutable borrow
/// has to be split across the yielded values.
pub struct ValuesMut {
    pos: usize,
}

impl ValuesMut {
    /// The next dense position the cursor will yield.
    pub closed spec fn pos_spec(self) -> int {
        self.pos as int
    }

    /// Yields a mutable reference to the value at the current position of
    /// `map`, or `None` past the end.
    pub fn next<'m, T>(&mut self, map: &'m mut DenseHandleMap<T>) -> (r: Option<&'m mut T>)
        requires
            old(map).inv(),
        ensures
            final(map).inv(),
            final(map).link_spec() == old(map).link_spec(),
            match r {
                Some(v) => {
                    let j = old(self).pos_spec();
                    &&& final(self).pos_spec() == j + 1
                    &&& 0 <= j < old(map).entries().len()
                    &&& old(map).entries()[j].1 == *v
                    &&& final(map).entries() == old(map).entries().update(
                        j,
                        (old(map).entries()[j].0, *final(r.unwrap())),
                    )
                },
                None => {
                    &&& old(self).pos_spec() >= old(map).entries().len()
                    &&& final(self).pos_spec() == old(self).pos_spec()
                    &&& final(map).entries() =~= old(map).entries()
                },
            },
    {
        if self.pos >= map.values.len() {
            return None;
        }
        let j = self.pos;
        self.pos = j + 1;
        let slot = &mut map.values[j];
        Some(&mut slot.1)
    }
}

} // verus!
