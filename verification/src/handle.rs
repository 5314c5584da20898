//! The handle type: a 64-bit identifier packing a 32-bit generation (`meta`)
//! above a 32-bit slot index, tagged at compile time with the value type it
//! refers to.

use core::marker::PhantomData;
use vstd::prelude::*;

verus! {

/// The generation half of a raw identifier.
pub open spec fn meta_of(id: u64) -> u32 {
    (id / 0x1_0000_0000) as u32
}

/// The slot-index half of a raw identifier.
pub open spec fn index_of(id: u64) -> u32 {
    (id % 0x1_0000_0000) as u32
}

/// The raw identifier packing generation `meta` above slot index `index`.
pub open spec fn pack(meta: u32, index: u32) -> u64 {
    (meta * 0x1_0000_0000 + index) as u64
}

/// A generation bumped by one, wrapping to zero at the 32-bit limit.
pub open spec fn next_meta(meta: u32) -> u32 {
    if meta == u32::MAX {
        0u32
    } else {
        (meta + 1) as u32
    }
}

pub proof fn lemma_pack_unpack(meta: u32, index: u32)
    ensures
        meta_of(pack(meta, index)) == meta,
        index_of(pack(meta, index)) == index,
{
    assert((meta * 0x1_0000_0000 + index) / 0x1_0000_0000 == meta && (meta * 0x1_0000_0000
        + index) % 0x1_0000_0000 == index) by (nonlinear_arith)
        requires
            0 <= meta < 0x1_0000_0000,
            0 <= index < 0x1_0000_0000,
    ;
}

/// An opaque, copyable reference to a value in a map: a generation and a slot
/// index packed into one 64-bit identifier. The type parameter is a
/// compile-time tag only and has no runtime representation; two handles are
/// equal exactly when their raw identifiers are.
#[derive(Debug, Hash)]
pub struct Handle<T> {
    id: u64,
    _type: PhantomData<T>,
}

impl<T> View for Handle<T> {
    type V = u64;

    /// The raw 64-bit identifier.
    closed spec fn view(&self) -> u64 {
        self.id
    }
}

impl<T> Handle<T> {
    /// The generation half of the handle.
    pub open spec fn meta_spec(self) -> u32 {
        meta_of(self@)
    }

    /// The slot-index half of the handle.
    pub open spec fn index_spec(self) -> u32 {
        index_of(self@)
    }

    /// Two handles with the same raw identifier are the same handle.
    pub proof fn lemma_eq_raw(h1: Handle<T>, h2: Handle<T>)
        ensures
            (h1 == h2) <==> (h1@ == h2@),
    {
    }

    /// Reinterprets the handle as referring to another value type, keeping
    /// the bit pattern. Unchecked: nothing ties the result to any map, so
    /// this is meant for internal plumbing, not for general use.
    #[inline]
    pub fn cast<T2>(self) -> (r: Handle<T2>)
        ensures
            r@ == self@,
    {
        Handle { id: self.id, _type: PhantomData }
    }

    /// Builds a handle straight from a raw 64-bit identifier.
    #[inline]
    pub fn from_raw(id: u64) -> (r: Self)
        ensures
            r@ == id,
    {
        Handle { id, _type: PhantomData }
    }

    /// Builds a handle from an explicit (generation, slot index) pair.
    #[inline]
    pub fn from_parts(meta: u32, index: u32) -> (r: Self)
        ensures
            r@ == pack(meta, index),
            r.meta_spec() == meta,
            r.index_spec() == index,
    {
        proof {
            lemma_pack_unpack(meta, index);
        }
        Handle { id: (meta as u64) * 0x1_0000_0000 + (index as u64), _type: PhantomData }
    }

    /// The raw 64-bit identifier.
    #[inline]
    pub fn raw(self) -> (r: u64)
        ensures
            r == self@,
    {
        self.id
    }

    /// The slot-index half of the handle.
    #[inline]
    pub fn index(self) -> (r: u32)
        ensures
            r == self.index_spec(),
    {
        (self.id % 0x1_0000_0000) as u32
    }

    /// The slot-index half of the handle, widened for array indexing.
    #[inline]
    pub fn uindex(self) -> (r: usize)
        ensures
            r == self.index_spec() as usize,
    {
        self.index() as usize
    }

    /// The generation half of the handle.
    #[inline]
    pub fn meta(self) -> (r: u32)
        ensures
            r == self.meta_spec(),
    {
        (self.id / 0x1_0000_0000) as u32
    }
}

impl<T> Clone for Handle<T> {
    #[inline]
    fn clone(&self) -> (r: Self)
        ensures
            r == *self,
    {
        Handle { id: self.id, _type: PhantomData }
    }
}

impl<T> Copy for Handle<T> {

}

impl<T> PartialEq for Handle<T> {
    #[inline]
    fn eq(&self, other: &Self) -> bool {
        self.id == other.id
    }
}

impl<T> vstd::std_specs::cmp::PartialEqSpecImpl for Handle<T> {
    open spec fn obeys_eq_spec() -> bool {
        true
    }

    open spec fn eq_spec(&self, other: &Self) -> bool {
        self@ == other@
    }
}

impl<T> Eq for Handle<T> {

}

impl<T> PartialOrd for Handle<T> {
    #[inline]
    fn partial_cmp(&self, other: &Self) -> Option<core::cmp::Ordering> {
        self.id.partial_cmp(&other.id)
    }
}

impl<T> vstd::std_specs::cmp::PartialOrdSpecImpl for Handle<T> {
    open spec fn obeys_partial_cmp_spec() -> bool {
        true
    }

    open spec fn partial_cmp_spec(&self, other: &Self) -> Option<core::cmp::Ordering> {
        if self@ < other@ {
            Some(core::cmp::Ordering::Less)
        } else if self@ == other@ {
            Some(core::cmp::Ordering::Equal)
        } else {
            Some(core::cmp::Ordering::Greater)
        }
    }
}

} // verus!
