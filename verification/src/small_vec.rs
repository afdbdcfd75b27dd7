//! `SmallVec<T, N>`: a vector that holds up to `N` elements in its inline
//! buffer and moves them to a heap allocation ("spills") when it must grow
//! beyond that.
//!
//! The elements live in `items`, a `Vec` that stands for whichever storage
//! holds them; `heap` tells whether that storage is a heap allocation
//! (the vector is spilled) or the inline buffer, and `heap_capacity` is the
//! capacity of the heap allocation while there is one. An inline vector has
//! capacity `N`. Which storage the vector uses, and its capacity, follow the
//! growth policy below; the contracts state it.

use crate::pow2::{
    checked_next_power_of_two, is_power_of_two, lemma_next_power_of_two, max_usize_power_of_two,
    next_power_of_two,
};
use vstd::prelude::*;

verus! {

/// The number of elements that `v` can hold without reallocating
/// (`Vec::capacity`). The standard library documents that a vector can always
/// hold its own elements, and no more than that is stated: how much room the
/// allocator granted beyond them is left open.
#[verifier::external_body]
fn vec_capacity<T>(v: &Vec<T>) -> (capacity: usize)
    ensures
        capacity >= v@.len(),
{
    v.capacity()
}

/// Gives up ownership of the vector's heap buffer and hands out its elements
/// for the rest of the program (`Vec::leak`): the slice holds exactly the
/// vector's elements, in order.
#[verifier::external_body]
fn vec_leak<'a, T>(v: Vec<T>) -> (slice: &'a mut [T])
    ensures
        slice@ == v@,
{
    v.leak()
}

pub struct SmallVec<T, const N: usize> {
    items: Vec<T>,
    heap: bool,
    heap_capacity: usize,
}

impl<T, const N: usize> View for SmallVec<T, N> {
    type V = Seq<T>;

    closed spec fn view(&self) -> Seq<T> {
        self.items@
    }
}

impl<T, const N: usize> SmallVec<T, N> {
    /// Whether the elements are in a heap allocation rather than inline.
    pub closed spec fn is_spilled(&self) -> bool {
        self.heap
    }

    /// How many elements the current storage holds before it must grow.
    pub closed spec fn capacity_spec(&self) -> nat {
        if self.heap {
            self.heap_capacity as nat
        } else {
            N as nat
        }
    }

    /// The vector's invariant: its elements fit in its storage, and a
    /// spilled vector owns a real allocation (its capacity is not zero).
    pub closed spec fn well_formed(&self) -> bool {
        &&& self.items@.len() <= self.capacity_spec()
        &&& self.heap ==> self.heap_capacity > 0
    }

    /// The storage that `grow(new_capacity)` leaves: a heap allocation of
    /// exactly `new_capacity` when that exceeds the inline size, else the
    /// inline buffer.
    pub open spec fn storage_grown_to(&self, new_capacity: nat) -> bool {
        if new_capacity > N {
            self.is_spilled() && self.capacity_spec() == new_capacity
        } else {
            !self.is_spilled() && self.capacity_spec() == N
        }
    }

    /// Spilled state and capacity are the same in both vectors.
    pub open spec fn same_storage<const M: usize>(&self, other: &SmallVec<T, M>) -> bool {
        self.is_spilled() == other.is_spilled() && self.capacity_spec() == other.capacity_spec()
    }

    /// `reserve(additional)` can compute the capacity it needs: either no
    /// growth is needed, or the next power of two of the required length
    /// fits in a `usize`.
    pub open spec fn reserve_fits(&self, additional: nat) -> bool {
        additional + self@.len() <= self.capacity_spec() || self@.len() + additional
            <= max_usize_power_of_two()
    }

    /// The storage after `reserve(additional)`: unchanged when the elements
    /// and `additional` more already fit, else grown to the next power of two
    /// of the required length.
    pub open spec fn storage_after_reserve(&self, before: &Self, additional: nat) -> bool {
        if additional + before@.len() <= before.capacity_spec() {
            self.same_storage(before)
        } else {
            self.storage_grown_to(next_power_of_two(before@.len() + additional))
        }
    }

    /// An inline vector has capacity `N`; a well-formed vector's length
    /// never exceeds its capacity, and a well-formed spilled vector never has
    /// capacity zero.
    pub proof fn lemma_capacity(&self)
        ensures
            !self.is_spilled() ==> self.capacity_spec() == N,
            self.well_formed() ==> self@.len() <= self.capacity_spec(),
            self.well_formed() && self.is_spilled() ==> self.capacity_spec() > 0,
    {
    }

    /// Pushing onto an inline vector that still has room keeps it inline:
    /// a vector built with `new` and at most `N` pushes never spills.
    pub proof fn lemma_push_with_room_stays_inline(before: &Self, after: &Self)
        requires
            before.well_formed(),
            !before.is_spilled(),
            before@.len() < N,
            after.storage_after_reserve(before, 1),
        ensures
            !after.is_spilled(),
            after.capacity_spec() == N,
    {
    }

    /// When `reserve` (and so `push` and `append`) must grow, the new
    /// storage holds the required length, and a heap allocation it makes has
    /// a power-of-two capacity.
    pub proof fn lemma_growth(before: &Self, after: &Self, additional: nat)
        requires
            additional + before@.len() > before.capacity_spec(),
            after.storage_after_reserve(before, additional),
        ensures
            before@.len() + additional <= after.capacity_spec(),
            after.is_spilled() ==> is_power_of_two(after.capacity_spec()),
    {
        lemma_next_power_of_two(before@.len() + additional);
    }

    /// Reserving room never gives room away: the capacity after `reserve`
    /// (and so after `push` and `append`) is at least the capacity before and
    /// at least the length plus the room asked for; and when the elements
    /// and the room asked for already fit, the storage stays exactly as it
    /// was, spilled or inline, with the same capacity.
    pub proof fn lemma_reserve_keeps_room(before: &Self, after: &Self, additional: nat)
        requires
            before.well_formed(),
            after.storage_after_reserve(before, additional),
        ensures
            after.capacity_spec() >= before.capacity_spec(),
            after.capacity_spec() >= before@.len() + additional,
            additional + before@.len() <= before.capacity_spec() ==> after.is_spilled()
                == before.is_spilled() && after.capacity_spec() == before.capacity_spec(),
    {
        if additional + before@.len() > before.capacity_spec() {
            lemma_next_power_of_two(before@.len() + additional);
        }
    }

    /// An empty vector that uses its inline buffer.
    pub fn new() -> (v: Self)
        ensures
            v.well_formed(),
            v@ == Seq::<T>::empty(),
            !v.is_spilled(),
    {
        SmallVec { items: Vec::new(), heap: false, heap_capacity: 0 }
    }

    /// The number of elements the inline buffer holds.
    pub fn inline_size() -> (n: usize)
        ensures
            n == N,
    {
        N
    }

    pub fn len(&self) -> (n: usize)
        ensures
            n == self@.len(),
    {
        self.items.len()
    }

    pub fn is_empty(&self) -> (b: bool)
        ensures
            b <==> self@.len() == 0,
    {
        self.items.len() == 0
    }

    pub fn spilled(&self) -> (b: bool)
        ensures
            b == self.is_spilled(),
    {
        self.heap
    }

    pub fn capacity(&self) -> (c: usize)
        ensures
            c == self.capacity_spec(),
    {
        if self.heap {
            self.heap_capacity
        } else {
            N
        }
    }

    /// The elements, in order.
    pub fn as_slice(&self) -> (s: &[T])
        ensures
            s@ == self@,
    {
        self.items.as_slice()
    }

    /// Builds a vector from `vec`, whose allocation holds `capacity`
    /// elements: a vector that never allocated gives an empty inline vector;
    /// any other takes over the allocation and is spilled.
    pub fn from_vec_with_capacity(vec: Vec<T>, capacity: usize) -> (v: Self)
        requires
            vec@.len() <= capacity,
        ensures
            v.well_formed(),
            v@ == vec@,
            capacity == 0 ==> !v.is_spilled(),
            capacity != 0 ==> v.is_spilled() && v.capacity_spec() == capacity,
    {
        if capacity == 0 {
            let v = Self::new();
            assert(v@ =~= vec@);
            return v;
        }
        SmallVec { items: vec, heap: true, heap_capacity: capacity }
    }

    /// Builds a vector that takes over `vec` and its allocation. A vector
    /// with elements always has an allocation, so the result is spilled; an
    /// empty one is spilled exactly when its allocation has room.
    pub fn from_vec(vec: Vec<T>) -> (v: Self)
        ensures
            v.well_formed(),
            v@ == vec@,
            vec@.len() > 0 ==> v.is_spilled(),
    {
        let capacity = vec_capacity(&vec);
        Self::from_vec_with_capacity(vec, capacity)
    }

    /// Moves the elements into storage for `new_capacity` elements: a heap
    /// allocation of that size when it exceeds the inline size, else the
    /// inline buffer.
    pub fn grow(&mut self, new_capacity: usize)
        requires
            old(self).well_formed(),
            old(self)@.len() <= new_capacity,
        ensures
            final(self).well_formed(),
            final(self)@ == old(self)@,
            final(self).storage_grown_to(new_capacity as nat),
    {
        if new_capacity > N {
            self.heap = true;
            self.heap_capacity = new_capacity;
        } else {
            self.heap = false;
            self.heap_capacity = 0;
        }
    }

    /// Makes room for at least `additional` more elements, growing to the
    /// next power of two of the required length when they do not fit.
    pub fn reserve(&mut self, additional: usize)
        requires
            old(self).well_formed(),
            old(self).reserve_fits(additional as nat),
        ensures
            final(self).well_formed(),
            final(self)@ == old(self)@,
            final(self).storage_after_reserve(old(self), additional as nat),
            additional + final(self)@.len() <= final(self).capacity_spec(),
            final(self).capacity_spec() >= old(self).capacity_spec(),
            additional + old(self)@.len() <= old(self).capacity_spec() ==> final(self).is_spilled()
                == old(self).is_spilled() && final(self).capacity_spec() == old(self).capacity_spec(),
    {
        let len = self.len();
        let capacity = self.capacity();
        if additional > capacity - len {
            proof {
                lemma_next_power_of_two((len + additional) as nat);
            }
            let total = len + additional;
            let new_capacity = checked_next_power_of_two(total).unwrap();
            self.grow(new_capacity);
        }
    }

    /// Appends `value`, growing the storage when it is full.
    pub fn push(&mut self, value: T)
        requires
            old(self).well_formed(),
            old(self).reserve_fits(1),
        ensures
            final(self).well_formed(),
            final(self)@ == old(self)@.push(value),
            final(self).storage_after_reserve(old(self), 1),
            final(self).capacity_spec() >= old(self).capacity_spec(),
            old(self)@.len() < old(self).capacity_spec() ==> final(self).is_spilled()
                == old(self).is_spilled() && final(self).capacity_spec() == old(self).capacity_spec(),
    {
        let len = self.len();
        if len == self.capacity() {
            self.reserve(1);
        }
        self.items.push(value);
    }

    /// Moves all elements of `other` to the end of `self`, leaving `other`
    /// empty with its storage as it was.
    pub fn append<const M: usize>(&mut self, other: &mut SmallVec<T, M>)
        requires
            old(self).well_formed(),
            old(other).well_formed(),
            old(self).reserve_fits(old(other)@.len()),
        ensures
            final(self).well_formed(),
            final(other).well_formed(),
            final(self)@ == old(self)@ + old(other)@,
            final(other)@ == Seq::<T>::empty(),
            final(other).same_storage(old(other)),
            final(self).storage_after_reserve(old(self), old(other)@.len()),
            final(self).capacity_spec() >= old(self).capacity_spec(),
            old(other)@.len() + old(self)@.len() <= old(self).capacity_spec()
                ==> final(self).is_spilled() == old(self).is_spilled()
                && final(self).capacity_spec() == old(self).capacity_spec(),
    {
        let other_len = other.len();
        self.reserve(other_len);
        self.items.append(&mut other.items);
    }

    /// Releases unused room: a spilled vector whose elements fit inline moves
    /// back to the inline buffer, and one that does not shrinks its heap
    /// allocation to its length. An inline vector stays as it is.
    pub fn shrink_to_fit(&mut self)
        requires
            old(self).well_formed(),
        ensures
            final(self).well_formed(),
            final(self)@ == old(self)@,
            !old(self).is_spilled() ==> final(self).same_storage(old(self)),
            old(self).is_spilled() && old(self)@.len() <= N ==> !final(self).is_spilled(),
            old(self).is_spilled() && old(self)@.len() > N ==> final(self).is_spilled()
                && final(self).capacity_spec() == old(self)@.len(),
    {
        if !self.heap {
            return;
        }
        let len = self.len();
        if len <= N {
            self.grow(len);
        } else if len < self.heap_capacity {
            self.grow(len);
        }
    }

    /// Hands the heap-allocated elements out for the rest of the program.
    /// An inline vector has no allocation to give away, and is refused.
    pub fn leak<'a>(self) -> (slice: &'a mut [T])
        requires
            self.well_formed(),
            self.is_spilled(),
        ensures
            slice@ == self@,
    {
        vec_leak(self.items)
    }
}

} // verus!
