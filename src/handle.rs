//! Typed indices into append-only arenas.
use std::marker::PhantomData;
use vstd::prelude::*;

verus! {

/// Typed handle to an index in an array of `T`.
///
/// A handle is only meaningful for the `HandleMap` that issued it. Entries are
/// never removed, so a handle stays valid for the life of its map.
pub struct Handle<T> {
    pub id: u32,
    pub marker: PhantomData<T>,
}

impl<T> Clone for Handle<T> {
    fn clone(&self) -> (h: Handle<T>)
        ensures
            h == *self,
    {
        Handle { id: self.id, marker: PhantomData }
    }
}

impl<T> Copy for Handle<T> {

}

impl<T> Handle<T> {
    /// The handle of the entry at index `id`.
    pub fn new(id: u32) -> (h: Handle<T>)
        ensures
            h.id == id,
    {
        Handle { id, marker: PhantomData }
    }
}

impl<T> From<usize> for Handle<T> {
    /// The handle of the entry at index `index`, which must fit in a `u32`:
    /// larger values are truncated.
    fn from(index: usize) -> (h: Handle<T>) {
        Handle { id: #[verifier::truncate] (index as u32), marker: PhantomData }
    }
}

impl<T> vstd::std_specs::convert::FromSpecImpl<usize> for Handle<T> {
    open spec fn obeys_from_spec() -> bool {
        true
    }

    open spec fn from_spec(index: usize) -> Handle<T> {
        Handle { id: index as u32, marker: PhantomData }
    }
}

impl<T> From<Handle<T>> for usize {
    /// The index that the handle addresses.
    fn from(h: Handle<T>) -> (index: usize) {
        h.id as usize
    }
}

impl<T> vstd::std_specs::convert::FromSpecImpl<Handle<T>> for usize {
    open spec fn obeys_from_spec() -> bool {
        true
    }

    open spec fn from_spec(h: Handle<T>) -> usize {
        h.id as usize
    }
}

/// Number of bytes that must be added to `size` to reach a multiple of `alignment`.
pub fn calculate_padding(size: usize, alignment: usize) -> (padding: usize)
    requires
        alignment > 0,
    ensures
        padding == (alignment - size % alignment) % alignment as int,
        padding < alignment,
        (size + padding) % (alignment as int) == 0,
{
    let padding = (alignment - size % alignment) % alignment;
    proof {
        let a = alignment as int;
        let s = size as int;
        assert(s == a * (s / a) + s % a) by (nonlinear_arith)
            requires
                a > 0,
        ;
        if s % a == 0 {
            assert((a - s % a) % a == 0) by (nonlinear_arith)
                requires
                    a > 0,
                    s % a == 0,
            ;
            assert(s % a == 0);
        } else {
            assert((a - s % a) % a == a - s % a) by (nonlinear_arith)
                requires
                    a > 0,
                    0 < s % a < a,
            ;
            assert((s + (a - s % a)) % a == 0) by (nonlinear_arith)
                requires
                    a > 0,
                    s == a * (s / a) + s % a,
            ;
        }
    }
    padding
}

/// Append-only dense storage of `T`, indexed by `Handle<T>`.
pub struct HandleMap<T> {
    pub inner: Vec<T>,
}

impl<T> View for HandleMap<T> {
    type V = Seq<T>;

    open spec fn view(&self) -> Seq<T> {
        self.inner@
    }
}

impl<T> HandleMap<T> {
    /// An empty map.
    pub fn new() -> (map: HandleMap<T>)
        ensures
            map@ == Seq::<T>::empty(),
    {
        HandleMap { inner: Vec::new() }
    }

    /// Whether `h` refers to an entry of this map.
    pub open spec fn contains(&self, h: Handle<T>) -> bool {
        h.id < self@.len()
    }

    /// Appends `value` and returns the handle that addresses it.
    pub fn push(&mut self, value: T) -> (h: Handle<T>)
        requires
            old(self)@.len() < u32::MAX,
        ensures
            final(self)@ == old(self)@.push(value),
            h.id == old(self)@.len(),
            h.id == final(self)@.len() - 1,
    {
        self.inner.push(value);
        Handle::new((self.inner.len() - 1) as u32)
    }

    /// Number of entries.
    pub fn len(&self) -> (n: usize)
        ensures
            n == self@.len(),
    {
        self.inner.len()
    }

    /// The entry that `h` addresses.
    pub fn get(&self, h: Handle<T>) -> (value: &T)
        requires
            self.contains(h),
        ensures
            *value == self@[h.id as int],
    {
        &self.inner[h.id as usize]
    }

    /// Replaces the entry that `h` addresses.
    pub fn set(&mut self, h: Handle<T>, value: T)
        requires
            old(self).contains(h),
        ensures
            final(self)@ == old(self)@.update(h.id as int, value),
    {
        self.inner.set(h.id as usize, value);
    }
}

} // verus!
