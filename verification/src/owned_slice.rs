//! An owned buffer of fixed length.
//!
//! [`OwnedSlice`] owns a region that holds exactly its elements, with no
//! room to spare. It is made from a boxed slice, from a growable array
//! whose spare capacity is given back first, or by cloning the elements of
//! a slice. Two
//! buffers are equal when their contents are, whatever memory they occupy.
//!
//! The contracts speak of a buffer through its view, the sequence of its
//! elements in index order.

use core::ops::Deref;
use core::ops::DerefMut;
use vstd::prelude::*;
use vstd::std_specs::cmp::PartialEqSpec;
use vstd::std_specs::cmp::PartialEqSpecImpl;
use vstd::std_specs::convert::FromSpecImpl;
use vstd::std_specs::iter::IteratorSpec;

verus! {

/// An owned sequence of elements whose length is fixed when it is made.
#[derive(Debug, Hash)]
pub struct OwnedSlice<T: Sized> {
    items: Vec<T>,
}

impl<T> View for OwnedSlice<T> {
    type V = Seq<T>;

    /// The elements, in index order.
    closed spec fn view(&self) -> Seq<T> {
        self.items@
    }
}

impl<T: Sized> Default for OwnedSlice<T> {
    /// The empty buffer. It has allocated nothing.
    fn default() -> (r: Self)
        ensures
            r@ == Seq::<T>::empty(),
    {
        OwnedSlice { items: Vec::new() }
    }
}

impl<T: Clone> Clone for OwnedSlice<T> {
    /// A buffer of the same length whose elements are clones of these.
    fn clone(&self) -> (r: Self)
        ensures
            r@.len() == self@.len(),
            forall|i: int| 0 <= i < self@.len() ==> cloned::<T>(self@[i], #[trigger] r@[i]),
    {
        Self::from_slice(self.items.as_slice())
    }
}

impl<T: PartialEq> PartialEq for OwnedSlice<T> {
    /// Compares by content: the lengths are equal, and so are the elements
    /// place by place.
    fn eq(&self, other: &Self) -> (r: bool) {
        self.items == other.items
    }
}

impl<T: PartialEq> PartialEqSpecImpl for OwnedSlice<T> {
    open spec fn obeys_eq_spec() -> bool {
        T::obeys_eq_spec()
    }

    open spec fn eq_spec(&self, other: &Self) -> bool {
        &&& self@.len() == other@.len()
        &&& forall|i: int| #![auto] 0 <= i < self@.len() ==> self@[i].eq_spec(&other@[i])
    }
}

impl<T: Eq> Eq for OwnedSlice<T> {

}

/// Wraps `Vec::into_boxed_slice` of the standard library, which gives back
/// the spare capacity: the boxed slice holds the elements of `v`, in the
/// same order.
#[verifier::external_body]
fn boxed_slice_of<T>(v: Vec<T>) -> (r: Box<[T]>)
    ensures
        r@ == v@,
{
    v.into_boxed_slice()
}

impl<T: Sized> OwnedSlice<T> {
    /// The number of elements.
    pub fn len(&self) -> (r: usize)
        ensures
            r == self@.len(),
    {
        self.items.len()
    }

    /// Turns the buffer into a boxed slice of the same elements.
    pub fn into_box(self) -> (r: Box<[T]>)
        ensures
            r@ == self@,
    {
        boxed_slice_of(self.into_vec())
    }

    /// Turns the buffer into a `Vec` of the same elements.
    pub fn into_vec(self) -> (r: Vec<T>)
        ensures
            r@ == self@,
    {
        self.items
    }

    /// Turns the buffer into a run over its elements, which it hands on one
    /// by one, in index order.
    pub fn into_iter(self) -> (r: std::vec::IntoIter<T>)
        ensures
            r.remaining() == self@,
    {
        self.into_vec().into_iter()
    }

    /// A buffer that holds a clone of each element of `s`, in the same
    /// order.
    pub fn from_slice(s: &[T]) -> (r: Self) where T: Clone
        ensures
            r@.len() == s@.len(),
            forall|i: int| 0 <= i < s@.len() ==> cloned::<T>(s@[i], #[trigger] r@[i]),
    {
        let mut items: Vec<T> = Vec::with_capacity(s.len());
        let mut i: usize = 0;
        while i < s.len()
            invariant
                i <= s@.len(),
                items@.len() == i,
                forall|j: int| 0 <= j < i ==> cloned::<T>(s@[j], #[trigger] items@[j]),
            decreases s@.len() - i,
        {
            items.push(s[i].clone());
            i += 1;
        }
        OwnedSlice { items }
    }
}

impl<T> Deref for OwnedSlice<T> {
    type Target = [T];

    /// The elements as a slice.
    fn deref(&self) -> (r: &[T])
        ensures
            r@ == self@,
    {
        self.items.as_slice()
    }
}

impl<T> DerefMut for OwnedSlice<T> {
    /// The elements as a mutable slice.
    fn deref_mut(&mut self) -> (r: &mut [T])
        ensures
            r@ == old(self)@,
            final(self)@ == final(r)@,
    {
        self.items.as_mut_slice()
    }
}

impl<T> From<Box<[T]>> for OwnedSlice<T> {
    /// Takes over the elements of a boxed slice.
    fn from(b: Box<[T]>) -> (r: Self)
        ensures
            r@ == b@,
    {
        OwnedSlice { items: b.into_vec() }
    }
}

impl<T> FromSpecImpl<Box<[T]>> for OwnedSlice<T> {
    /// Which region the buffer occupies is not said: the contract of `from`
    /// speaks of the elements.
    open spec fn obeys_from_spec() -> bool {
        false
    }

    open spec fn from_spec(b: Box<[T]>) -> Self {
        arbitrary()
    }
}

impl<T> From<Vec<T>> for OwnedSlice<T> {
    /// Takes over the elements of a `Vec` and gives its spare capacity
    /// back.
    fn from(b: Vec<T>) -> (r: Self)
        ensures
            r@ == b@,
    {
        Self::from(boxed_slice_of(b))
    }
}

impl<T> FromSpecImpl<Vec<T>> for OwnedSlice<T> {
    /// Which region the buffer occupies is not said: the contract of `from`
    /// speaks of the elements.
    open spec fn obeys_from_spec() -> bool {
        false
    }

    open spec fn from_spec(b: Vec<T>) -> Self {
        arbitrary()
    }
}

impl<T> From<crate::vec::Vec<T>> for OwnedSlice<T> {
    /// Freezes a growable array: takes over its elements and gives its
    /// spare capacity back.
    fn from(v: crate::vec::Vec<T>) -> (r: Self)
        ensures
            r@ == v@,
    {
        let items: Vec<T> = v.into();
        Self::from(items)
    }
}

impl<T> FromSpecImpl<crate::vec::Vec<T>> for OwnedSlice<T> {
    /// Which region the buffer occupies is not said: the contract of `from`
    /// speaks of the elements.
    open spec fn obeys_from_spec() -> bool {
        false
    }

    open spec fn from_spec(v: crate::vec::Vec<T>) -> Self {
        arbitrary()
    }
}

impl<T> core::iter::FromIterator<T> for OwnedSlice<T> {
    /// A buffer of what `iter` hands on, in the order in which it does.
    ///
    /// Wraps `Vec::from_iter` of the standard library, which collects what
    /// an iterator hands on. Nothing is claimed of the result: what an
    /// iterator of any kind hands on is not known.
    #[verifier::external_body]
    fn from_iter<I: IntoIterator<Item = T>>(iter: I) -> (r: Self) {
        OwnedSlice { items: Vec::from_iter(iter) }
    }
}

} // verus!
