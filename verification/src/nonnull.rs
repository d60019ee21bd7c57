//! A handle that is never null.
//!
//! [`NonNull`] stands for a pointer to a `T` by its address, and carries
//! one promise: the address is not zero. It owns nothing and can be copied
//! freely. Nothing here reads or writes through a handle; that is left to
//! the code that owns the memory.

use core::marker::PhantomData;
use vstd::layout::align_of;
use vstd::prelude::*;

verus! {

/// The address of a `T`, which is never zero.
pub struct NonNull<T> {
    pointer: usize,
    target: PhantomData<T>,
}

/// Wraps `sptr::invalid_mut` and, on what it returns, `sptr::Strict::addr`:
/// the first makes a pointer without provenance from an address, the second
/// gives the address of a pointer, so the two in turn give `addr` back.
#[verifier::external_body]
fn invalid_address<T>(addr: usize) -> (r: usize)
    ensures
        r == addr,
{
    sptr::Strict::addr(sptr::invalid_mut::<T>(addr))
}

impl<T> NonNull<T> {
    #[verifier::type_invariant]
    spec fn not_null(&self) -> bool {
        self.pointer != 0
    }

    /// The address that the handle stands for.
    pub closed spec fn addr(&self) -> usize {
        self.pointer
    }

    fn new_unchecked(ptr: usize) -> (r: Self)
        requires
            ptr != 0,
        ensures
            r.addr() == ptr,
    {
        NonNull { pointer: ptr, target: PhantomData }
    }

    /// A handle for the address `ptr`, or nothing where `ptr` is zero.
    pub fn new(ptr: usize) -> (r: Option<Self>)
        ensures
            r is Some == (ptr != 0),
            r is Some ==> r->Some_0.addr() == ptr,
    {
        if ptr != 0 {
            Some(Self::new_unchecked(ptr))
        } else {
            None
        }
    }

    /// A handle that stands for no memory: its address is the alignment of
    /// `T`, which is not zero and at which a `T` would be aligned. It is
    /// what an owner holds while it has allocated nothing.
    pub fn dangling() -> (r: Self)
        ensures
            r.addr() == align_of::<T>(),
    {
        proof {
            broadcast use vstd::layout::align_nonzero;
        }
        let ptr = invalid_address::<T>(core::mem::align_of::<T>());
        Self::new_unchecked(ptr)
    }

    /// The address that the handle stands for. It is not zero.
    pub fn as_ptr(self) -> (r: usize)
        ensures
            r == self.addr(),
            r != 0,
    {
        proof {
            use_type_invariant(&self);
        }
        self.pointer
    }
}

impl<T> Clone for NonNull<T> {
    /// The same handle.
    fn clone(&self) -> (r: Self)
        ensures
            r == *self,
    {
        *self
    }
}

impl<T> Copy for NonNull<T> {

}

} // verus!
