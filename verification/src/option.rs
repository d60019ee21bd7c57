//! A two-state optional value with a fixed, tagged layout.
//!
//! [`Option`] is either [`Option::Absent`] or [`Option::Present`]. It owns no
//! heap memory of its own, and its state changes only through the operations
//! below. Every operation says in its contract what it returns for each of
//! the two states; an operation that takes a function says so in terms of
//! that function's own contract.

use core::ops::Deref;
use core::ops::DerefMut;
use vstd::pervasive::unreached;
use vstd::prelude::*;
use vstd::std_specs::cmp::PartialEqSpec;
use vstd::std_specs::convert::FromSpecImpl;

verus! {

/// Either nothing, or one value of type `T`.
#[derive(Debug, PartialEq, Eq)]
pub enum Option<T> {
    /// No value.
    Absent,
    /// A value of type `T`.
    Present(T),
}

impl<T> View for Option<T> {
    type V = core::option::Option<T>;

    /// The same state as an optional value of the standard library.
    open spec fn view(&self) -> core::option::Option<T> {
        match *self {
            Option::Absent => None,
            Option::Present(x) => Some(x),
        }
    }
}

/// The optional value of this library that is in the state of `o`.
pub open spec fn of_std<T>(o: core::option::Option<T>) -> Option<T> {
    match o {
        None => Option::Absent,
        Some(x) => Option::Present(x),
    }
}

impl<T> From<core::option::Option<T>> for Option<T> {
    /// Converts from the standard library's optional value, state for state.
    fn from(value: core::option::Option<T>) -> (r: Self)
        ensures
            r == of_std(value),
    {
        match value {
            None => Option::Absent,
            Some(val) => Option::Present(val),
        }
    }
}

impl<T> FromSpecImpl<core::option::Option<T>> for Option<T> {
    open spec fn obeys_from_spec() -> bool {
        true
    }

    open spec fn from_spec(v: core::option::Option<T>) -> Self {
        of_std(v)
    }
}

impl<T> From<Option<T>> for core::option::Option<T> {
    /// Converts into the standard library's optional value, state for state.
    fn from(value: Option<T>) -> (r: Self)
        ensures
            r == value@,
    {
        match value {
            Option::Absent => None,
            Option::Present(val) => Some(val),
        }
    }
}

impl<T> FromSpecImpl<Option<T>> for core::option::Option<T> {
    open spec fn obeys_from_spec() -> bool {
        true
    }

    open spec fn from_spec(v: Option<T>) -> Self {
        v@
    }
}

impl<T> Option<T> {
    /// Returns `true` if a value is present.
    #[must_use]
    pub fn is_some(&self) -> (r: bool)
        ensures
            r == (*self is Present),
    {
        matches!(*self, Option::Present(_))
    }

    /// Returns `true` if a value is present and `f` returns `true` for it.
    /// `f` is called only on a present value.
    #[must_use]
    pub fn is_some_and(self, f: impl FnOnce(T) -> bool) -> (r: bool)
        requires
            self is Present ==> f.requires((self->Present_0,)),
        ensures
            self is Absent ==> !r,
            self is Present ==> f.ensures((self->Present_0,), r),
    {
        match self {
            Option::Absent => false,
            Option::Present(x) => f(x),
        }
    }

    /// Returns `true` if no value is present.
    #[must_use]
    pub fn is_none(&self) -> (r: bool)
        ensures
            r == (*self is Absent),
    {
        !self.is_some()
    }

    /// Borrows the value, if one is present.
    pub fn as_ref(&self) -> (r: core::option::Option<&T>)
        ensures
            r is Some == (*self is Present),
            r is Some ==> *r->Some_0 == self->Present_0,
    {
        match *self {
            Option::Present(ref x) => Some(x),
            Option::Absent => None,
        }
    }

    /// Borrows the value mutably, if one is present. What the caller writes
    /// through the borrow is the value that stays; the state does not change.
    pub fn as_mut(&mut self) -> (r: core::option::Option<&mut T>)
        ensures
            r is Some == (*old(self) is Present),
            r is Some ==> *r->Some_0 == old(self)->Present_0 && *final(self) == Option::Present(
                *final(r->Some_0),
            ),
            r is None ==> *final(self) == Option::<T>::Absent,
    {
        match self {
            Option::Present(x) => Some(x),
            Option::Absent => None,
        }
    }

    /// Returns the value. The caller must know that one is present: to ask
    /// for the value of an absent one is a programming error, which this
    /// contract rules out.
    pub fn unwrap(self) -> (r: T)
        requires
            self is Present,
        ensures
            r == self->Present_0,
    {
        match self {
            Option::Present(val) => val,
            Option::Absent => unreached(),
        }
    }

    /// Returns the value without a test of the state. The caller must know
    /// that a value is present, as for [`Option::unwrap`].
    pub fn unwrap_unchecked(self) -> (r: T)
        requires
            self is Present,
        ensures
            r == self->Present_0,
    {
        match self {
            Option::Present(val) => val,
            Option::Absent => unreached(),
        }
    }

    /// Returns the value if one is present, and `default` otherwise.
    pub fn unwrap_or(self, default: T) -> (r: T)
        ensures
            r == (match self {
                Option::Present(x) => x,
                Option::Absent => default,
            }),
    {
        match self {
            Option::Present(x) => x,
            Option::Absent => default,
        }
    }

    /// Returns the value if one is present, and what `f` computes otherwise.
    /// `f` is called only when no value is present.
    pub fn unwrap_or_else<F>(self, f: F) -> (r: T) where F: FnOnce() -> T
        requires
            self is Absent ==> f.requires(()),
        ensures
            self is Present ==> r == self->Present_0,
            self is Absent ==> f.ensures((), r),
    {
        match self {
            Option::Present(x) => x,
            Option::Absent => f(),
        }
    }

    /// Returns the value if one is present, and the default value of `T`
    /// otherwise.
    pub fn unwrap_or_default(self) -> (r: T) where T: Default
        ensures
            self is Present ==> r == self->Present_0,
            self is Absent ==> call_ensures(T::default, (), r),
    {
        match self {
            Option::Present(x) => x,
            Option::Absent => Default::default(),
        }
    }

    /// Applies `f` to the value, if one is present. An absent value stays
    /// absent and `f` is not called.
    pub fn map<U, F>(self, f: F) -> (r: core::option::Option<U>) where F: FnOnce(T) -> U
        requires
            self is Present ==> f.requires((self->Present_0,)),
        ensures
            r is Some == (self is Present),
            self is Present ==> f.ensures((self->Present_0,), r->Some_0),
    {
        match self {
            Option::Present(x) => Some(f(x)),
            Option::Absent => None,
        }
    }

    /// Calls `f` with a borrow of the value, if one is present, and returns
    /// the optional value unchanged. After the call, what `f` promises of a
    /// call with that borrow holds.
    pub fn inspect<F>(self, f: F) -> (r: Self) where F: FnOnce(&T)
        requires
            self is Present ==> f.requires((&self->Present_0,)),
        ensures
            r == self,
            self is Present ==> f.ensures((&self->Present_0,), ()),
    {
        if let Option::Present(ref x) = self {
            f(x);
        }
        self
    }

    /// Returns what `f` computes from the value if one is present, and
    /// `default` otherwise.
    pub fn map_or<U, F>(self, default: U, f: F) -> (r: U) where F: FnOnce(T) -> U
        requires
            self is Present ==> f.requires((self->Present_0,)),
        ensures
            self is Present ==> f.ensures((self->Present_0,), r),
            self is Absent ==> r == default,
    {
        match self {
            Option::Present(t) => f(t),
            Option::Absent => default,
        }
    }

    /// Returns what `f` computes from the value if one is present, and what
    /// `default` computes otherwise. Exactly one of the two is called.
    pub fn map_or_else<U, D, F>(self, default: D, f: F) -> (r: U) where
        D: FnOnce() -> U,
        F: FnOnce(T) -> U,

        requires
            self is Present ==> f.requires((self->Present_0,)),
            self is Absent ==> default.requires(()),
        ensures
            self is Present ==> f.ensures((self->Present_0,), r),
            self is Absent ==> default.ensures((), r),
    {
        match self {
            Option::Present(t) => f(t),
            Option::Absent => default(),
        }
    }

    /// Turns a present value into `Ok` of it, and an absent one into
    /// `Err(err)`.
    pub fn ok_or<E>(self, err: E) -> (r: Result<T, E>)
        ensures
            r == (match self {
                Option::Present(v) => Ok::<T, E>(v),
                Option::Absent => Err::<T, E>(err),
            }),
    {
        match self {
            Option::Present(v) => Ok(v),
            Option::Absent => Err(err),
        }
    }

    /// Turns a present value into `Ok` of it, and an absent one into `Err`
    /// of what `err` computes. `err` is called only when no value is present.
    pub fn ok_or_else<E, F>(self, err: F) -> (r: Result<T, E>) where F: FnOnce() -> E
        requires
            self is Absent ==> err.requires(()),
        ensures
            self is Present ==> r == Ok::<T, E>(self->Present_0),
            self is Absent ==> r is Err && err.ensures((), r->Err_0),
    {
        match self {
            Option::Present(v) => Ok(v),
            Option::Absent => Err(err()),
        }
    }

    /// Borrows what the value dereferences to, if a value is present.
    pub fn as_deref(&self) -> (r: core::option::Option<&T::Target>) where T: Deref
        ensures
            r is Some == (*self is Present),
            r is Some ==> call_ensures(T::deref, (&self->Present_0,), r->Some_0),
    {
        match self.as_ref() {
            Some(t) => Some(t.deref()),
            None => None,
        }
    }

    /// Borrows mutably what the value dereferences to, if a value is
    /// present.
    pub fn as_deref_mut(&mut self) -> (r: core::option::Option<&mut T::Target>) where T: DerefMut
        ensures
            r is Some == (*old(self) is Present),
            (*final(self) is Present) == (*old(self) is Present),
    {
        match self.as_mut() {
            Some(t) => Some(t.deref_mut()),
            None => None,
        }
    }

    /// Returns `optb` if a value is present, and nothing otherwise.
    pub fn and<U>(self, optb: core::option::Option<U>) -> (r: core::option::Option<U>)
        ensures
            r == (match self {
                Option::Present(_) => optb,
                Option::Absent => None,
            }),
    {
        match self {
            Option::Present(_) => optb,
            Option::Absent => None,
        }
    }

    /// Returns what `f` computes from the value if one is present, and
    /// nothing otherwise. `f` is called only on a present value.
    pub fn and_then<U, F>(self, f: F) -> (r: core::option::Option<U>) where
        F: FnOnce(T) -> core::option::Option<U>,

        requires
            self is Present ==> f.requires((self->Present_0,)),
        ensures
            self is Absent ==> r is None,
            self is Present ==> f.ensures((self->Present_0,), r),
    {
        match self {
            Option::Present(x) => f(x),
            Option::Absent => None,
        }
    }

    /// Keeps a present value if `predicate` returns `true` for it, and
    /// returns nothing otherwise. `predicate` is called only on a present
    /// value.
    pub fn filter<P>(self, predicate: P) -> (r: Self) where P: FnOnce(&T) -> bool
        requires
            self is Present ==> predicate.requires((&self->Present_0,)),
        ensures
            self is Absent ==> r is Absent,
            self is Present ==> predicate.ensures((&self->Present_0,), r is Present),
            r is Present ==> r == self,
    {
        if let Option::Present(x) = self {
            if predicate(&x) {
                return Option::Present(x);
            }
        }
        Option::Absent
    }

    /// Returns the value if one is present, and `optb` otherwise.
    pub fn or(self, optb: core::option::Option<T>) -> (r: core::option::Option<T>)
        ensures
            r == (match self {
                Option::Present(x) => Some(x),
                Option::Absent => optb,
            }),
    {
        match self {
            Option::Present(x) => Some(x),
            Option::Absent => optb,
        }
    }

    /// Returns the value if one is present, and what `f` computes otherwise.
    /// `f` is called only when no value is present.
    pub fn or_else<F>(self, f: F) -> (r: core::option::Option<T>) where
        F: FnOnce() -> core::option::Option<T>,

        requires
            self is Absent ==> f.requires(()),
        ensures
            self is Present ==> r == Some(self->Present_0),
            self is Absent ==> f.ensures((), r),
    {
        match self {
            Option::Present(x) => Some(x),
            Option::Absent => f(),
        }
    }

    /// Returns the value of the one that is present if exactly one of `self`
    /// and `optb` is, and nothing otherwise.
    pub fn xor(self, optb: Option<T>) -> (r: core::option::Option<T>)
        ensures
            r == (match (self, optb) {
                (Option::Present(a), Option::Absent) => Some(a),
                (Option::Absent, Option::Present(b)) => Some(b),
                _ => None,
            }),
    {
        match (self, optb) {
            (Option::Present(a), Option::Absent) => Some(a),
            (Option::Absent, Option::Present(b)) => Some(b),
            _ => None,
        }
    }

    /// Stores `value`, dropping what was there, and returns a mutable borrow
    /// of it. What the caller writes through the borrow is the value that
    /// stays.
    #[must_use]
    pub fn insert(&mut self, value: T) -> (r: &mut T)
        ensures
            *r == value,
            *final(self) == Option::Present(*final(r)),
    {
        *self = Option::Present(value);
        match self {
            Option::Present(x) => x,
            Option::Absent => unreached(),
        }
    }

    /// Stores `value` if nothing is present, and returns a mutable borrow of
    /// the value that is then present. A value that was present is kept, and
    /// `value` is dropped.
    pub fn get_or_insert(&mut self, value: T) -> (r: &mut T)
        ensures
            *r == (match *old(self) {
                Option::Present(x) => x,
                Option::Absent => value,
            }),
            *final(self) == Option::Present(*final(r)),
    {
        if let Option::Absent = *self {
            *self = Option::Present(value);
        }
        match self {
            Option::Present(x) => x,
            Option::Absent => unreached(),
        }
    }

    /// Stores what `f` computes if nothing is present, and returns a mutable
    /// borrow of the value that is then present. `f` is called only when
    /// nothing is present.
    pub fn get_or_insert_with<F>(&mut self, f: F) -> (r: &mut T) where F: FnOnce() -> T
        requires
            *old(self) is Absent ==> f.requires(()),
        ensures
            *old(self) is Present ==> *r == old(self)->Present_0,
            *old(self) is Absent ==> f.ensures((), *r),
            *final(self) == Option::Present(*final(r)),
    {
        if let Option::Absent = *self {
            *self = Option::Present(f());
        }
        match self {
            Option::Present(x) => x,
            Option::Absent => unreached(),
        }
    }

    /// Takes the value out, leaving nothing behind, and returns what was
    /// there.
    pub fn take(&mut self) -> (r: Option<T>)
        ensures
            r == *old(self),
            *final(self) == Option::<T>::Absent,
    {
        let mut r = Option::Absent;
        core::mem::swap(self, &mut r);
        r
    }

    /// Stores `value` and returns what was there before.
    pub fn replace(&mut self, value: T) -> (r: Option<T>)
        ensures
            r == *old(self),
            *final(self) == Option::Present(value),
    {
        let mut r = Option::Present(value);
        core::mem::swap(self, &mut r);
        r
    }

    /// Returns `true` if a value is present and `x` equals it, by the
    /// equality of `U` with `T`.
    #[must_use]
    pub fn contains<U>(&self, x: &U) -> (r: bool) where U: PartialEq<T>
        ensures
            *self is Absent ==> !r,
            *self is Present && U::obeys_eq_spec() ==> r == x.eq_spec(&self->Present_0),
    {
        match self {
            Option::Present(y) => x.eq(y),
            Option::Absent => false,
        }
    }

    /// Pairs the two values if both are present, and returns nothing
    /// otherwise.
    pub fn zip<U>(self, other: Option<U>) -> (r: core::option::Option<(T, U)>)
        ensures
            r == (match (self, other) {
                (Option::Present(a), Option::Present(b)) => Some((a, b)),
                _ => None,
            }),
    {
        match (self, other) {
            (Option::Present(a), Option::Present(b)) => Some((a, b)),
            _ => None,
        }
    }

    /// Combines the two values with `f` if both are present, and returns
    /// nothing otherwise. `f` is called only when both are present.
    pub fn zip_with<U, F, R>(self, other: Option<U>, f: F) -> (r: core::option::Option<R>) where
        F: FnOnce(T, U) -> R,

        requires
            self is Present && other is Present ==> f.requires(
                (self->Present_0, other->Present_0),
            ),
        ensures
            r is Some == (self is Present && other is Present),
            r is Some ==> f.ensures((self->Present_0, other->Present_0), r->Some_0),
    {
        match (self, other) {
            (Option::Present(a), Option::Present(b)) => Some(f(a, b)),
            _ => None,
        }
    }
}

impl<T, U> Option<(T, U)> {
    /// Splits a present pair into its two values, and an absent one into two
    /// absent values.
    pub fn unzip(self) -> (r: (core::option::Option<T>, core::option::Option<U>))
        ensures
            r == (match self {
                Option::Present((a, b)) => (Some(a), Some(b)),
                Option::Absent => (None, None),
            }),
    {
        match self {
            Option::Present((a, b)) => (Some(a), Some(b)),
            Option::Absent => (None, None),
        }
    }
}

impl<T> Option<&T> {
    /// Copies the borrowed value, if one is present.
    #[must_use]
    pub fn copied(self) -> (r: core::option::Option<T>) where T: Copy
        ensures
            r == (match self {
                Option::Present(v) => Some(*v),
                Option::Absent => None,
            }),
    {
        match self {
            Option::Present(v) => Some(*v),
            Option::Absent => None,
        }
    }

    /// Clones the borrowed value, if one is present.
    #[must_use]
    pub fn cloned(self) -> (r: core::option::Option<T>) where T: Clone
        ensures
            r is Some == (self is Present),
            r is Some ==> cloned::<T>(*self->Present_0, r->Some_0),
    {
        match self {
            Option::Present(t) => Some(t.clone()),
            Option::Absent => None,
        }
    }
}

impl<T> Option<&mut T> {
    /// Copies the borrowed value, if one is present.
    #[must_use]
    pub fn copied(self) -> (r: core::option::Option<T>) where T: Copy
        ensures
            r == (match self {
                Option::Present(v) => Some(*v),
                Option::Absent => None,
            }),
    {
        match self {
            Option::Present(t) => Some(*t),
            Option::Absent => None,
        }
    }

    /// Clones the borrowed value, if one is present.
    #[must_use]
    pub fn cloned(self) -> (r: core::option::Option<T>) where T: Clone
        ensures
            r is Some == (self is Present),
            r is Some ==> cloned::<T>(*self->Present_0, r->Some_0),
    {
        match self {
            Option::Present(t) => Some(t.clone()),
            Option::Absent => None,
        }
    }
}

impl<T, E> Option<Result<T, E>> {
    /// Turns an optional result into a result of an optional value: an
    /// absent one into `Ok(None)`, a present `Ok(x)` into `Ok(Some(x))`, and
    /// a present `Err(e)` into `Err(e)`.
    pub fn transpose(self) -> (r: Result<core::option::Option<T>, E>)
        ensures
            r == (match self {
                Option::Present(Ok(x)) => Ok::<core::option::Option<T>, E>(Some(x)),
                Option::Present(Err(e)) => Err::<core::option::Option<T>, E>(e),
                Option::Absent => Ok::<core::option::Option<T>, E>(None),
            }),
    {
        match self {
            Option::Present(Ok(x)) => Ok(Some(x)),
            Option::Present(Err(e)) => Err(e),
            Option::Absent => Ok(None),
        }
    }
}

impl<T> Clone for Option<T> where T: Clone {
    /// Clones the value, if one is present.
    fn clone(&self) -> (r: Self)
        ensures
            r is Present == (*self is Present),
            r is Present ==> cloned::<T>(self->Present_0, r->Present_0),
    {
        match self {
            Option::Present(x) => Option::Present(x.clone()),
            Option::Absent => Option::Absent,
        }
    }

    /// Makes `self` a clone of `source`.
    fn clone_from(&mut self, source: &Self)
        ensures
            *final(self) is Present == (*source is Present),
            *final(self) is Present ==> cloned::<T>(source->Present_0, final(self)->Present_0),
    {
        *self = source.clone();
    }
}

} // verus!
