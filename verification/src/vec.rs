//! A growable array over a buffer whose capacity doubles.
//!
//! [`Vec`] owns one buffer and the number of elements in it. The buffer has
//! room for `capacity` elements; it starts with room for none and, when an
//! insertion finds it full, grows to room for one and from then on to twice
//! what it had. Element types of size zero never need room: their capacity
//! is `usize::MAX` from the start and never changes.
//!
//! The contracts speak of an array through its view, the sequence of its
//! elements in index order, and through [`Vec::capacity`].

pub use crate::nonnull::NonNull;
use core::ops::Deref;
use core::ops::DerefMut;
use std::collections::VecDeque;
use std::marker::PhantomData;
use vstd::layout::size_of;
use vstd::prelude::*;
use vstd::std_specs::convert::FromSpecImpl;

verus! {

/// The capacity that a buffer of capacity `cap` has after it has grown once.
pub open spec fn grown_capacity(cap: nat) -> nat {
    if cap == 0 {
        1
    } else {
        2 * cap
    }
}

/// Whether a buffer of `cap` elements of type `T` can grow: `T` has a size,
/// and the grown buffer takes no more than `isize::MAX` bytes.
pub open spec fn growable<T>(cap: nat) -> bool {
    &&& size_of::<T>() != 0
    &&& grown_capacity(cap) * size_of::<T>() <= isize::MAX
}

/// Room for `cap` elements, of which the first `mem.len()` are in use. The
/// buffer itself does not say how many are in use: its owner does.
struct RawVec<T> {
    mem: std::vec::Vec<T>,
    cap: usize,
}

impl<T> RawVec<T> {
    spec fn wf(&self) -> bool {
        &&& self.mem@.len() <= self.cap
        &&& size_of::<T>() == 0 ==> self.cap == usize::MAX
        &&& size_of::<T>() != 0 ==> self.cap * size_of::<T>() <= isize::MAX
    }

    /// A buffer with room for nothing, or for everything where the elements
    /// have no size.
    fn new() -> (r: Self)
        ensures
            r.wf(),
            r.mem@ == Seq::<T>::empty(),
            r.cap == (if size_of::<T>() == 0 {
                usize::MAX
            } else {
                0
            }),
    {
        let cap = if core::mem::size_of::<T>() == 0 {
            usize::MAX
        } else {
            0
        };
        RawVec { mem: std::vec::Vec::new(), cap }
    }

    /// Whether the buffer can grow once more.
    fn can_grow(&self) -> (r: bool)
        requires
            self.wf(),
        ensures
            r == growable::<T>(self.cap as nat),
    {
        let size = core::mem::size_of::<T>();
        if size == 0 {
            return false;
        }
        assert(self.cap <= isize::MAX) by (nonlinear_arith)
            requires
                size >= 1,
                self.cap * size <= isize::MAX,
        ;
        let new_cap = if self.cap == 0 {
            1
        } else {
            2 * self.cap
        };
        match new_cap.checked_mul(size) {
            Some(bytes) => bytes <= isize::MAX as usize,
            None => false,
        }
    }

    /// Grows the buffer to room for one element if it had room for none, and
    /// to twice its capacity otherwise. What is in use stays as it was.
    fn grow(&mut self)
        requires
            old(self).wf(),
            growable::<T>(old(self).cap as nat),
        ensures
            final(self).wf(),
            final(self).mem@ == old(self).mem@,
            final(self).cap == grown_capacity(old(self).cap as nat),
    {
        assert(grown_capacity(self.cap as nat) <= isize::MAX) by (nonlinear_arith)
            requires
                size_of::<T>() >= 1,
                grown_capacity(self.cap as nat) * size_of::<T>() <= isize::MAX,
        ;
        let new_cap = if self.cap == 0 {
            1
        } else {
            2 * self.cap
        };
        self.mem.reserve(new_cap - self.mem.len());
        self.cap = new_cap;
    }
}

/// Exchanges the elements at `at - 1` and `at`.
fn swap_adjacent<T>(mem: &mut std::vec::Vec<T>, at: usize)
    requires
        0 < at < old(mem)@.len(),
    ensures
        final(mem)@ == old(mem)@.update(at - 1, old(mem)@[at as int]).update(
            at as int,
            old(mem)@[at - 1],
        ),
{
    let (left, right) = mem.as_mut_slice().split_at_mut(at);
    match (left.last_mut(), right.first_mut()) {
        (Some(a), Some(b)) => core::mem::swap(a, b),
        _ => {},
    }
}

/// A growable array: one buffer and the number of elements in it.
pub struct Vec<T> {
    buf: RawVec<T>,
    len: usize,
}

impl<T> View for Vec<T> {
    type V = Seq<T>;

    /// The elements, in index order.
    closed spec fn view(&self) -> Seq<T> {
        self.buf.mem@
    }
}

impl<T> Vec<T> {
    /// The invariant of the array: it holds no more elements than its buffer
    /// has room for, and the capacity is one that the buffer can have.
    pub closed spec fn wf(&self) -> bool {
        &&& self.buf.wf()
        &&& self.len == self.buf.mem@.len()
    }

    /// The number of elements that the buffer has room for.
    pub closed spec fn capacity(&self) -> nat {
        self.buf.cap as nat
    }

    /// What the invariant says of length and capacity.
    pub proof fn lemma_wf(&self)
        requires
            self.wf(),
        ensures
            self@.len() <= self.capacity(),
            self.capacity() <= usize::MAX,
            size_of::<T>() == 0 ==> self.capacity() == usize::MAX,
            size_of::<T>() != 0 ==> self.capacity() * size_of::<T>() <= isize::MAX,
    {
    }

    /// Whether one more element can go in: there is room, or the buffer can
    /// grow.
    pub open spec fn accepts(&self) -> bool {
        self@.len() == self.capacity() ==> growable::<T>(self.capacity())
    }

    /// The capacity after one more element has gone in.
    pub open spec fn capacity_after_insertion(&self) -> nat {
        if self@.len() == self.capacity() {
            grown_capacity(self.capacity())
        } else {
            self.capacity()
        }
    }

    /// The number of elements that the buffer has room for.
    pub fn cap(&self) -> (r: usize)
        ensures
            r == self.capacity(),
    {
        self.buf.cap
    }

    /// The number of elements.
    pub fn len(&self) -> (r: usize)
        requires
            self.wf(),
        ensures
            r == self@.len(),
    {
        self.len
    }

    /// Whether [`Vec::push`] and [`Vec::insert`] can take one more element.
    pub fn has_room(&self) -> (r: bool)
        requires
            self.wf(),
        ensures
            r == self.accepts(),
    {
        self.len < self.buf.cap || self.buf.can_grow()
    }

    /// An empty array. It has allocated nothing.
    pub fn new() -> (r: Self)
        ensures
            r.wf(),
            r@ == Seq::<T>::empty(),
            r.capacity() == (if size_of::<T>() == 0 {
                usize::MAX as nat
            } else {
                0
            }),
    {
        Vec { buf: RawVec::new(), len: 0 }
    }

    /// Appends `elem`. A full buffer grows first, and growing keeps every
    /// element in its place.
    pub fn push(&mut self, elem: T)
        requires
            old(self).wf(),
            old(self).accepts(),
        ensures
            final(self).wf(),
            final(self)@ == old(self)@.push(elem),
            final(self).capacity() == old(self).capacity_after_insertion(),
    {
        if self.len == self.cap() {
            self.buf.grow();
        }
        self.buf.mem.push(elem);
        self.len += 1;
    }

    /// Removes the last element and returns it, or returns nothing if the
    /// array is empty. The capacity stays.
    pub fn pop(&mut self) -> (r: core::option::Option<T>)
        requires
            old(self).wf(),
        ensures
            final(self).wf(),
            final(self).capacity() == old(self).capacity(),
            old(self)@.len() == 0 ==> r is None && final(self)@ == old(self)@,
            old(self)@.len() > 0 ==> r == Some(old(self)@.last()) && final(self)@ == old(
                self,
            )@.drop_last(),
    {
        if self.len == 0 {
            None
        } else {
            self.len -= 1;
            self.buf.mem.pop()
        }
    }

    /// Puts `elem` at `index` and moves every element from there on one
    /// place up. A full buffer grows first.
    #[verifier::loop_isolation(false)]
    pub fn insert(&mut self, index: usize, elem: T)
        requires
            old(self).wf(),
            index <= old(self)@.len(),
            old(self).accepts(),
        ensures
            final(self).wf(),
            final(self)@ == old(self)@.insert(index as int, elem),
            final(self).capacity() == old(self).capacity_after_insertion(),
    {
        if self.cap() == self.len {
            self.buf.grow();
        }
        let ghost before = self.buf.mem@;
        let ghost cap = self.buf.cap;
        self.buf.mem.push(elem);
        let mut at = self.len;
        while at > index
            invariant
                index <= at <= before.len(),
                self.len == before.len(),
                self.buf.cap == cap,
                self.buf.mem@ == before.insert(at as int, elem),
            decreases at,
        {
            swap_adjacent(&mut self.buf.mem, at);
            at -= 1;
        }
        self.len += 1;
    }

    /// Takes the element at `index` out and moves every element after it one
    /// place down. The capacity stays.
    #[verifier::loop_isolation(false)]
    pub fn remove(&mut self, index: usize) -> (r: T)
        requires
            old(self).wf(),
            index < old(self)@.len(),
        ensures
            final(self).wf(),
            r == old(self)@[index as int],
            final(self)@ == old(self)@.remove(index as int),
            final(self).capacity() == old(self).capacity(),
    {
        let ghost before = self.buf.mem@;
        let ghost cap = self.buf.cap;
        self.len -= 1;
        let mut at = index;
        while at < self.len
            invariant
                index <= at <= self.len,
                self.len + 1 == before.len(),
                self.buf.cap == cap,
                self.buf.mem@ == before.remove(index as int).insert(at as int, before[index as int]),
            decreases self.len - at,
        {
            swap_adjacent(&mut self.buf.mem, at + 1);
            at += 1;
        }
        match self.buf.mem.pop() {
            Some(elem) => elem,
            None => vstd::pervasive::unreached(),
        }
    }

    /// Moves every element out into a [`Drain`], which hands them on one by
    /// one from either end. The array is empty at once and keeps its
    /// capacity; elements that the `Drain` has not handed on are dropped
    /// with it.
    pub fn drain(&mut self) -> (r: Drain<'_, T>)
        requires
            old(self).wf(),
        ensures
            final(self).wf(),
            final(self)@ == Seq::<T>::empty(),
            final(self).capacity() == old(self).capacity(),
            r@ == old(self)@,
    {
        let mut mem = std::vec::Vec::with_capacity(self.buf.cap);
        core::mem::swap(&mut self.buf.mem, &mut mem);
        self.len = 0;
        Drain { iter: RawValIter::new(mem), vec: PhantomData }
    }

    /// Turns the array into an [`IntoIter`], which hands its elements on one
    /// by one from either end.
    pub fn into_iter(self) -> (r: IntoIter<T>)
        ensures
            r@ == self@,
    {
        IntoIter { iter: RawValIter::new(self.buf.mem) }
    }
}

impl<T> Deref for Vec<T> {
    type Target = [T];

    /// The elements as a slice.
    fn deref(&self) -> (r: &[T])
        ensures
            r@ == self@,
    {
        self.buf.mem.as_slice()
    }
}

impl<T> DerefMut for Vec<T> {
    /// The elements as a mutable slice. Its length cannot change, so the
    /// array keeps its invariant whatever is written.
    fn deref_mut(&mut self) -> (r: &mut [T])
        ensures
            r@ == old(self)@,
            final(self)@ == final(r)@,
            final(self).capacity() == old(self).capacity(),
            old(self).wf() && final(r)@.len() == old(self)@.len() ==> final(self).wf(),
    {
        self.buf.mem.as_mut_slice()
    }
}

/// Wraps `Vec::capacity` of the standard library. The documentation of
/// `Vec` promises of it that it is no less than the length, that it is
/// `usize::MAX` for elements of size zero, and that no `Vec` allocates more
/// than `isize::MAX` bytes; the contract claims these three and no more.
#[verifier::external_body]
fn capacity_of<T>(mem: &std::vec::Vec<T>) -> (r: usize)
    ensures
        r >= mem@.len(),
        size_of::<T>() == 0 ==> r == usize::MAX,
        size_of::<T>() != 0 ==> r * size_of::<T>() <= isize::MAX,
{
    mem.capacity()
}

impl<T> From<std::vec::Vec<T>> for Vec<T> {
    /// Takes over the elements of `value` and its buffer, with the capacity
    /// that the buffer has.
    fn from(value: std::vec::Vec<T>) -> (r: Self)
        ensures
            r.wf(),
            r@ == value@,
    {
        let len = value.len();
        let cap = capacity_of(&value);
        Vec { buf: RawVec { mem: value, cap }, len }
    }
}

impl<T> FromSpecImpl<std::vec::Vec<T>> for Vec<T> {
    /// The capacity of the result is that of the buffer taken over, which
    /// no specification function gives: the contract of `from` says what
    /// holds.
    open spec fn obeys_from_spec() -> bool {
        false
    }

    open spec fn from_spec(v: std::vec::Vec<T>) -> Self {
        arbitrary()
    }
}

impl<T> From<Vec<T>> for std::vec::Vec<T> {
    /// Hands the elements and their buffer over to a `Vec` of the standard
    /// library.
    fn from(value: Vec<T>) -> (r: Self)
        ensures
            r@ == value@,
    {
        value.buf.mem
    }
}

impl<T> FromSpecImpl<Vec<T>> for std::vec::Vec<T> {
    /// Two `Vec`s of the standard library with the same elements are not
    /// known to be the same value: the contract of `from` speaks of the
    /// elements.
    open spec fn obeys_from_spec() -> bool {
        false
    }

    open spec fn from_spec(v: Vec<T>) -> Self {
        arbitrary()
    }
}

/// The elements after those of `xs` have been pushed onto `s`, first to
/// last.
pub open spec fn pushed<T>(s: Seq<T>, xs: Seq<T>) -> Seq<T>
    decreases xs.len(),
{
    if xs.len() == 0 {
        s
    } else {
        pushed(s.push(xs.first()), xs.drop_first())
    }
}

/// The values that `n` pops take from `s`, in the order in which the pops
/// return them. A pop of an empty array returns nothing.
pub open spec fn popped<T>(s: Seq<T>, n: nat) -> Seq<T>
    decreases n,
{
    if n == 0 || s.len() == 0 {
        Seq::empty()
    } else {
        seq![s.last()] + popped(s.drop_last(), (n - 1) as nat)
    }
}

/// The elements that `n` pops leave of `s`.
pub open spec fn after_pops<T>(s: Seq<T>, n: nat) -> Seq<T>
    decreases n,
{
    if n == 0 || s.len() == 0 {
        s
    } else {
        after_pops(s.drop_last(), (n - 1) as nat)
    }
}

/// Pushing the elements of `xs` one by one appends `xs`.
pub proof fn lemma_pushed_appends<T>(s: Seq<T>, xs: Seq<T>)
    ensures
        pushed(s, xs) == s + xs,
    decreases xs.len(),
{
    if xs.len() == 0 {
        assert(s + xs == s);
    } else {
        lemma_pushed_appends(s.push(xs.first()), xs.drop_first());
        assert(s.push(xs.first()) + xs.drop_first() == s + xs);
    }
}

/// As many pops as there are elements in `xs` take `xs` off the end of
/// `s + xs`, last element first, and leave `s`.
pub proof fn lemma_pops_undo_append<T>(s: Seq<T>, xs: Seq<T>)
    ensures
        popped(s + xs, xs.len()) == xs.reverse(),
        after_pops(s + xs, xs.len()) == s,
    decreases xs.len(),
{
    if xs.len() == 0 {
        assert(s + xs == s);
        assert(xs.reverse() == Seq::<T>::empty());
    } else {
        let all = s + xs;
        assert(all.last() == xs.last());
        assert(all.drop_last() == s + xs.drop_last());
        lemma_pops_undo_append(s, xs.drop_last());
        assert(xs.reverse() == seq![xs.last()] + xs.drop_last().reverse());
    }
}

/// Last in, first out: after the elements of `xs` have been pushed onto an
/// array and as many have been popped again, the pops have returned `xs` in
/// reverse and the array is as it was. From an empty array on, it is empty
/// again.
pub proof fn law_push_pop_lifo<T>(s: Seq<T>, xs: Seq<T>)
    ensures
        popped(pushed(s, xs), xs.len()) == xs.reverse(),
        after_pops(pushed(s, xs), xs.len()) == s,
        after_pops(pushed(Seq::<T>::empty(), xs), xs.len()) == Seq::<T>::empty(),
{
    lemma_pushed_appends(s, xs);
    lemma_pops_undo_append(s, xs);
    lemma_pushed_appends(Seq::<T>::empty(), xs);
    lemma_pops_undo_append(Seq::<T>::empty(), xs);
}

/// What is left of a run over the elements of one buffer: `next` takes from
/// the front of it, `next_back` from the back.
struct RawValIter<T> {
    rest: VecDeque<T>,
}

/// Wraps `VecDeque::from` of the standard library for a `Vec`: the deque
/// holds the elements of `mem`, in the same order.
#[verifier::external_body]
fn deque_of<T>(mem: std::vec::Vec<T>) -> (r: VecDeque<T>)
    ensures
        r@ == mem@,
{
    VecDeque::from(mem)
}

impl<T> RawValIter<T> {
    fn new(mem: std::vec::Vec<T>) -> (r: Self)
        ensures
            r.rest@ == mem@,
    {
        RawValIter { rest: deque_of(mem) }
    }

    fn next(&mut self) -> (r: core::option::Option<T>)
        ensures
            old(self).rest@.len() == 0 ==> r is None && final(self).rest@ == old(self).rest@,
            old(self).rest@.len() > 0 ==> r == Some(old(self).rest@.first()) && final(self).rest@
                == old(self).rest@.drop_first(),
    {
        self.rest.pop_front()
    }

    fn size_hint(&self) -> (r: (usize, core::option::Option<usize>))
        ensures
            r.0 == self.rest@.len(),
            r.1 == Some(r.0),
    {
        let len = self.rest.len();
        (len, Some(len))
    }

    fn next_back(&mut self) -> (r: core::option::Option<T>)
        ensures
            old(self).rest@.len() == 0 ==> r is None && final(self).rest@ == old(self).rest@,
            old(self).rest@.len() > 0 ==> r == Some(old(self).rest@.last()) && final(self).rest@
                == old(self).rest@.drop_last(),
    {
        self.rest.pop_back()
    }
}

/// The elements of an array that was turned into a run over them. Its view
/// is what is left, in index order.
pub struct IntoIter<T> {
    iter: RawValIter<T>,
}

impl<T> View for IntoIter<T> {
    type V = Seq<T>;

    closed spec fn view(&self) -> Seq<T> {
        self.iter.rest@
    }
}

impl<T> IntoIter<T> {
    /// Hands on the first element that is left, or nothing when none is.
    pub fn next(&mut self) -> (r: core::option::Option<T>)
        ensures
            old(self)@.len() == 0 ==> r is None && final(self)@ == old(self)@,
            old(self)@.len() > 0 ==> r == Some(old(self)@.first()) && final(self)@ == old(
                self,
            )@.drop_first(),
    {
        self.iter.next()
    }

    /// The number of elements that are left, as a lower and an upper bound.
    pub fn size_hint(&self) -> (r: (usize, core::option::Option<usize>))
        ensures
            r.0 == self@.len(),
            r.1 == Some(r.0),
    {
        self.iter.size_hint()
    }

    /// Hands on the last element that is left, or nothing when none is.
    pub fn next_back(&mut self) -> (r: core::option::Option<T>)
        ensures
            old(self)@.len() == 0 ==> r is None && final(self)@ == old(self)@,
            old(self)@.len() > 0 ==> r == Some(old(self)@.last()) && final(self)@ == old(
                self,
            )@.drop_last(),
    {
        self.iter.next_back()
    }
}

/// The elements that [`Vec::drain`] moved out of an array. Its view is what
/// is left, in index order. The array stays borrowed while the `Drain`
/// lives.
pub struct Drain<'a, T: 'a> {
    vec: PhantomData<&'a mut Vec<T>>,
    iter: RawValIter<T>,
}

impl<'a, T> View for Drain<'a, T> {
    type V = Seq<T>;

    closed spec fn view(&self) -> Seq<T> {
        self.iter.rest@
    }
}

impl<'a, T> Drain<'a, T> {
    /// Hands on the first element that is left, or nothing when none is.
    pub fn next(&mut self) -> (r: core::option::Option<T>)
        ensures
            old(self)@.len() == 0 ==> r is None && final(self)@ == old(self)@,
            old(self)@.len() > 0 ==> r == Some(old(self)@.first()) && final(self)@ == old(
                self,
            )@.drop_first(),
    {
        self.iter.next()
    }

    /// The number of elements that are left, as a lower and an upper bound.
    pub fn size_hint(&self) -> (r: (usize, core::option::Option<usize>))
        ensures
            r.0 == self@.len(),
            r.1 == Some(r.0),
    {
        self.iter.size_hint()
    }

    /// Hands on the last element that is left, or nothing when none is.
    pub fn next_back(&mut self) -> (r: core::option::Option<T>)
        ensures
            old(self)@.len() == 0 ==> r is None && final(self)@ == old(self)@,
            old(self)@.len() > 0 ==> r == Some(old(self)@.last()) && final(self)@ == old(
                self,
            )@.drop_last(),
    {
        self.iter.next_back()
    }
}

} // verus!
