//! The reference count of an atomically shared pointer.
//!
//! The instances of a shared pointer share one block, which holds the
//! payload and the number of instances that are alive. The count is 1 when
//! the block is made. A clone adds one to it, and gives up where it has
//! reached the largest signed size, so that it can never overflow. A drop
//! takes one from it, and the drop that finds the count at 1 was the last:
//! it frees the block, payload and all.
//!
//! [`ArcInner`] is that block with its count as a plain number, and its
//! operations are what a clone and a drop do to it. Which clone is turned
//! away and which drop frees is decided by [`clone_overflows`] and
//! [`drop_frees`], from the count that the operation found.
//! [`law_last_drop_frees`] says how many drops free the payload.

use vstd::prelude::*;

verus! {

/// Whether a clone that found the count at `old_rc` must give up: the count
/// had reached the largest signed size.
pub fn clone_overflows(old_rc: usize) -> (r: bool)
    ensures
        r == (old_rc >= isize::MAX),
{
    old_rc >= isize::MAX as usize
}

/// Whether a drop that found the count at `old_rc` was the last one, which
/// frees the block.
pub fn drop_frees(old_rc: usize) -> (r: bool)
    ensures
        r == (old_rc == 1),
{
    old_rc == 1
}

/// The block that the instances of a shared pointer share: the number of
/// instances that are alive, and the payload.
pub struct ArcInner<T> {
    rc: usize,
    data: T,
}

impl<T> View for ArcInner<T> {
    type V = (nat, T);

    /// The count and the payload.
    closed spec fn view(&self) -> (nat, T) {
        (self.rc as nat, self.data)
    }
}

/// The block after one more instance has been cloned.
pub open spec fn cloned_once<T>(block: (nat, T)) -> (nat, T) {
    (block.0 + 1, block.1)
}

/// The block after one instance has been dropped: nothing, where it was
/// the last one.
pub open spec fn dropped_once<T>(block: (nat, T)) -> Option<(nat, T)> {
    if block.0 <= 1 {
        None
    } else {
        Some(((block.0 - 1) as nat, block.1))
    }
}

/// The block after `k` more instances have been cloned.
pub open spec fn after_clones<T>(block: (nat, T), k: nat) -> (nat, T)
    decreases k,
{
    if k == 0 {
        block
    } else {
        after_clones(cloned_once(block), (k - 1) as nat)
    }
}

/// The block after `j` instances have been dropped: nothing, once the
/// last one has been.
pub open spec fn after_drops<T>(block: Option<(nat, T)>, j: nat) -> Option<(nat, T)>
    decreases j,
{
    if j == 0 {
        block
    } else {
        match block {
            Some(b) => after_drops(dropped_once(b), (j - 1) as nat),
            None => None,
        }
    }
}

impl<T> ArcInner<T> {
    #[verifier::type_invariant]
    spec fn alive(&self) -> bool {
        self.rc >= 1
    }

    /// The block of a new shared pointer: the count is 1, for the instance
    /// that is being made.
    pub fn new(data: T) -> (r: Self)
        ensures
            r@ == (1nat, data),
    {
        ArcInner { rc: 1, data }
    }

    /// The number of instances that are alive. It is at least 1.
    pub fn count(&self) -> (r: usize)
        ensures
            r == self@.0,
            r >= 1,
    {
        proof {
            use_type_invariant(self);
        }
        self.rc
    }

    /// The payload, for reading.
    pub fn data(&self) -> (r: &T)
        ensures
            *r == self@.1,
    {
        &self.data
    }

    /// What a clone does to the block: it adds one to the count. Where the
    /// count had reached the largest signed size the clone gives up, and
    /// nothing comes back.
    pub fn retain(self) -> (r: Option<Self>)
        ensures
            r is Some == (self@.0 < isize::MAX),
            r is Some ==> r->Some_0@ == cloned_once(self@),
    {
        let old_rc = self.rc;
        if clone_overflows(old_rc) {
            None
        } else {
            Some(ArcInner { rc: old_rc + 1, data: self.data })
        }
    }

    /// What a drop does to the block: it takes one from the count. The drop
    /// that found the count at 1 was the last: it frees the block, and
    /// nothing comes back.
    pub fn release(self) -> (r: Option<Self>)
        ensures
            r is Some == (self@.0 != 1),
            match r {
                Some(block) => Some(block@) == dropped_once(self@),
                None => dropped_once(self@) is None,
            },
    {
        proof {
            use_type_invariant(&self);
        }
        let old_rc = self.rc;
        if drop_frees(old_rc) {
            None
        } else {
            Some(ArcInner { rc: old_rc - 1, data: self.data })
        }
    }
}

/// After `k` clones the count is `k` higher, and the payload is the same.
pub proof fn lemma_after_clones<T>(block: (nat, T), k: nat)
    ensures
        after_clones(block, k) == (block.0 + k, block.1),
    decreases k,
{
    if k > 0 {
        lemma_after_clones(cloned_once(block), (k - 1) as nat);
    }
}

/// While fewer instances have been dropped than are alive, the block is
/// there with its payload, and the count is lower by the number of drops.
/// Once as many have been dropped as were alive, the block is gone.
pub proof fn lemma_after_drops<T>(block: (nat, T), j: nat)
    requires
        block.0 >= 1,
    ensures
        j < block.0 ==> after_drops(Some(block), j) == Some(((block.0 - j) as nat, block.1)),
        j >= block.0 ==> after_drops(Some(block), j) is None,
    decreases j,
{
    if j > 0 {
        if block.0 > 1 {
            lemma_after_drops(((block.0 - 1) as nat, block.1), (j - 1) as nat);
        } else {
            lemma_drops_of_nothing::<T>((j - 1) as nat);
        }
    }
}

/// Nothing stays nothing, whatever is dropped.
pub proof fn lemma_drops_of_nothing<T>(j: nat)
    ensures
        after_drops(None::<(nat, T)>, j) is None,
    decreases j,
{
    if j > 0 {
        lemma_drops_of_nothing::<T>((j - 1) as nat);
    }
}

/// A shared pointer that was made once and cloned `k` times takes exactly
/// `k + 1` drops to free its payload: after any fewer, `j` of them, the
/// payload is still there, unchanged, with `k + 1 - j` instances alive; and
/// after `k + 1` it is gone.
pub proof fn law_last_drop_frees<T>(data: T, k: nat, j: nat)
    ensures
        j <= k ==> after_drops(Some(after_clones((1nat, data), k)), j) == Some(
            ((k + 1 - j) as nat, data),
        ),
        after_drops(Some(after_clones((1nat, data), k)), k + 1) is None,
{
    lemma_after_clones((1nat, data), k);
    lemma_after_drops((1 + k, data), j);
    lemma_after_drops((1 + k, data), k + 1);
}

} // verus!
