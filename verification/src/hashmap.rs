//! An associative map over one array of slots, with open addressing.
//!
//! A [`HashMap`] owns `capacity` slots, each of which is empty or holds one
//! entry, a key with its value. A key is hashed to a bucket, the slot at
//! which the search for its place begins. Two keys are the same key when
//! the equality of their type says so.
//!
//! - Insertion first doubles the capacity, and places every entry anew, if
//!   more than three quarters of the slots were in use. Then, if the key is
//!   in the map already, its entry is overwritten and the old value comes
//!   back. Otherwise the entry goes into the first empty slot at or after
//!   its bucket, wrapping round at the end of the array.
//! - Lookup probes every slot at most once, from the bucket on and wrapping
//!   round, and so ends on every key, also on one that is not in the map.
//!
//! The view of a map is its array of slots. What a map holds for a key is
//! [`lookup`] of that view; no key is in two slots, so which slot holds an
//! entry never changes what a lookup finds.

use crate::option::Option;
use crate::owned_slice::OwnedSlice;
use crate::owned_str::OwnedStr;
use core::hash::Hash;
use core::hash::Hasher;
use core::ops::Deref;
use core::ops::DerefMut;
use std::collections::hash_map::DefaultHasher;
use vstd::prelude::*;
use vstd::std_specs::cmp::PartialEqSpec;
use vstd::std_specs::hash::DefaultHasherAdditionalSpecFns;
use vstd::std_specs::iter::IteratorSpec;

verus! {

/// The slots of a map as plain values: `None` for an empty slot, the key
/// and the value for one in use.
pub type Slots<K, V> = Seq<core::option::Option<(K, V)>>;

/// Whether the equality of `K` is one that keys can be told apart by: what
/// it computes is what `eq_spec` says, and that is reflexive, symmetric and
/// transitive.
pub open spec fn equivalence<K: PartialEq>() -> bool {
    &&& K::obeys_eq_spec()
    &&& forall|a: K| #[trigger] a.eq_spec(&a)
    &&& forall|a: K, b: K| #[trigger] a.eq_spec(&b) ==> b.eq_spec(&a)
    &&& forall|a: K, b: K, c: K| #[trigger] a.eq_spec(&b) && #[trigger] b.eq_spec(&c) ==> a.eq_spec(&c)
}

/// Whether slot `i` is in use and holds the key `k`.
pub open spec fn holds<K: PartialEq, V>(slots: Slots<K, V>, i: int, k: K) -> bool {
    &&& 0 <= i < slots.len()
    &&& slots[i] is Some
    &&& slots[i]->Some_0.0.eq_spec(&k)
}

/// Whether some slot holds the key `k`.
pub open spec fn has_key<K: PartialEq, V>(slots: Slots<K, V>, k: K) -> bool {
    exists|i: int| holds(slots, i, k)
}

/// A slot that holds the key `k`, where there is one.
pub open spec fn position<K: PartialEq, V>(slots: Slots<K, V>, k: K) -> int {
    choose|i: int| holds(slots, i, k)
}

/// What the map holds for the key `k`: the value of its entry, or nothing.
pub open spec fn lookup<K: PartialEq, V>(slots: Slots<K, V>, k: K) -> core::option::Option<V> {
    if has_key(slots, k) {
        Some(slots[position(slots, k)]->Some_0.1)
    } else {
        None
    }
}

/// Whether no key is in two slots.
pub open spec fn distinct<K: PartialEq, V>(slots: Slots<K, V>) -> bool {
    forall|i: int, j: int|
        0 <= i < slots.len() && 0 <= j < slots.len() && i != j && (#[trigger] slots[i]) is Some
            && (#[trigger] slots[j]) is Some ==> !slots[i]->Some_0.0.eq_spec(&slots[j]->Some_0.0)
}

/// The number of slots in use.
pub open spec fn occupied<K, V>(slots: Slots<K, V>) -> nat
    decreases slots.len(),
{
    if slots.len() == 0 {
        0
    } else {
        occupied(slots.drop_last()) + (if slots.last() is Some {
            1nat
        } else {
            0nat
        })
    }
}

/// The number of entries beyond which a map of `capacity` slots doubles
/// before it takes another: three quarters of the capacity, rounded down.
pub open spec fn threshold(capacity: nat) -> nat {
    3 * capacity / 4
}

/// The first empty slot from `lo` up to but not including `hi`, or `hi`
/// where all of them are in use.
pub open spec fn first_free<K, V>(slots: Slots<K, V>, lo: int, hi: int) -> int
    decreases hi - lo,
{
    if lo >= hi {
        hi
    } else if slots[lo] is None {
        lo
    } else {
        first_free(slots, lo + 1, hi)
    }
}

/// The slot that a new entry with bucket `start` goes into: the first empty
/// one at or after `start`, or else the first empty one from the beginning
/// of the array. Where no slot is empty this is the length of the array.
pub open spec fn free_slot<K, V>(slots: Slots<K, V>, start: int) -> int {
    let after = first_free(slots, start, slots.len() as int);
    if after < slots.len() {
        after
    } else {
        first_free(slots, 0, slots.len() as int)
    }
}

/// The slot that the entry of key `k` with bucket `start` is written to:
/// the one that holds `k` already, or else the free slot for `start`.
pub open spec fn target<K: PartialEq, V>(slots: Slots<K, V>, start: int, k: K) -> int {
    if has_key(slots, k) {
        position(slots, k)
    } else {
        free_slot(slots, start)
    }
}

/// The slots after the entry of key `k` and value `v` with bucket `start`
/// has been written.
pub open spec fn placed<K: PartialEq, V>(slots: Slots<K, V>, start: int, k: K, v: V) -> Slots<
    K,
    V,
> {
    slots.update(target(slots, start, k), Some((k, v)))
}

/// Whether an insertion can find a slot: the key is in the map already, or
/// a slot is empty.
pub open spec fn has_place<K: PartialEq, V>(slots: Slots<K, V>, k: K) -> bool {
    has_key(slots, k) || occupied(slots) < slots.len()
}

/// An array of `n` empty slots.
pub open spec fn empty_slots<K, V>(n: nat) -> Slots<K, V> {
    Seq::new(n, |i: int| None)
}

/// Writing slot `i` changes the number of slots in use by what the slot
/// gains or loses.
pub proof fn lemma_occupied_update<K, V>(
    slots: Slots<K, V>,
    i: int,
    e: core::option::Option<(K, V)>,
)
    requires
        0 <= i < slots.len(),
    ensures
        occupied(slots.update(i, e)) + (if slots[i] is Some {
            1nat
        } else {
            0nat
        }) == occupied(slots) + (if e is Some {
            1nat
        } else {
            0nat
        }),
    decreases slots.len(),
{
    let after = slots.update(i, e);
    if i == slots.len() - 1 {
        assert(after.drop_last() == slots.drop_last());
    } else {
        assert(after.drop_last() == slots.drop_last().update(i, e));
        lemma_occupied_update(slots.drop_last(), i, e);
    }
}

/// No more slots are in use than there are, and where fewer are, one of
/// them is empty.
pub proof fn lemma_occupied_bound<K, V>(slots: Slots<K, V>)
    ensures
        occupied(slots) <= slots.len(),
        occupied(slots) < slots.len() ==> exists|i: int|
            0 <= i < slots.len() && (#[trigger] slots[i]) is None,
        occupied(slots) == slots.len() ==> forall|i: int|
            0 <= i < slots.len() ==> (#[trigger] slots[i]) is Some,
    decreases slots.len(),
{
    if slots.len() > 0 {
        let front = slots.drop_last();
        lemma_occupied_bound(front);
        if occupied(slots) < slots.len() {
            if slots.last() is None {
                assert(slots[slots.len() - 1] is None);
            } else {
                let i = choose|i: int| 0 <= i < front.len() && (#[trigger] front[i]) is None;
                assert(slots[i] is None);
            }
        } else {
            assert forall|i: int| 0 <= i < slots.len() implies (#[trigger] slots[i]) is Some by {
                if i < front.len() {
                    assert(front[i] is Some);
                }
            }
        }
    }
}

/// In an array of empty slots none is in use, no key is held, and no key is
/// in two slots.
pub proof fn lemma_empty_slots<K: PartialEq, V>(n: nat)
    ensures
        occupied(empty_slots::<K, V>(n)) == 0,
        distinct(empty_slots::<K, V>(n)),
        forall|k: K| !has_key(empty_slots::<K, V>(n), k),
        forall|k: K| lookup(empty_slots::<K, V>(n), k) is None,
    decreases n,
{
    if n > 0 {
        lemma_empty_slots::<K, V>((n - 1) as nat);
        assert(empty_slots::<K, V>(n).drop_last() == empty_slots::<K, V>((n - 1) as nat));
    }
}

/// What [`first_free`] finds: an empty slot before which every slot of the
/// range is in use, or the end of the range where all of it is in use.
pub proof fn lemma_first_free<K, V>(slots: Slots<K, V>, lo: int, hi: int)
    requires
        0 <= lo <= hi <= slots.len(),
    ensures
        lo <= first_free(slots, lo, hi) <= hi,
        first_free(slots, lo, hi) < hi ==> slots[first_free(slots, lo, hi)] is None,
        forall|j: int| lo <= j < first_free(slots, lo, hi) ==> (#[trigger] slots[j]) is Some,
    decreases hi - lo,
{
    if lo < hi && slots[lo] is Some {
        lemma_first_free(slots, lo + 1, hi);
    }
}

/// Where a slot is empty, [`free_slot`] is an empty slot of the array.
pub proof fn lemma_free_slot<K, V>(slots: Slots<K, V>, start: int)
    requires
        0 <= start <= slots.len(),
        occupied(slots) < slots.len(),
    ensures
        0 <= free_slot(slots, start) < slots.len(),
        slots[free_slot(slots, start)] is None,
{
    lemma_occupied_bound(slots);
    lemma_first_free(slots, start, slots.len() as int);
    lemma_first_free(slots, 0, slots.len() as int);
}

/// Where no key is in two slots, a slot that holds `k` decides what the
/// map holds for `k`.
pub proof fn lemma_lookup_at<K: PartialEq, V>(slots: Slots<K, V>, i: int, k: K)
    requires
        equivalence::<K>(),
        distinct(slots),
        holds(slots, i, k),
    ensures
        has_key(slots, k),
        position(slots, k) == i,
        lookup(slots, k) == Some(slots[i]->Some_0.1),
{
    let p = position(slots, k);
    assert(holds(slots, p, k));
    if p != i {
        let a = slots[i]->Some_0.0;
        let b = slots[p]->Some_0.0;
        assert(k.eq_spec(&b)) by {
            assert(b.eq_spec(&k));
        }
        assert(a.eq_spec(&b)) by {
            assert(a.eq_spec(&k) && k.eq_spec(&b));
        }
    }
}

/// What an insertion does to what the map holds. After the entry of key
/// `k` and value `v` has been written, the map holds `v` for `k` and, for
/// every other key, what it held before; still no key is in two slots; and
/// one more slot is in use, unless `k` was in the map already.
pub proof fn lemma_placed<K: PartialEq, V>(slots: Slots<K, V>, start: int, k: K, v: V)
    requires
        equivalence::<K>(),
        distinct(slots),
        0 <= start <= slots.len(),
        has_place(slots, k),
    ensures
        0 <= target(slots, start, k) < slots.len(),
        placed(slots, start, k, v).len() == slots.len(),
        distinct(placed(slots, start, k, v)),
        lookup(placed(slots, start, k, v), k) == Some(v),
        forall|other: K|
            !other.eq_spec(&k) ==> #[trigger] lookup(placed(slots, start, k, v), other) == lookup(
                slots,
                other,
            ),
        occupied(placed(slots, start, k, v)) == occupied(slots) + (if has_key(slots, k) {
            0nat
        } else {
            1nat
        }),
{
    let t = target(slots, start, k);
    let after = placed(slots, start, k, v);
    if has_key(slots, k) {
        assert(holds(slots, t, k));
    } else {
        lemma_free_slot(slots, start);
    }
    lemma_occupied_update(slots, t, Some((k, v)));
    // The slot written holds a key that is `k`, before (where it held one)
    // and after.
    assert(slots[t] is Some ==> slots[t]->Some_0.0.eq_spec(&k));
    assert forall|i: int, j: int|
        0 <= i < after.len() && 0 <= j < after.len() && i != j && (#[trigger] after[i]) is Some
            && (#[trigger] after[j]) is Some implies !after[i]->Some_0.0.eq_spec(
        &after[j]->Some_0.0,
    ) by {
        if i == t {
            let b = slots[j]->Some_0.0;
            if k.eq_spec(&b) {
                assert(b.eq_spec(&k));
                assert(holds(slots, j, k));
                assert(holds(slots, t, k));
                lemma_lookup_at(slots, j, k);
                lemma_lookup_at(slots, t, k);
            }
        } else if j == t {
            let a = slots[i]->Some_0.0;
            if a.eq_spec(&k) {
                assert(holds(slots, i, k));
                assert(holds(slots, t, k));
                lemma_lookup_at(slots, i, k);
                lemma_lookup_at(slots, t, k);
            }
        } else {
            assert(slots[i] is Some && slots[j] is Some);
        }
    }
    assert(holds(after, t, k));
    lemma_lookup_at(after, t, k);
    assert forall|other: K| !other.eq_spec(&k) implies #[trigger] lookup(after, other) == lookup(
        slots,
        other,
    ) by {
        lemma_other_key(slots, t, k, v, other);
    }
}

/// Writing the entry of a key `k` to a slot that is empty or holds `k`
/// leaves what the map holds for every other key.
proof fn lemma_other_key<K: PartialEq, V>(slots: Slots<K, V>, t: int, k: K, v: V, other: K)
    requires
        equivalence::<K>(),
        distinct(slots),
        distinct(slots.update(t, Some((k, v)))),
        0 <= t < slots.len(),
        slots[t] is Some ==> slots[t]->Some_0.0.eq_spec(&k),
        !other.eq_spec(&k),
    ensures
        lookup(slots.update(t, Some((k, v))), other) == lookup(slots, other),
{
    let after = slots.update(t, Some((k, v)));
    assert forall|i: int| holds(slots, i, other) implies i != t && holds(after, i, other) by {
        if i == t {
            let a = slots[t]->Some_0.0;
            assert(other.eq_spec(&a)) by {
                assert(a.eq_spec(&other));
            }
            assert(other.eq_spec(&k)) by {
                assert(other.eq_spec(&a) && a.eq_spec(&k));
            }
        }
    }
    assert forall|i: int| holds(after, i, other) implies i != t && holds(slots, i, other) by {
        if i == t {
            assert(k.eq_spec(&other));
            assert(other.eq_spec(&k));
        }
    }
    if has_key(slots, other) {
        let i = position(slots, other);
        assert(holds(slots, i, other));
        assert(holds(after, i, other));
        lemma_lookup_at(slots, i, other);
        lemma_lookup_at(after, i, other);
    } else if has_key(after, other) {
        let i = position(after, other);
        assert(holds(after, i, other));
        assert(holds(slots, i, other));
    }
}

/// Where the first slot does not hold `k`, the map holds for `k` what the
/// slots before the last hold, if the last does not hold `k` either.
proof fn lemma_lookup_without_last<K: PartialEq, V>(slots: Slots<K, V>, k: K)
    requires
        equivalence::<K>(),
        distinct(slots),
        slots.len() > 0,
        !holds(slots, slots.len() - 1, k),
    ensures
        distinct(slots.drop_last()),
        lookup(slots.drop_last(), k) == lookup(slots, k),
{
    let front = slots.drop_last();
    assert forall|i: int, j: int|
        0 <= i < front.len() && 0 <= j < front.len() && i != j && (#[trigger] front[i]) is Some
            && (#[trigger] front[j]) is Some implies !front[i]->Some_0.0.eq_spec(
        &front[j]->Some_0.0,
    ) by {
        assert(slots[i] is Some && slots[j] is Some);
    }
    if has_key(slots, k) {
        let i = position(slots, k);
        assert(holds(slots, i, k));
        assert(holds(front, i, k));
        lemma_lookup_at(slots, i, k);
        lemma_lookup_at(front, i, k);
    } else if has_key(front, k) {
        let i = position(front, k);
        assert(holds(front, i, k));
        assert(holds(slots, i, k));
    }
}

/// What one insertion of the key `k` with the value `v` does to a map,
/// whether or not the map doubles: afterwards it holds `v` for `k` and, for
/// every other key, what it held before; still no key is in two slots; and
/// it has the slots that it had, or twice as many.
pub open spec fn inserted<K: PartialEq, V>(before: Slots<K, V>, after: Slots<K, V>, k: K, v: V) -> bool {
    &&& distinct(after)
    &&& after.len() == before.len() || after.len() == 2 * before.len()
    &&& lookup(after, k) == Some(v)
    &&& forall|other: K|
        !other.eq_spec(&k) ==> #[trigger] lookup(after, other) == lookup(before, other)
}

/// Every key that was inserted can be found again, with its value. Let
/// `states` be the slots of a map before and after each of a run of
/// insertions, and `entries` what was inserted, all under keys that differ
/// from each other. Then after the last insertion the map holds for each of
/// the keys the value that was inserted with it, however often the map has
/// doubled on the way.
pub proof fn law_inserted_keys_are_found<K: PartialEq, V>(
    states: Seq<Slots<K, V>>,
    entries: Seq<(K, V)>,
)
    requires
        states.len() == entries.len() + 1,
        forall|i: int|
            0 <= i < entries.len() ==> inserted(
                #[trigger] states[i],
                states[i + 1],
                entries[i].0,
                entries[i].1,
            ),
        forall|i: int, j: int|
            0 <= i < entries.len() && 0 <= j < entries.len() && i != j ==> !(
            #[trigger] entries[i]).0.eq_spec(&(#[trigger] entries[j]).0),
    ensures
        forall|i: int|
            0 <= i < entries.len() ==> lookup(states.last(), (#[trigger] entries[i]).0) == Some(
                entries[i].1,
            ),
    decreases entries.len(),
{
    if entries.len() > 0 {
        let n = entries.len() - 1;
        let earlier_states = states.drop_last();
        let earlier = entries.drop_last();
        assert forall|i: int| 0 <= i < earlier.len() implies inserted(
            #[trigger] earlier_states[i],
            earlier_states[i + 1],
            earlier[i].0,
            earlier[i].1,
        ) by {
            assert(inserted(states[i], states[i + 1], entries[i].0, entries[i].1));
        }
        assert forall|i: int, j: int|
            0 <= i < earlier.len() && 0 <= j < earlier.len() && i != j implies !(
        #[trigger] earlier[i]).0.eq_spec(&(#[trigger] earlier[j]).0) by {
            assert(!entries[i].0.eq_spec(&entries[j].0));
        }
        law_inserted_keys_are_found(earlier_states, earlier);
        assert(earlier_states.last() == states[n]);
        assert(inserted(states[n], states[n + 1], entries[n].0, entries[n].1));
        assert forall|i: int| 0 <= i < entries.len() implies lookup(
            states.last(),
            (#[trigger] entries[i]).0,
        ) == Some(entries[i].1) by {
            if i < n {
                assert(!entries[i].0.eq_spec(&entries[n].0));
                assert(lookup(states[n], earlier[i].0) == Some(earlier[i].1));
            }
        }
    }
}

/// An entry of a map: a key with its value.
#[derive(Clone, Debug, PartialEq, Eq)]
pub struct KeyValue<K, V> {
    key: K,
    value: V,
}

impl<K, V> View for KeyValue<K, V> {
    type V = (K, V);

    /// The key and the value.
    closed spec fn view(&self) -> (K, V) {
        (self.key, self.value)
    }
}

impl<K, V> KeyValue<K, V> {
    /// The key of the entry.
    pub fn key(&self) -> (r: &K)
        ensures
            *r == self@.0,
    {
        &self.key
    }

    /// The value of the entry.
    pub fn value(&self) -> (r: &V)
        ensures
            *r == self@.1,
    {
        &self.value
    }
}

/// A slot as a plain value.
pub open spec fn plain<K, V>(slot: Option<KeyValue<K, V>>) -> core::option::Option<(K, V)> {
    match slot {
        Option::Present(entry) => Some(entry@),
        Option::Absent => None,
    }
}

/// An array of slots as plain values.
pub open spec fn plain_slots<K, V>(data: Seq<Option<KeyValue<K, V>>>) -> Slots<K, V> {
    data.map_values(|slot: Option<KeyValue<K, V>>| plain(slot))
}

/// An associative map over one array of slots.
#[derive(Clone, Debug, PartialEq, Eq)]
pub struct HashMap<K, V> {
    data: OwnedSlice<Option<KeyValue<K, V>>>,
    n_items: usize,
    capacity: usize,
}

impl<K, V> View for HashMap<K, V> {
    type V = Slots<K, V>;

    /// The slots, in index order.
    closed spec fn view(&self) -> Slots<K, V> {
        plain_slots(self.data@)
    }
}

/// Wraps `Hash::hash` of the standard library for a `DefaultHasher`: the
/// key feeds the hasher with what its own `Hash` writes. Nothing is claimed
/// of what that is.
#[verifier::external_body]
fn feed<K: Hash>(key: &K, state: &mut DefaultHasher) {
    key.hash(state)
}

/// The digest of a key by the hasher of the standard library, unseeded.
/// What the digest is is up to the `Hash` of the key, so nothing holds of
/// it for every key. What is done with it holds for every digest: see
/// [`bucket_of`] and [`HashMap::insert_at`].
fn hash<K: Hash>(s: &K) -> u64 {
    let mut hasher = DefaultHasher::new();
    feed(s, &mut hasher);
    hasher.finish()
}

/// The bucket of a key with the digest `digest` in an array of `capacity`
/// slots: the digest modulo the capacity.
pub open spec fn bucket_index(digest: u64, capacity: nat) -> nat {
    digest as nat % capacity
}

/// The bucket of a key with the digest `digest` in an array of `capacity`
/// slots: the slot at which the search for the key's place begins.
pub fn bucket_of(digest: u64, capacity: usize) -> (r: usize)
    requires
        capacity > 0,
    ensures
        r == bucket_index(digest, capacity as nat),
        r < capacity,
{
    let index = digest % (capacity as u64);
    index as usize
}

/// The writes with which the standard library feeds a hasher when it
/// hashes the byte slice `bytes`. They are a matter of that library; what
/// matters here is that the bytes alone decide them.
pub uninterp spec fn slice_hash_writes(bytes: Seq<u8>) -> Seq<Seq<u8>>;

/// The digest of the text whose bytes are `bytes`: what the unseeded hasher
/// of the standard library makes of the writes for that byte slice. The
/// same bytes always have the same digest.
pub open spec fn text_digest(bytes: Seq<u8>) -> u64 {
    DefaultHasher::spec_finish(slice_hash_writes(bytes))
}

/// Wraps `Hash::hash` of the standard library for a byte slice and a
/// `DefaultHasher`: it feeds the hasher, after what it was fed before, with
/// the writes for that byte slice, which depend on the bytes alone.
#[verifier::external_body]
fn feed_bytes(bytes: &[u8], state: &mut DefaultHasher)
    ensures
        final(state)@ == old(state)@ + slice_hash_writes(bytes@),
{
    bytes.hash(state)
}

/// The digest of a text. It depends on the bytes of the text alone, with no
/// seed and nothing drawn at random: the same text has the same digest
/// whenever and wherever it is asked for. It is the digest by which a map
/// finds the bucket of an [`OwnedStr`] key.
pub fn crust_hash_owned_str(s: &OwnedStr) -> (r: u64)
    ensures
        r == text_digest(s.bytes()),
{
    let mut hasher = DefaultHasher::new();
    feed_bytes(s.as_bytes(), &mut hasher);
    hasher.finish()
}

/// Texts are keys: their equality, which compares the bytes, is reflexive,
/// symmetric and transitive.
pub proof fn lemma_text_keys()
    ensures
        equivalence::<OwnedStr>(),
{
}

/// The least slot from `lo` up to but not including `hi` that holds `key`.
fn find_key<K: PartialEq, V>(data: &[Option<KeyValue<K, V>>], lo: usize, hi: usize, key: &K) -> (r:
    core::option::Option<usize>)
    requires
        K::obeys_eq_spec(),
        lo <= hi <= data@.len(),
    ensures
        r is Some ==> lo <= r->Some_0 < hi && holds(plain_slots(data@), r->Some_0 as int, *key),
        r is None ==> forall|j: int| lo <= j < hi ==> !holds(plain_slots(data@), j, *key),
{
    let mut i = lo;
    while i < hi
        invariant
            K::obeys_eq_spec(),
            lo <= i <= hi <= data@.len(),
            forall|j: int| lo <= j < i ==> !holds(plain_slots(data@), j, *key),
        decreases hi - i,
    {
        match &data[i] {
            Option::Present(entry) => {
                if entry.key == *key {
                    return Some(i);
                }
            },
            Option::Absent => {},
        }
        i += 1;
    }
    None
}

/// The first empty slot from `lo` up to but not including `hi`, or `hi`.
fn find_free<K, V>(data: &[Option<KeyValue<K, V>>], lo: usize, hi: usize) -> (r: usize)
    requires
        lo <= hi <= data@.len(),
    ensures
        r == first_free(plain_slots(data@), lo as int, hi as int),
{
    let mut i = lo;
    while i < hi
        invariant
            lo <= i <= hi <= data@.len(),
            first_free(plain_slots(data@), lo as int, hi as int) == first_free(
                plain_slots(data@),
                i as int,
                hi as int,
            ),
        decreases hi - i,
    {
        if data[i].is_none() {
            return i;
        }
        i += 1;
    }
    hi
}

impl<K: Clone + Hash + Eq, V: Clone> HashMap<K, V> {
    /// The invariant of the map: it has as many slots as its capacity says,
    /// it counts the slots in use, and no key is in two slots.
    pub closed spec fn wf(&self) -> bool {
        &&& self.data@.len() == self.capacity
        &&& self.n_items == occupied(self@)
        &&& distinct(self@)
    }

    /// What the invariant says of the slots.
    pub proof fn lemma_wf(&self)
        requires
            self.wf(),
        ensures
            distinct(self@),
            occupied(self@) <= self@.len() <= usize::MAX,
    {
        lemma_occupied_bound(self@);
    }

    /// The slots of the map as it holds them, each empty or with its
    /// entry. Their plain values are the view.
    pub closed spec fn entries(&self) -> Seq<Option<KeyValue<K, V>>> {
        self.data@
    }

    /// The view is the entries as plain values.
    pub proof fn lemma_entries(&self)
        ensures
            self@ == plain_slots(self.entries()),
    {
    }

    /// An empty map of 64 slots.
    pub fn new() -> (r: Self)
        ensures
            r.wf(),
            r@ == empty_slots::<K, V>(64),
    {
        let capacity: usize = 64;
        Self::with_capacity(capacity)
    }

    /// An empty map of `capacity` slots.
    pub fn with_capacity(capacity: usize) -> (r: Self)
        ensures
            r.wf(),
            r@ == empty_slots::<K, V>(capacity as nat),
    {
        let mut slots: Vec<Option<KeyValue<K, V>>> = Vec::with_capacity(capacity);
        while slots.len() < capacity
            invariant
                slots@.len() <= capacity,
                forall|i: int| 0 <= i < slots@.len() ==> (#[trigger] slots@[i]) is Absent,
            decreases capacity - slots@.len(),
        {
            slots.push(Option::Absent);
        }
        let data = OwnedSlice::from(slots);
        proof {
            assert(plain_slots(data@) == empty_slots::<K, V>(capacity as nat));
            lemma_empty_slots::<K, V>(capacity as nat);
        }
        HashMap { data, n_items: 0, capacity }
    }

    /// The number of entries.
    pub fn len(&self) -> (r: usize)
        requires
            self.wf(),
        ensures
            r == occupied(self@),
    {
        self.n_items
    }

    /// The number of slots.
    pub fn capacity(&self) -> (r: usize)
        requires
            self.wf(),
        ensures
            r == self@.len(),
    {
        self.capacity
    }

    /// Whether [`HashMap::insert`] can take an entry: the map has a slot,
    /// and where it is about to double, twice its capacity is a number that
    /// a capacity can be.
    pub open spec fn accepts(&self) -> bool {
        &&& self@.len() > 0
        &&& occupied(self@) > threshold(self@.len()) ==> 2 * self@.len() <= usize::MAX
    }

    /// The number of slots after an insertion: twice as many where more
    /// than three quarters were in use, and as many as before otherwise.
    pub open spec fn capacity_after_insertion(&self) -> nat {
        if occupied(self@) > threshold(self@.len()) {
            2 * self@.len()
        } else {
            self@.len()
        }
    }

    /// Whether the map is about to double: more than three quarters of its
    /// slots are in use.
    fn over_threshold(&self) -> (r: bool)
        requires
            self.wf(),
        ensures
            r == (occupied(self@) > threshold(self@.len())),
    {
        let quarter = self.capacity / 4;
        let rest = self.capacity % 4;
        let limit = quarter * 3 + rest * 3 / 4;
        assert(limit == threshold(self.capacity as nat)) by {
            assert(self.capacity == 4 * quarter + rest);
        }
        self.n_items > limit
    }

    /// Whether [`HashMap::insert`] can take an entry.
    pub fn has_room(&self) -> (r: bool)
        requires
            self.wf(),
        ensures
            r == self.accepts(),
    {
        self.capacity > 0 && (!self.over_threshold() || self.capacity <= usize::MAX / 2)
    }

    /// The bucket of `key` in a map of `capacity` slots: what [`bucket_of`]
    /// makes of the digest of the key. The digest is up to the `Hash` of the
    /// key, so all that holds of every key is that the bucket is a slot.
    fn bucket(key: &K, capacity: usize) -> (r: usize)
        requires
            capacity > 0,
        ensures
            r < capacity,
    {
        bucket_of(hash(key), capacity)
    }

    /// Puts the entry of `key` and `value` into the map and returns the
    /// value that the map held for `key` before, if it held one. The map
    /// doubles first, keeping every entry, if more than three quarters of
    /// its slots were in use. Then it holds `value` for `key` and, for every
    /// other key, what it held before. Where the map does not double, every
    /// other slot stays as it was, and the entry goes where [`placed`] says
    /// for the bucket of the key.
    pub fn insert(&mut self, key: K, value: V) -> (r: core::option::Option<V>)
        requires
            old(self).wf(),
            equivalence::<K>(),
            old(self).accepts(),
        ensures
            final(self).wf(),
            final(self)@.len() == old(self).capacity_after_insertion(),
            r == lookup(old(self)@, key),
            occupied(old(self)@) <= threshold(old(self)@.len()) ==> exists|start: int|
                0 <= start < old(self)@.len() && final(self)@ == #[trigger] placed(
                    old(self)@,
                    start,
                    key,
                    value,
                ),
            inserted(old(self)@, final(self)@, key, value),
            lookup(final(self)@, key) == Some(value),
            forall|other: K|
                !other.eq_spec(&key) ==> #[trigger] lookup(final(self)@, other) == lookup(
                    old(self)@,
                    other,
                ),
            occupied(final(self)@) == occupied(old(self)@) + (if has_key(old(self)@, key) {
                0nat
            } else {
                1nat
            }),
    {
        if self.over_threshold() {
            self.double_capacity()
        }
        proof {
            lemma_occupied_bound(old(self)@);
            assert(threshold(old(self)@.len()) < old(self)@.len());
            assert(occupied(self@) < self@.len());
            assert(has_key(self@, key) == has_key(old(self)@, key)) by {
                assert(lookup(self@, key) == lookup(old(self)@, key));
            }
            lemma_placed(self@, 0, key, value);
        }
        let index = Self::bucket(&key, self.capacity);
        proof {
            lemma_placed(self@, index as int, key, value);
        }
        self.insert_at(index, key, value)
    }

    /// Puts the entry of `key` and `value` into the map, for a key whose
    /// bucket is `start`, and returns the value that the map held for `key`
    /// before, if it held one. The entry goes where [`placed`] says: into
    /// the slot that holds `key` already, or else into the first empty slot
    /// at or after `start`, wrapping round at the end of the array.
    /// [`lemma_placed`] says what the map holds afterwards.
    pub fn insert_at(&mut self, start: usize, key: K, value: V) -> (r: core::option::Option<V>)
        requires
            old(self).wf(),
            equivalence::<K>(),
            start <= old(self)@.len(),
            has_place(old(self)@, key),
        ensures
            final(self).wf(),
            final(self)@ == placed(old(self)@, start as int, key, value),
            r == lookup(old(self)@, key),
    {
        let cap = self.capacity;
        let ghost before = self@;
        proof {
            lemma_placed(before, start as int, key, value);
        }
        match find_key(self.data.deref(), 0, cap, &key) {
            Some(i) => {
                proof {
                    lemma_lookup_at(before, i as int, key);
                }
                let slots = self.data.deref_mut();
                let held = slots[i].replace(KeyValue { key, value });
                assert(self@ == placed(before, start as int, key, value));
                match held {
                    Option::Present(entry) => Some(entry.value),
                    Option::Absent => None,
                }
            },
            None => {
                assert(!has_key(before, key));
                proof {
                    lemma_free_slot(before, start as int);
                }
                let mut slot = find_free(self.data.deref(), start, cap);
                if slot >= cap {
                    slot = find_free(self.data.deref(), 0, cap);
                }
                let slots = self.data.deref_mut();
                slots[slot] = Option::Present(KeyValue { key, value });
                self.n_items += 1;
                assert(self@ == placed(before, start as int, key, value));
                None
            },
        }
    }

    /// Borrows the value that the map holds for `key`, or returns nothing
    /// where it holds none. The search begins at the bucket of the key and
    /// probes every slot at most once.
    pub fn get(&self, key: &K) -> (r: core::option::Option<&V>)
        requires
            self.wf(),
            equivalence::<K>(),
        ensures
            r is Some == has_key(self@, *key),
            r is Some ==> lookup(self@, *key) == Some(*r->Some_0),
            r is None ==> lookup(self@, *key) is None,
    {
        if self.capacity == 0 {
            return None;
        }
        let start = Self::bucket(key, self.capacity);
        let data = self.data.deref();
        let found = match find_key(data, start, self.capacity, key) {
            Some(i) => Some(i),
            None => find_key(data, 0, start, key),
        };
        match found {
            Some(i) => {
                proof {
                    lemma_lookup_at(self@, i as int, *key);
                }
                match &data[i] {
                    Option::Present(entry) => Some(&entry.value),
                    Option::Absent => None,
                }
            },
            None => None,
        }
    }

    /// A run over the slots of the map, in index order, each empty or with
    /// its entry.
    pub fn iter(&self) -> (r: core::slice::Iter<'_, Option<KeyValue<K, V>>>)
        ensures
            r.remaining() == self.entries().as_ref(),
    {
        self.data.deref().iter()
    }

    /// Doubles the number of slots and places every entry anew, each from
    /// its bucket in the larger array. The map holds for every key what it
    /// held before.
    fn double_capacity(&mut self)
        requires
            old(self).wf(),
            equivalence::<K>(),
            2 * old(self)@.len() <= usize::MAX,
        ensures
            final(self).wf(),
            final(self)@.len() == 2 * old(self)@.len(),
            occupied(final(self)@) == occupied(old(self)@),
            forall|k: K| #[trigger] lookup(final(self)@, k) == lookup(old(self)@, k),
    {
        let ghost before = self@;
        let old_capacity = self.capacity;
        let new_capacity = 2 * old_capacity;
        let mut held = Self::with_capacity(new_capacity);
        core::mem::swap(self, &mut held);
        let mut entries = held.data.into_vec();
        let mut i: usize = 0;
        proof {
            assert(before.take(0) == empty_slots::<K, V>(0));
            lemma_empty_slots::<K, V>(0);
            lemma_empty_slots::<K, V>(new_capacity as nat);
        }
        while i < old_capacity
            invariant
                equivalence::<K>(),
                distinct(before),
                before.len() == old_capacity,
                new_capacity == 2 * old_capacity,
                i <= old_capacity,
                entries@.len() == old_capacity,
                forall|j: int| i <= j < old_capacity ==> plain(#[trigger] entries@[j]) == before[j],
                self.wf(),
                self@.len() == new_capacity,
                distinct(before.take(i as int)),
                occupied(self@) == occupied(before.take(i as int)),
                forall|k: K| #[trigger] lookup(self@, k) == lookup(before.take(i as int), k),
            decreases old_capacity - i,
        {
            let ghost done = before.take(i as int);
            let ghost next = before.take(i + 1);
            proof {
                assert(next.drop_last() == done);
                assert(next.last() == before[i as int]);
                lemma_occupied_bound(done);
                assert forall|a: int, b: int|
                    0 <= a < next.len() && 0 <= b < next.len() && a != b && (
                    #[trigger] next[a]) is Some && (#[trigger] next[b]) is Some implies !next[a]->Some_0.0.eq_spec(
                &next[b]->Some_0.0) by {
                    assert(before[a] is Some && before[b] is Some);
                }
            }
            let slot = entries[i].take();
            match slot {
                Option::Present(entry) => {
                    let ghost k = entry.key;
                    let ghost v = entry.value;
                    proof {
                        assert(holds(next, i as int, k));
                        lemma_lookup_at(next, i as int, k);
                        // The key is in no slot placed so far.
                        if has_key(done, k) {
                            let p = position(done, k);
                            assert(holds(done, p, k));
                            assert(holds(next, p, k));
                            lemma_lookup_at(next, p, k);
                        }
                        assert(lookup(self@, k) == lookup(done, k));
                        assert(!has_key(self@, k));
                        lemma_placed(self@, 0, k, v);
                    }
                    let start = Self::bucket(&entry.key, new_capacity);
                    let ghost mid = self@;
                    proof {
                        lemma_placed(mid, start as int, k, v);
                    }
                    self.insert_at(start, entry.key, entry.value);
                    proof {
                        assert forall|other: K| #[trigger]
                            lookup(self@, other) == lookup(next, other) by {
                            if other.eq_spec(&k) {
                                assert(k.eq_spec(&other));
                                assert(holds(next, i as int, other));
                                lemma_lookup_at(next, i as int, other);
                                assert(holds(self@, target(mid, start as int, k), other));
                                lemma_lookup_at(self@, target(mid, start as int, k), other);
                            } else {
                                assert(!holds(next, next.len() - 1, other)) by {
                                    if k.eq_spec(&other) {
                                        assert(other.eq_spec(&k));
                                    }
                                }
                                lemma_lookup_without_last(next, other);
                                assert(lookup(mid, other) == lookup(done, other));
                            }
                        }
                    }
                },
                Option::Absent => {
                    proof {
                        assert forall|other: K| #[trigger]
                            lookup(self@, other) == lookup(next, other) by {
                            lemma_lookup_without_last(next, other);
                            assert(lookup(self@, other) == lookup(done, other));
                        }
                    }
                },
            }
            i += 1;
        }
        proof {
            assert(before.take(old_capacity as int) == before);
        }
    }
}

} // verus!
