//! Owned text of fixed length.
//!
//! [`OwnedStr`] is an [`OwnedSlice`] of bytes that are valid UTF-8 at every
//! moment. It can only be made from text that is valid already, and nothing
//! it offers can break that. Its view is the text, as a sequence of
//! characters; [`OwnedStr::bytes`] is the same text as it lies in memory.
//!
//! Converting a `String` into an `OwnedStr` and back gives the same text:
//! [`law_string_round_trip`] says so of every text.

use crate::owned_slice::OwnedSlice;
use core::ops::Deref;
use vstd::pervasive::unreached;
use vstd::prelude::*;
use vstd::std_specs::cmp::PartialEqSpec;
use vstd::std_specs::convert::FromSpecImpl;
use vstd::utf8::decode_utf8;
use vstd::utf8::encode_utf8;
use vstd::utf8::valid_utf8;

verus! {

/// Owned text: bytes that are valid UTF-8.
#[derive(Debug, Hash)]
pub struct OwnedStr(OwnedSlice<u8>);

impl View for OwnedStr {
    type V = Seq<char>;

    /// The text, character by character.
    closed spec fn view(&self) -> Seq<char> {
        decode_utf8(self.0@)
    }
}

/// Wraps `String::into_bytes` of the standard library: the bytes of a
/// `String` are the UTF-8 encoding of its text.
#[verifier::external_body]
pub(crate) fn bytes_of_string(s: String) -> (r: Vec<u8>)
    ensures
        r@ == encode_utf8(s@),
{
    s.into_bytes()
}

/// Wraps `String::from_utf8` of the standard library, which succeeds on
/// exactly the byte sequences that are valid UTF-8 and then gives the text
/// that they encode.
#[verifier::external_body]
pub(crate) fn string_of_bytes(bytes: Vec<u8>) -> (r: Option<String>)
    ensures
        r is Some == valid_utf8(bytes@),
        r is Some ==> r->Some_0@ == decode_utf8(bytes@),
{
    String::from_utf8(bytes).ok()
}

/// Wraps `core::str::from_utf8` of the standard library, which succeeds on
/// exactly the byte sequences that are valid UTF-8 and then gives the text
/// that they encode, without copying.
#[verifier::external_body]
pub(crate) fn str_of_bytes(bytes: &[u8]) -> (r: Option<&str>)
    ensures
        r is Some == valid_utf8(bytes@),
        r is Some ==> r->Some_0@ == decode_utf8(bytes@),
{
    core::str::from_utf8(bytes).ok()
}

/// Wraps `String::into_boxed_str` of the standard library: the boxed text
/// is the text of `s`.
#[verifier::external_body]
fn boxed_str_of(s: String) -> (r: Box<str>)
    ensures
        r@ == s@,
{
    s.into_boxed_str()
}

/// Wraps `str::into_string` of the standard library: the `String` holds the
/// text of `b`.
#[verifier::external_body]
fn string_of_boxed(b: Box<str>) -> (r: String)
    ensures
        r@ == b@,
{
    b.into_string()
}

impl OwnedStr {
    #[verifier::type_invariant]
    spec fn valid(&self) -> bool {
        valid_utf8(self.0@)
    }

    /// The bytes of the text, which are its UTF-8 encoding.
    pub closed spec fn bytes(&self) -> Seq<u8> {
        self.0@
    }

    /// The bytes of the text as a slice. They are valid UTF-8; they and the
    /// text determine each other.
    pub fn as_bytes(&self) -> (r: &[u8])
        ensures
            r@ == self.bytes(),
            valid_utf8(r@),
            self@ == decode_utf8(r@),
            r@ == encode_utf8(self@),
    {
        proof {
            use_type_invariant(self);
            vstd::utf8::decode_utf8_encode_utf8(self.0@);
        }
        self.0.deref()
    }

    /// Turns the text into a boxed `str` of the same text.
    pub fn into_box(self) -> (r: Box<str>)
        ensures
            r@ == self@,
    {
        boxed_str_of(self.into_string())
    }

    /// Turns the text into a `String` of the same text.
    pub fn into_string(self) -> (r: String)
        ensures
            r@ == self@,
    {
        proof {
            use_type_invariant(&self);
        }
        match string_of_bytes(self.0.into_vec()) {
            Some(s) => s,
            None => unreached(),
        }
    }
}

impl Default for OwnedStr {
    /// The empty text.
    fn default() -> (r: Self)
        ensures
            r@ == Seq::<char>::empty(),
            r.bytes() == Seq::<u8>::empty(),
    {
        let bytes = OwnedSlice::default();
        assert(valid_utf8(bytes@) && decode_utf8(bytes@) == Seq::<char>::empty()) by {
            reveal_with_fuel(valid_utf8, 1);
            reveal_with_fuel(decode_utf8, 1);
        }
        OwnedStr(bytes)
    }
}

impl Clone for OwnedStr {
    /// The same text in a buffer of its own.
    fn clone(&self) -> (r: Self)
        ensures
            r@ == self@,
            r.bytes() == self.bytes(),
    {
        proof {
            use_type_invariant(self);
        }
        let bytes = self.0.clone();
        assert(bytes@ == self.0@);
        OwnedStr(bytes)
    }
}

impl PartialEq for OwnedStr {
    /// Compares by content: two texts are equal when their bytes are.
    fn eq(&self, other: &Self) -> (r: bool) {
        let r = self.0 == other.0;
        proof {
            if self.0@.len() == other.0@.len() && (forall|i: int|
                #![auto]
                0 <= i < self.0@.len() ==> self.0@[i].eq_spec(&other.0@[i])) {
                assert(self.0@ =~= other.0@);
            }
        }
        r
    }
}

impl vstd::std_specs::cmp::PartialEqSpecImpl for OwnedStr {
    open spec fn obeys_eq_spec() -> bool {
        true
    }

    open spec fn eq_spec(&self, other: &Self) -> bool {
        self.bytes() == other.bytes()
    }
}

impl Eq for OwnedStr {

}

impl Deref for OwnedStr {
    type Target = str;

    /// The text as a `str`.
    fn deref(&self) -> (r: &str)
        ensures
            r@ == self@,
    {
        proof {
            use_type_invariant(self);
        }
        match str_of_bytes(self.0.deref()) {
            Some(s) => s,
            None => unreached(),
        }
    }
}

impl From<OwnedStr> for String {
    /// Turns the text into a `String` of the same text.
    fn from(b: OwnedStr) -> (r: Self)
        ensures
            r@ == b@,
    {
        b.into_string()
    }
}

impl FromSpecImpl<OwnedStr> for String {
    /// Two `String`s of the same text are not known to be the same value:
    /// the contract of `from` speaks of the text.
    open spec fn obeys_from_spec() -> bool {
        false
    }

    open spec fn from_spec(b: OwnedStr) -> Self {
        arbitrary()
    }
}

impl From<OwnedStr> for Box<str> {
    /// Turns the text into a boxed `str` of the same text.
    fn from(b: OwnedStr) -> (r: Self)
        ensures
            r@ == b@,
    {
        b.into_box()
    }
}

impl FromSpecImpl<OwnedStr> for Box<str> {
    /// Two boxes of the same text are not known to be the same value: the
    /// contract of `from` speaks of the text.
    open spec fn obeys_from_spec() -> bool {
        false
    }

    open spec fn from_spec(b: OwnedStr) -> Self {
        arbitrary()
    }
}

impl From<Box<str>> for OwnedStr {
    /// Takes over the text of a boxed `str`.
    fn from(b: Box<str>) -> (r: Self)
        ensures
            r@ == b@,
            r.bytes() == encode_utf8(b@),
    {
        Self::from(string_of_boxed(b))
    }
}

impl FromSpecImpl<Box<str>> for OwnedStr {
    /// Which region the text occupies is not said: the contract of `from`
    /// speaks of the text.
    open spec fn obeys_from_spec() -> bool {
        false
    }

    open spec fn from_spec(b: Box<str>) -> Self {
        arbitrary()
    }
}

impl From<String> for OwnedStr {
    /// Takes over the text of a `String`, and gives back the capacity that
    /// the `String` had to spare.
    fn from(s: String) -> (r: Self)
        ensures
            r@ == s@,
            r.bytes() == encode_utf8(s@),
    {
        let bytes = bytes_of_string(s);
        proof {
            vstd::utf8::encode_utf8_valid_utf8(s@);
            vstd::utf8::encode_utf8_decode_utf8(s@);
        }
        OwnedStr(bytes.into())
    }
}

impl FromSpecImpl<String> for OwnedStr {
    /// Which region the text occupies is not said: the contract of `from`
    /// speaks of the text.
    open spec fn obeys_from_spec() -> bool {
        false
    }

    open spec fn from_spec(s: String) -> Self {
        arbitrary()
    }
}

/// The round trip of a text. An `OwnedStr` that holds the bytes of the text
/// `s`, as one made from a `String` of that text does, is that text, which
/// is what the way back to a `String` gives; and its bytes are those of `s`
/// again, byte for byte. This holds of every text: the empty one, and one
/// with characters of several bytes.
pub proof fn law_string_round_trip(s: Seq<char>, text: OwnedStr)
    requires
        text.bytes() == encode_utf8(s),
    ensures
        text@ == s,
        encode_utf8(text@) == text.bytes(),
{
    vstd::utf8::encode_utf8_valid_utf8(s);
    vstd::utf8::encode_utf8_decode_utf8(s);
}

} // verus!
