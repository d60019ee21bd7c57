//! Growable text over the growable array of this library.
//!
//! [`String`] is a [`Vec`] of bytes that are valid UTF-8 at every moment.
//! It is made from a `String` of the standard library and can be turned
//! back into one. Its view is the text, as a sequence of characters.

use crate::owned_str::bytes_of_string;
use crate::owned_str::str_of_bytes;
use crate::owned_str::string_of_bytes;
use crate::vec::Vec;
use core::ops::Deref;
use vstd::pervasive::unreached;
use vstd::prelude::*;
use vstd::std_specs::convert::FromSpecImpl;
use vstd::utf8::decode_utf8;
use vstd::utf8::encode_utf8;
use vstd::utf8::valid_utf8;

verus! {

/// Growable text: bytes that are valid UTF-8.
pub struct String(Vec<u8>);

impl View for String {
    type V = Seq<char>;

    /// The text, character by character.
    closed spec fn view(&self) -> Seq<char> {
        decode_utf8(self.0@)
    }
}

impl String {
    #[verifier::type_invariant]
    spec fn valid(&self) -> bool {
        &&& self.0.wf()
        &&& valid_utf8(self.0@)
    }

    /// The bytes of the text, which are its UTF-8 encoding.
    pub closed spec fn bytes(&self) -> Seq<u8> {
        self.0@
    }

    /// The number of bytes of the text.
    pub fn len(&self) -> (r: usize)
        ensures
            r == self.bytes().len(),
    {
        proof {
            use_type_invariant(self);
        }
        self.0.len()
    }

    /// The bytes of the text as a slice. They are valid UTF-8; they and the
    /// text determine each other.
    pub fn as_bytes(&self) -> (r: &[u8])
        ensures
            r@ == self.bytes(),
            valid_utf8(r@),
            self@ == decode_utf8(r@),
            r@ == encode_utf8(self@),
    {
        proof {
            use_type_invariant(self);
            vstd::utf8::decode_utf8_encode_utf8(self.0@);
        }
        self.0.deref()
    }
}

impl From<std::string::String> for String {
    /// Takes over the text of a `String` of the standard library.
    fn from(value: std::string::String) -> (r: Self)
        ensures
            r@ == value@,
            r.bytes() == encode_utf8(value@),
    {
        let bytes = Vec::from(bytes_of_string(value));
        proof {
            vstd::utf8::encode_utf8_valid_utf8(value@);
            vstd::utf8::encode_utf8_decode_utf8(value@);
        }
        String(bytes)
    }
}

impl FromSpecImpl<std::string::String> for String {
    /// Which buffer the text occupies is not said: the contract of `from`
    /// speaks of the text.
    open spec fn obeys_from_spec() -> bool {
        false
    }

    open spec fn from_spec(value: std::string::String) -> Self {
        arbitrary()
    }
}

impl From<String> for std::string::String {
    /// Turns the text into a `String` of the standard library of the same
    /// text.
    fn from(value: String) -> (r: Self)
        ensures
            r@ == value@,
    {
        proof {
            use_type_invariant(&value);
        }
        match string_of_bytes(value.0.into()) {
            Some(s) => s,
            None => unreached(),
        }
    }
}

impl FromSpecImpl<String> for std::string::String {
    /// Two `String`s of the same text are not known to be the same value:
    /// the contract of `from` speaks of the text.
    open spec fn obeys_from_spec() -> bool {
        false
    }

    open spec fn from_spec(value: String) -> Self {
        arbitrary()
    }
}

impl Deref for String {
    type Target = str;

    /// The text as a `str`.
    fn deref(&self) -> (r: &str)
        ensures
            r@ == self@,
    {
        proof {
            use_type_invariant(self);
        }
        match str_of_bytes(self.0.deref()) {
            Some(s) => s,
            None => unreached(),
        }
    }
}

} // verus!
