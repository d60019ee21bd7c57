//! Layout-stable replacements for the growable array, hash map, optional
//! value, owned buffer and shared pointer of the standard library.

pub mod arc;
pub mod hashmap;
pub mod nonnull;
pub mod option;
pub mod owned_slice;
pub mod owned_str;
pub mod string;
pub mod vec;
