//! What can go wrong at the bridge.
use crate::foreign::data_type_t;
use std::str::Utf8Error;
use vstd::prelude::*;

verus! {

/// Why the bytes of a name were no text, as the standard library reports it.
/// Nothing is known of its contents.
#[verifier::external_type_specification]
#[verifier::external_body]
pub struct ExUtf8Error(Utf8Error);

/// A failure of decoding or encoding. After any of them the call has produced
/// no result to rely on.
#[derive(Debug, PartialEq)]
pub enum Error {
    /// A foreign pair carries a type tag that has no value here.
    UnsupportedType(data_type_t),
    /// The name of a foreign pair is not valid text.
    InvalidName(Utf8Error),
    /// A foreign accessor or mutator returned this status, which is not zero.
    ForeignOperationFailed(i32),
    /// The mode of an owned list forbids the pair: its key is already held.
    DuplicateKey,
}

} // verus!
