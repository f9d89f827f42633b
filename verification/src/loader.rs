//! From the bytes of a log to its text.
//!
//! A log is meant to be UTF-8, but now and then one holds a byte that is
//! not. Such bytes do not stop the parser: they are read as the replacement
//! character.

use vstd::prelude::*;

verus! {

/// The text that bytes stand for when they are read as UTF-8 and each run
/// of bytes that encodes no character is read as U+FFFD.
pub uninterp spec fn lossy_text(bytes: Seq<u8>) -> Seq<char>;

/// `String::from_utf8_lossy`, with its result as an owned string: the text
/// that the bytes stand for. The contract gives that text its name and
/// claims nothing else of it.
#[verifier::external_body]
pub(crate) fn decode_lossy(raw: &[u8]) -> (text: String)
    ensures
        text@ == lossy_text(raw@),
{
    String::from_utf8_lossy(raw).into_owned()
}

} // verus!
