//! Decoding of the bytes that arrive from outside: base64 and UTF-8.
//!
//! Both decoders are foreign code. Their contracts below are assumed, not
//! proved.

use vstd::prelude::*;
use vstd::string::StringSliceAdditionalSpecFns;
use vstd::utf8::{decode_utf8, encode_utf8_decode_utf8, valid_utf8};

verus! {

/// The error of `base64::decode`. Nothing is read from it.
#[verifier::external_type_specification]
#[verifier::external_body]
pub struct ExDecodeError(base64::DecodeError);

/// The error of `core::str::from_utf8`. Nothing is read from it.
#[verifier::external_type_specification]
#[verifier::external_body]
pub struct ExUtf8Error(core::str::Utf8Error);

/// What `base64::decode` makes of `input`: the decoded bytes, or `None` where
/// it reports an error. The decoder reads nothing but its input.
pub uninterp spec fn base64_decoded(input: Seq<u8>) -> Option<Seq<u8>>;

/// Calls `base64::decode` (standard alphabet). Assumed: the call succeeds
/// exactly where `base64_decoded` is `Some`, and then returns those bytes.
#[verifier::external_body]
pub(crate) fn decode_base64(input: &[u8]) -> (decoded: Result<Vec<u8>, base64::DecodeError>)
    ensures
        match decoded {
            Ok(bytes) => base64_decoded(input@) == Some(bytes@),
            Err(_) => base64_decoded(input@) is None,
        },
{
    base64::decode(input)
}

/// `core::str::from_utf8` accepts exactly the well-formed UTF-8 byte
/// sequences, and the string slice it returns consists of the bytes given.
pub assume_specification<'a>[ core::str::from_utf8 ](v: &'a [u8]) -> (text: Result<
    &'a str,
    core::str::Utf8Error,
>)
    ensures
        match text {
            Ok(s) => valid_utf8(v@) && s.spec_bytes() == v@,
            Err(_) => !valid_utf8(v@),
        },
;

/// The text that `bytes` encode in UTF-8, or `None` where they encode none.
pub open spec fn text_of(bytes: Seq<u8>) -> Option<Seq<char>> {
    if valid_utf8(bytes) {
        Some(decode_utf8(bytes))
    } else {
        None
    }
}

/// Reads `bytes` as UTF-8 text.
pub fn decode_text(bytes: &[u8]) -> (text: Option<&str>)
    ensures
        match text {
            Some(t) => text_of(bytes@) == Some(t@),
            None => text_of(bytes@) is None,
        },
{
    match core::str::from_utf8(bytes) {
        Ok(t) => {
            proof {
                encode_utf8_decode_utf8(t@);
            }
            Some(t)
        },
        Err(_) => None,
    }
}

} // verus!
