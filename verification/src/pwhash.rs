//! Checking a password against a stored phpBB hash.
//!
//! The hashing itself is foreign code: only its outcome enters the logic.

use vstd::prelude::*;
use vstd::utf8::{encode_utf8, is_char_boundary};

verus! {

/// Outcome of checking one password against one stored hash.
#[derive(Debug, Clone, Copy, PartialEq, Eq, Structural)]
pub enum HashCheck {
    /// The password matches the hash.
    Valid,
    /// The password is longer than the hashing accepts.
    PasswordTooLong,
    /// The stored hash is not in a supported format.
    InvalidHash,
    /// The hash is well-formed and the password does not match it.
    Invalid,
}

/// Byte length of an encoded phpBB hash.
pub const ENCODED_HASH_LEN: usize = 34;

/// Byte offset at which the round count of an encoded hash starts.
pub const ROUNDS_OFFSET: usize = 3;

/// Byte offset at which the digest of an encoded hash starts.
pub const DIGEST_OFFSET: usize = 12;

/// True when a stored hash can be cut into its fields: either it has not
/// the length of an encoded hash, or the offsets at which the fields meet
/// fall between characters.
pub open spec fn fields_fall_on_chars(stored_hash: Seq<char>) -> bool {
    let bytes = encode_utf8(stored_hash);
    bytes.len() == ENCODED_HASH_LEN ==> is_char_boundary(bytes, ROUNDS_OFFSET as int)
        && is_char_boundary(bytes, DIGEST_OFFSET as int)
}

/// What `phpbb_pwhash::check_hash` answers for a stored hash and a password.
/// The answer depends on nothing but these two strings.
pub uninterp spec fn hash_check(stored_hash: Seq<char>, password: Seq<char>) -> HashCheck;

/// Calls `phpbb_pwhash::check_hash`. Assumed: the answer is `hash_check` of
/// the two strings, with every malformed-hash error reported as
/// `InvalidHash`. That function slices a 34-byte hash at byte offsets 3 and 12,
/// which is why those offsets must fall between characters.
#[verifier::external_body]
pub(crate) fn check_hash(stored_hash: &str, password: &str) -> (outcome: HashCheck)
    requires
        fields_fall_on_chars(stored_hash@),
    ensures
        outcome == hash_check(stored_hash@, password@),
{
    match phpbb_pwhash::check_hash(stored_hash, password) {
        phpbb_pwhash::CheckHashResult::Valid => HashCheck::Valid,
        phpbb_pwhash::CheckHashResult::PasswordTooLong => HashCheck::PasswordTooLong,
        phpbb_pwhash::CheckHashResult::InvalidHash(_) => HashCheck::InvalidHash,
        phpbb_pwhash::CheckHashResult::Invalid => HashCheck::Invalid,
    }
}

/// The outcome of checking `password` against `stored_hash`: a hash that
/// cannot be cut into its fields is invalid, any other is hashed against.
pub open spec fn password_check(stored_hash: Seq<char>, password: Seq<char>) -> HashCheck {
    if fields_fall_on_chars(stored_hash) {
        hash_check(stored_hash, password)
    } else {
        HashCheck::InvalidHash
    }
}

/// Checks `password` against `stored_hash`, for any two strings.
pub fn verify_password(stored_hash: &str, password: &str) -> (outcome: HashCheck)
    ensures
        outcome == password_check(stored_hash@, password@),
{
    let cuts_cleanly = stored_hash.is_char_boundary(ROUNDS_OFFSET) && stored_hash.is_char_boundary(
        DIGEST_OFFSET,
    );
    if stored_hash.as_bytes().len() != ENCODED_HASH_LEN || cuts_cleanly {
        check_hash(stored_hash, password)
    } else {
        HashCheck::InvalidHash
    }
}

} // verus!
