//! The decision on one request: from the `authorization` header and the
//! credential store to a verdict and the response that answers it.

use crate::codec::{base64_decoded, decode_base64, decode_text, text_of};
use crate::pwhash::{password_check, verify_password, HashCheck};
use crate::response::{
    accepted_response, challenge_response, forbidden_response, response_for, Response,
};
use crate::store::CredentialStore;
use crate::text::{split_first, split_once, starts_with};
use crate::verdict::{RejectReason, RejectReasonView, Verdict, VerdictView};
use vstd::prelude::*;
use vstd::slice::slice_subrange;
use vstd::utf8::{encode_utf8, is_ascii_chars, is_ascii_chars_encode_utf8};

verus! {

/// The character between username and password.
pub const CREDENTIAL_SEPARATOR: char = ':';

/// Number of bytes of the scheme prefix.
pub const BASIC_PREFIX_LEN: usize = 6;

/// The bytes with which a header value of the Basic scheme begins: the text
/// `Basic` and one space, in this spelling only.
pub open spec fn basic_prefix() -> Seq<u8> {
    seq![0x42u8, 0x61u8, 0x73u8, 0x69u8, 0x63u8, 0x20u8]
}

/// The scheme prefix is the text `"Basic "` in bytes.
pub proof fn lemma_basic_prefix_is_text()
    ensures
        basic_prefix() == encode_utf8("Basic "@),
{
    reveal_strlit("Basic ");
    let text = "Basic "@;
    assert(is_ascii_chars(text));
    is_ascii_chars_encode_utf8(text);
    assert(basic_prefix() =~= encode_utf8(text));
}

/// The bytes of a header value that may be absent.
pub open spec fn bytes_of(authorization: Option<&[u8]>) -> Option<Seq<u8>> {
    match authorization {
        Some(value) => Some(value@),
        None => None,
    }
}

/// The base64 payload of an `authorization` header: what follows the scheme
/// prefix. A header of another scheme has none, like an absent header.
pub open spec fn payload_of(authorization: Option<Seq<u8>>) -> Option<Seq<u8>> {
    match authorization {
        Some(value) => if basic_prefix().is_prefix_of(value) {
            Some(value.subrange(BASIC_PREFIX_LEN as int, value.len() as int))
        } else {
            None
        },
        None => None,
    }
}

/// The base64 payload of an `authorization` header, if it has one.
pub fn basic_payload<'a>(authorization: Option<&'a [u8]>) -> (payload: Option<&'a [u8]>)
    ensures
        bytes_of(payload) == payload_of(bytes_of(authorization)),
{
    match authorization {
        Some(value) => {
            proof {
                lemma_basic_prefix_is_text();
            }
            if starts_with(value, "Basic ".as_bytes()) {
                Some(slice_subrange(value, BASIC_PREFIX_LEN, value.len()))
            } else {
                None
            }
        },
        None => None,
    }
}

/// Username and password of one request. An attempt lives as long as the
/// request is handled.
#[derive(Debug, Clone, PartialEq, Eq)]
pub struct AuthAttempt {
    pub username: String,
    pub password: String,
}

impl View for AuthAttempt {
    type V = (Seq<char>, Seq<char>);

    open spec fn view(&self) -> (Seq<char>, Seq<char>) {
        (self.username@, self.password@)
    }
}

/// Username and password in a decoded payload, where `decoded` is what
/// base64 decoding gave. The text before the first colon is the username,
/// all text after it the password, further colons included.
pub open spec fn attempt_of(decoded: Option<Seq<u8>>) -> Result<
    (Seq<char>, Seq<char>),
    RejectReasonView,
> {
    match decoded {
        None => Err(RejectReasonView::DecodeFailed),
        Some(bytes) => match text_of(bytes) {
            None => Err(RejectReasonView::DecodeFailed),
            Some(text) => match split_first(text, CREDENTIAL_SEPARATOR) {
                None => Err(RejectReasonView::SplitFailed),
                Some(parts) => Ok(parts),
            },
        },
    }
}

/// Reads username and password from a decoded payload; `decoded` is `None`
/// where the payload was not base64.
pub fn parse_attempt(decoded: Option<&[u8]>) -> (parsed: Result<AuthAttempt, RejectReason>)
    ensures
        match parsed {
            Ok(attempt) => attempt_of(bytes_of(decoded)) == Ok::<_, RejectReasonView>(attempt@),
            Err(reason) => attempt_of(bytes_of(decoded)) == Err::<(Seq<char>, Seq<char>), _>(
                reason@,
            ),
        },
{
    let bytes = match decoded {
        Some(bytes) => bytes,
        None => { return Err(RejectReason::DecodeFailed); },
    };
    let text = match decode_text(bytes) {
        Some(text) => text,
        None => { return Err(RejectReason::DecodeFailed); },
    };
    match split_once(text, CREDENTIAL_SEPARATOR) {
        Some((username, password)) => Ok(AuthAttempt { username, password }),
        None => Err(RejectReason::SplitFailed),
    }
}

/// The verdict that follows from the outcome of the hash check for
/// `username`: only a valid password authenticates, and every outcome but a
/// plain mismatch counts as an invalid hash.
pub open spec fn check_verdict(outcome: HashCheck, username: Seq<char>) -> VerdictView {
    match outcome {
        HashCheck::Valid => VerdictView::Authenticated,
        HashCheck::Invalid => VerdictView::Rejected(RejectReasonView::LoginFailed(username)),
        _ => VerdictView::Rejected(RejectReasonView::InvalidHash),
    }
}

/// The verdict that follows from the outcome of the hash check for
/// `username`.
pub fn verdict_for_check(outcome: HashCheck, username: &str) -> (verdict: Verdict)
    ensures
        verdict@ == check_verdict(outcome, username@),
{
    match outcome {
        HashCheck::Valid => Verdict::Authenticated,
        HashCheck::Invalid => Verdict::Rejected(RejectReason::LoginFailed(username.to_owned())),
        _ => Verdict::Rejected(RejectReason::InvalidHash),
    }
}

/// The verdict on a username and a password: the username must be in the
/// store, and the password must match the hash stored for it.
pub open spec fn attempt_verdict(
    attempt: (Seq<char>, Seq<char>),
    store: Map<Seq<char>, Seq<char>>,
) -> VerdictView {
    if store.contains_key(attempt.0) {
        check_verdict(password_check(store[attempt.0], attempt.1), attempt.0)
    } else {
        VerdictView::Rejected(RejectReasonView::UserNotFound)
    }
}

/// Looks the username of `attempt` up and checks its password.
pub fn judge_attempt(attempt: &AuthAttempt, store: &CredentialStore) -> (verdict: Verdict)
    ensures
        verdict@ == attempt_verdict(attempt@, store@),
{
    match store.lookup(attempt.username.as_str()) {
        Some(stored_hash) => {
            let outcome = verify_password(stored_hash.as_str(), attempt.password.as_str());
            verdict_for_check(outcome, attempt.username.as_str())
        },
        None => Verdict::Rejected(RejectReason::UserNotFound),
    }
}

/// The verdict on a base64 payload.
pub open spec fn auth_verdict(payload: Seq<u8>, store: Map<Seq<char>, Seq<char>>) -> VerdictView {
    match attempt_of(base64_decoded(payload)) {
        Ok(attempt) => attempt_verdict(attempt, store),
        Err(reason) => VerdictView::Rejected(reason),
    }
}

/// The verdict on an `authorization` header that may be absent.
pub open spec fn verdict_of(
    authorization: Option<Seq<u8>>,
    store: Map<Seq<char>, Seq<char>>,
) -> VerdictView {
    match payload_of(authorization) {
        Some(payload) => auth_verdict(payload, store),
        None => VerdictView::ChallengeRequired,
    }
}

/// Decodes a base64 payload and judges the credentials in it.
pub fn authenticate(payload: &[u8], store: &CredentialStore) -> (verdict: Verdict)
    ensures
        verdict@ == auth_verdict(payload@, store@),
{
    let parsed = match decode_base64(payload) {
        Ok(bytes) => parse_attempt(Some(bytes.as_slice())),
        Err(_) => parse_attempt(None),
    };
    match parsed {
        Ok(attempt) => judge_attempt(&attempt, store),
        Err(reason) => Verdict::Rejected(reason),
    }
}

/// What handling one request yields.
#[derive(Debug, Clone, PartialEq, Eq)]
pub struct Outcome {
    /// The verdict on the request.
    pub verdict: Verdict,
    /// The response to send.
    pub response: Response,
    /// The one line to record on the server's side. It names the reason of
    /// a rejection, which the response does not.
    pub diagnostic: String,
}

/// Answers a request that carries Basic credentials in `auth_value`, the
/// header value after the scheme prefix.
pub fn handle_auth(auth_value: &[u8], store: &CredentialStore) -> (outcome: Outcome)
    ensures
        outcome.verdict@ == auth_verdict(auth_value@, store@),
        outcome.verdict@ is Authenticated ==> outcome.response@ == accepted_response(),
        outcome.verdict@ !is Authenticated ==> outcome.response@ == forbidden_response(),
        outcome.diagnostic@ == outcome.verdict@.diagnostic(),
{
    let verdict = authenticate(auth_value, store);
    let response = match verdict {
        Verdict::Authenticated => Response::accepted(),
        _ => Response::forbidden(),
    };
    let diagnostic = verdict.diagnostic();
    Outcome { verdict, response, diagnostic }
}

/// Answers a request without Basic credentials: the client is asked for
/// them, in the name of `realm`.
pub fn handle_noauth(realm: &str) -> (outcome: Outcome)
    ensures
        outcome.verdict@ == VerdictView::ChallengeRequired,
        outcome.response@ == challenge_response(realm@),
        outcome.diagnostic@ == outcome.verdict@.diagnostic(),
{
    let verdict = Verdict::ChallengeRequired;
    let response = Response::challenge(realm);
    let diagnostic = verdict.diagnostic();
    Outcome { verdict, response, diagnostic }
}

/// Answers one request, of which only the `authorization` header counts.
/// An absent header and a header of another scheme are answered alike.
pub fn handle(authorization: Option<&[u8]>, store: &CredentialStore, realm: &str) -> (outcome:
    Outcome)
    ensures
        outcome.verdict@ == verdict_of(bytes_of(authorization), store@),
        outcome.response@ == response_for(outcome.verdict@, realm@),
        outcome.diagnostic@ == outcome.verdict@.diagnostic(),
        payload_of(bytes_of(authorization)) is None ==> outcome.response@ == challenge_response(
            realm@,
        ),
{
    match basic_payload(authorization) {
        Some(auth_value) => handle_auth(auth_value, store),
        None => handle_noauth(realm),
    }
}

} // verus!
