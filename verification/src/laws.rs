//! What holds of every request, whatever the header, the store and the realm.
//!
//! Each law is stated over the functions that the contracts of the handler
//! use, so it holds of what the handler returns.

use crate::codec::{base64_decoded, text_of};
use crate::handler::{
    attempt_of, auth_verdict, basic_prefix, check_verdict, payload_of, verdict_of,
    CREDENTIAL_SEPARATOR,
};
use crate::pwhash::{password_check, HashCheck};
use crate::response::{
    accepted_response, challenge_response, forbidden_response, response_for, STATUS_FORBIDDEN,
    STATUS_OK, STATUS_UNAUTHORIZED,
};
use crate::text::{lemma_split_first_exists, lemma_split_first_parts};
use crate::verdict::{RejectReasonView, VerdictView};
use vstd::prelude::*;

verus! {

/// True when `payload` is the base64 form of the text `username:password`,
/// with no colon in `username`.
pub open spec fn carries(payload: Seq<u8>, username: Seq<char>, password: Seq<char>) -> bool {
    &&& base64_decoded(payload) matches Some(bytes)
    &&& text_of(bytes) == Some(username + seq![CREDENTIAL_SEPARATOR] + password)
    &&& !username.contains(CREDENTIAL_SEPARATOR)
}

/// The header value of the Basic scheme with `payload`.
pub open spec fn basic_header(payload: Seq<u8>) -> Seq<u8> {
    basic_prefix() + payload
}

/// A header value of the Basic scheme hands its payload on, whole and
/// unchanged.
pub proof fn lemma_basic_header_payload(payload: Seq<u8>)
    ensures
        payload_of(Some(basic_header(payload))) == Some(payload),
{
    let value = basic_header(payload);
    assert(value.subrange(0, basic_prefix().len() as int) =~= basic_prefix());
    assert(value.subrange(basic_prefix().len() as int, value.len() as int) =~= payload);
}

/// The status of a response tells which verdict it answers. It is 200 for
/// an accepted login and for nothing else, 401 for a challenge, 403 for a
/// rejection.
pub proof fn law_status_tells_verdict(verdict: VerdictView, realm: Seq<char>)
    ensures
        response_for(verdict, realm).status == STATUS_OK <==> verdict is Authenticated,
        response_for(verdict, realm).status == STATUS_UNAUTHORIZED <==> verdict
            is ChallengeRequired,
        response_for(verdict, realm).status == STATUS_FORBIDDEN <==> verdict is Rejected,
{
}

/// A request without an `authorization` header is answered with status 401,
/// the `www-authenticate` header for the realm and the body
/// `Basic auth missing`.
pub proof fn law_missing_header_is_challenged(
    store: Map<Seq<char>, Seq<char>>,
    realm: Seq<char>,
)
    ensures
        verdict_of(None, store) == VerdictView::ChallengeRequired,
        response_for(verdict_of(None, store), realm) == challenge_response(realm),
        challenge_response(realm).status == 401,
        challenge_response(realm).headers == seq![
            ("www-authenticate"@, "Basic realm=\""@ + realm + "\", charset=\"UTF-8\""@),
        ],
        challenge_response(realm).body == "Basic auth missing"@,
{
}

/// A header that does not begin with the scheme prefix is answered as an
/// absent header is.
pub proof fn law_other_scheme_is_challenged(
    value: Seq<u8>,
    store: Map<Seq<char>, Seq<char>>,
    realm: Seq<char>,
)
    requires
        !basic_prefix().is_prefix_of(value),
    ensures
        verdict_of(Some(value), store) == verdict_of(None, store),
        response_for(verdict_of(Some(value), store), realm) == response_for(
            verdict_of(None, store),
            realm,
        ),
{
}

/// Credentials are never answered with a challenge: the response to a header
/// of the Basic scheme has status 200 or 403.
pub proof fn law_credentials_are_judged(payload: Seq<u8>, store: Map<Seq<char>, Seq<char>>)
    ensures
        auth_verdict(payload, store) !is ChallengeRequired,
        verdict_of(Some(basic_header(payload)), store) == auth_verdict(payload, store),
{
    lemma_basic_header_payload(payload);
}

/// Every rejection is answered alike, with status 403 and the body
/// `Authentication failed`: the response does not tell why.
pub proof fn law_rejection_hides_reason(reason: RejectReasonView, realm: Seq<char>)
    ensures
        response_for(VerdictView::Rejected(reason), realm) == forbidden_response(),
        forbidden_response().status == 403,
        forbidden_response().headers.len() == 0,
        forbidden_response().body == "Authentication failed"@,
{
}

/// A payload that is not base64, or whose bytes are not UTF-8, is rejected.
pub proof fn law_undecodable_payload_is_rejected(
    payload: Seq<u8>,
    store: Map<Seq<char>, Seq<char>>,
)
    ensures
        base64_decoded(payload) is None ==> auth_verdict(payload, store)
            == VerdictView::Rejected(RejectReasonView::DecodeFailed),
        base64_decoded(payload) matches Some(bytes) && text_of(bytes) is None ==> auth_verdict(
            payload,
            store,
        ) == VerdictView::Rejected(RejectReasonView::DecodeFailed),
{
}

/// A payload that decodes to text without a colon is rejected.
pub proof fn law_missing_colon_is_rejected(payload: Seq<u8>, store: Map<Seq<char>, Seq<char>>)
    ensures
        base64_decoded(payload) matches Some(bytes) && text_of(bytes) matches Some(text)
            && !text.contains(CREDENTIAL_SEPARATOR) ==> auth_verdict(payload, store)
            == VerdictView::Rejected(RejectReasonView::SplitFailed),
{
    if let Some(bytes) = base64_decoded(payload) {
        if let Some(text) = text_of(bytes) {
            lemma_split_first_exists(text, CREDENTIAL_SEPARATOR);
        }
    }
}

/// Credentials are judged by the store and the hash check alone: an unknown
/// username is rejected, and a known one gets the verdict of the check of
/// the password against its stored hash.
pub proof fn law_credentials_verdict(
    payload: Seq<u8>,
    username: Seq<char>,
    password: Seq<char>,
    store: Map<Seq<char>, Seq<char>>,
)
    ensures
        carries(payload, username, password) ==> attempt_of(base64_decoded(payload)) == Ok::<
            _,
            RejectReasonView,
        >((username, password)),
        carries(payload, username, password) && !store.contains_key(username) ==> auth_verdict(
            payload,
            store,
        ) == VerdictView::Rejected(RejectReasonView::UserNotFound),
        carries(payload, username, password) && store.contains_key(username) ==> auth_verdict(
            payload,
            store,
        ) == check_verdict(password_check(store[username], password), username),
{
    if carries(payload, username, password) {
        let text = username + seq![CREDENTIAL_SEPARATOR] + password;
        lemma_split_first_parts(text, CREDENTIAL_SEPARATOR, username, password);
    }
}

/// A known username with the password that matches its stored hash is let
/// through: status 200, body `Login successful`.
pub proof fn law_matching_password_is_accepted(
    payload: Seq<u8>,
    username: Seq<char>,
    password: Seq<char>,
    store: Map<Seq<char>, Seq<char>>,
    realm: Seq<char>,
)
    ensures
        carries(payload, username, password) && store.contains_key(username) && password_check(
            store[username],
            password,
        ) == HashCheck::Valid ==> {
            let verdict = verdict_of(Some(basic_header(payload)), store);
            &&& verdict == VerdictView::Authenticated
            &&& response_for(verdict, realm) == accepted_response()
            &&& accepted_response().status == 200
            &&& accepted_response().body == "Login successful"@
        },
{
    law_credentials_verdict(payload, username, password, store);
    law_credentials_are_judged(payload, store);
}

/// A known username with any other password is rejected, and so is an
/// unknown username: status 403, body `Authentication failed`. Only a
/// password that the check finds valid authenticates.
pub proof fn law_other_password_is_rejected(
    payload: Seq<u8>,
    username: Seq<char>,
    password: Seq<char>,
    store: Map<Seq<char>, Seq<char>>,
    realm: Seq<char>,
)
    ensures
        carries(payload, username, password) && !(store.contains_key(username) && password_check(
            store[username],
            password,
        ) == HashCheck::Valid) ==> {
            let verdict = verdict_of(Some(basic_header(payload)), store);
            &&& verdict is Rejected
            &&& response_for(verdict, realm) == forbidden_response()
        },
        carries(payload, username, password) && store.contains_key(username) && password_check(
            store[username],
            password,
        ) == HashCheck::Invalid ==> verdict_of(Some(basic_header(payload)), store)
            == VerdictView::Rejected(RejectReasonView::LoginFailed(username)),
{
    law_credentials_verdict(payload, username, password, store);
    law_credentials_are_judged(payload, store);
}

/// The same request against an unchanged store gets the same verdict and
/// the same response, however often it is made and whatever was answered
/// before: the verdict depends on the header and on the entries of the store
/// alone.
pub proof fn law_same_request_same_verdict(
    authorization: Option<Seq<u8>>,
    store: Map<Seq<char>, Seq<char>>,
    again: Option<Seq<u8>>,
    store_then: Map<Seq<char>, Seq<char>>,
    realm: Seq<char>,
)
    requires
        authorization is Some <==> again is Some,
        authorization matches Some(value) ==> again->0.len() == value.len() && forall|i: int|
            0 <= i < value.len() ==> again->0[i] == value[i],
        forall|username: Seq<char>|
            store.contains_key(username) <==> store_then.contains_key(username),
        forall|username: Seq<char>|
            store.contains_key(username) ==> store[username] == store_then[username],
    ensures
        verdict_of(authorization, store) == verdict_of(again, store_then),
        response_for(verdict_of(authorization, store), realm) == response_for(
            verdict_of(again, store_then),
            realm,
        ),
{
    if let Some(value) = authorization {
        assert(again->0 =~= value);
    }
    assert(store =~= store_then);
}

} // verus!
