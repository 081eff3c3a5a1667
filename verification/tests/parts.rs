use traefik_phpbb_basic_auth::codec::decode_text;
use traefik_phpbb_basic_auth::pwhash::{verify_password, HashCheck};
use traefik_phpbb_basic_auth::config::DEFAULT_REALM;
use traefik_phpbb_basic_auth::response::{Header, Response};
use traefik_phpbb_basic_auth::text::{find_byte, split_once, starts_with};
use traefik_phpbb_basic_auth::verdict::{RejectReason, Verdict};

fn pair(left: &str, right: &str) -> Option<(String, String)> {
    Some((left.to_string(), right.to_string()))
}

#[test]
fn split_once_cuts_at_the_first_separator() {
    assert_eq!(split_once("a:b", ':'), pair("a", "b"));
    assert_eq!(split_once("a:b:c", ':'), pair("a", "b:c"));
    assert_eq!(split_once(":", ':'), pair("", ""));
    assert_eq!(split_once("::", ':'), pair("", ":"));
    assert_eq!(split_once("a:", ':'), pair("a", ""));
    assert_eq!(split_once(":b", ':'), pair("", "b"));
    assert_eq!(split_once("user;hash", ';'), pair("user", "hash"));
    assert_eq!(split_once("ab", ':'), None);
    assert_eq!(split_once("", ':'), None);
    assert_eq!(split_once("a;b", ':'), None);
}

#[test]
fn split_once_counts_characters_not_bytes() {
    assert_eq!(split_once("jürgen:pässwörd", ':'), pair("jürgen", "pässwörd"));
    assert_eq!(split_once("日本語:パスワード:x", ':'), pair("日本語", "パスワード:x"));
    assert_eq!(split_once("a€b€c", '€'), pair("a", "b€c"));
    assert_eq!(split_once("😀:😀", ':'), pair("😀", "😀"));
    assert_eq!(split_once("äöü", ':'), None);
}

#[test]
fn find_byte_gives_first_position_or_length() {
    assert_eq!(find_byte(b"ab\ncd\n", 0, b'\n'), 2);
    assert_eq!(find_byte(b"ab\ncd\n", 2, b'\n'), 2);
    assert_eq!(find_byte(b"ab\ncd\n", 3, b'\n'), 5);
    assert_eq!(find_byte(b"ab\ncd\n", 6, b'\n'), 6);
    assert_eq!(find_byte(b"abcd", 0, b'\n'), 4);
    assert_eq!(find_byte(b"abcd", 1, b'a'), 4);
    assert_eq!(find_byte(b"", 0, b'\n'), 0);
}

#[test]
fn starts_with_compares_bytes() {
    assert!(starts_with(b"Basic abc", b"Basic "));
    assert!(starts_with(b"Basic ", b"Basic "));
    assert!(starts_with(b"anything", b""));
    assert!(starts_with(b"", b""));
    assert!(!starts_with(b"Basic", b"Basic "));
    assert!(!starts_with(b"basic abc", b"Basic "));
    assert!(!starts_with(b"Basid abc", b"Basic "));
    assert!(!starts_with(b"", b"B"));
}

#[test]
fn decode_text_accepts_utf8_only() {
    assert_eq!(decode_text(b"plain"), Some("plain"));
    assert_eq!(decode_text(b""), Some(""));
    assert_eq!(decode_text(&[0xc3, 0xa4, 0x3a, 0xe2, 0x82, 0xac]), Some("ä:€"));
    assert_eq!(decode_text(&[0xf0, 0x9f, 0x98, 0x80]), Some("😀"));
    assert_eq!(decode_text(&[0xff]), None);
    assert_eq!(decode_text(&[0xc3]), None);
    assert_eq!(decode_text(&[0x61, 0x80]), None);
    // an overlong form and a surrogate are no text
    assert_eq!(decode_text(&[0xc0, 0xaf]), None);
    assert_eq!(decode_text(&[0xed, 0xa0, 0x80]), None);
    assert_eq!(decode_text(&[0xf4, 0x90, 0x80, 0x80]), None);
}

#[test]
fn verify_password_checks_phpbb_hashes() {
    let hash = "$H$9/O41.qQjQNlleivjbckbSNpfS4xgh0";
    assert_eq!(verify_password(hash, "pass1234"), HashCheck::Valid);
    assert_eq!(verify_password(hash, "pass1235"), HashCheck::Invalid);
    assert_eq!(verify_password(hash, ""), HashCheck::Invalid);
    assert_eq!(verify_password(hash, hash), HashCheck::Invalid);
    assert_eq!(verify_password("$H$9PoEptdBNUJZuamBBKOr/KPdi1ZmSw1", "pass1234"), HashCheck::Valid);
    assert_eq!(verify_password("$H$94VS2e40wcTQ38TK2P2yBc0TnmMfLC1", "pass1234"), HashCheck::Valid);
    assert_eq!(verify_password("$H$7aLiCeSaL3o1AvPU.vek1y7ZG3yBn7/", "correctpw"), HashCheck::Valid);
}

#[test]
fn verify_password_reports_unusable_hashes() {
    assert_eq!(
        verify_password("$H$9/O41.qQjQNlleivjbckbSNpfS4xgh012", "pass1234"),
        HashCheck::InvalidHash
    );
    assert_eq!(
        verify_password("$X$9/O41.qQjQNlleivjbckbSNpfS4xgh0", "pass1234"),
        HashCheck::InvalidHash
    );
    assert_eq!(
        verify_password("$H$1/O41.qQjQNlleivjbckbSNpfS4xgh0", "pass1234"),
        HashCheck::InvalidHash
    );
    assert_eq!(verify_password("", "pass1234"), HashCheck::InvalidHash);
    assert_eq!(verify_password("pass1234", "pass1234"), HashCheck::InvalidHash);
    assert_eq!(
        verify_password("$H$9/O41.qQjQNlleivjbckbSNpfS4x=h0", "pass1234"),
        HashCheck::InvalidHash
    );
}

#[test]
fn verify_password_limits_the_password() {
    let hash = "$H$9/O41.qQjQNlleivjbckbSNpfS4xgh0";
    assert_eq!(verify_password(hash, &"x".repeat(4096)), HashCheck::Invalid);
    assert_eq!(verify_password(hash, &"x".repeat(4097)), HashCheck::PasswordTooLong);
    assert_eq!(verify_password("short", &"x".repeat(4097)), HashCheck::PasswordTooLong);
    // the limit counts bytes
    assert_eq!(verify_password(hash, &"ä".repeat(2048)), HashCheck::Invalid);
    assert_eq!(verify_password(hash, &"ä".repeat(2049)), HashCheck::PasswordTooLong);
}

#[test]
fn verify_password_survives_hashes_outside_ascii() {
    // 34 bytes each; a character straddles byte 12, then byte 3
    let straddles_digest = "$H$9aaaaaaaébbbbbbbbbbbbbbbbbbbbb";
    assert_eq!(straddles_digest.len(), 34);
    assert_eq!(verify_password(straddles_digest, "pass1234"), HashCheck::InvalidHash);
    let straddles_rounds = "$Hé9aaaaaaaabbbbbbbbbbbbbbbbbbbbb";
    assert_eq!(straddles_rounds.len(), 34);
    assert_eq!(verify_password(straddles_rounds, "pass1234"), HashCheck::InvalidHash);
    let straddles_both = "$Hé9aaaaaaébbbbbbbbbbbbbbbbbbbbb";
    assert_eq!(straddles_both.len(), 34);
    assert_eq!(verify_password(straddles_both, "pass1234"), HashCheck::InvalidHash);
    // such a hash is never hashed against, however long the password
    assert_eq!(verify_password(straddles_digest, &"x".repeat(5000)), HashCheck::InvalidHash);
    // a salt outside ASCII that fills its eight bytes is a salt like any other
    let salted = "$H$7éééép96U/H8Fw9cnnE/SLwqr.1";
    assert_eq!(salted.len(), 34);
    assert_eq!(verify_password(salted, "pw"), HashCheck::Valid);
    assert_eq!(verify_password(salted, "pW"), HashCheck::Invalid);
    // other lengths are never cut
    assert_eq!(verify_password("$Hé", "pw"), HashCheck::InvalidHash);
    assert_eq!(verify_password(&"é".repeat(17), "pw"), HashCheck::InvalidHash);
}

#[test]
fn reject_reasons_have_their_messages() {
    assert_eq!(RejectReason::DecodeFailed.message(), "Base64 or UTF-8 decode failed");
    assert_eq!(RejectReason::SplitFailed.message(), "Header value splitting failed");
    assert_eq!(RejectReason::UserNotFound.message(), "User not found");
    assert_eq!(
        RejectReason::LoginFailed("alice".to_string()).message(),
        "Login failed for user alice"
    );
    assert_eq!(RejectReason::LoginFailed(String::new()).message(), "Login failed for user ");
    assert_eq!(RejectReason::InvalidHash.message(), "Invalid hash");
}

#[test]
fn verdicts_have_their_diagnostics() {
    assert_eq!(Verdict::Authenticated.diagnostic(), "[handle_auth  ] OK");
    assert_eq!(Verdict::ChallengeRequired.diagnostic(), "[handle_noauth] Basic auth missing");
    assert_eq!(
        Verdict::Rejected(RejectReason::LoginFailed("jürgen".to_string())).diagnostic(),
        "[handle_auth  ] Invalid (Login failed for user jürgen)"
    );
    assert_eq!(
        Verdict::Rejected(RejectReason::DecodeFailed).diagnostic(),
        "[handle_auth  ] Invalid (Base64 or UTF-8 decode failed)"
    );
}

#[test]
fn responses_follow_the_verdict() {
    let accepted = Response::for_verdict(&Verdict::Authenticated, "Login");
    assert_eq!(accepted, Response::accepted());
    assert_eq!(accepted.status, 200);
    assert!(accepted.headers.is_empty());
    assert_eq!(accepted.body, "Login successful");
    for reason in [
        RejectReason::DecodeFailed,
        RejectReason::SplitFailed,
        RejectReason::UserNotFound,
        RejectReason::LoginFailed("alice".to_string()),
        RejectReason::InvalidHash,
    ] {
        let forbidden = Response::for_verdict(&Verdict::Rejected(reason), "Login");
        assert_eq!(forbidden, Response::forbidden());
        assert_eq!(forbidden.status, 403);
        assert!(forbidden.headers.is_empty());
        assert_eq!(forbidden.body, "Authentication failed");
    }
    let challenge = Response::for_verdict(&Verdict::ChallengeRequired, DEFAULT_REALM);
    assert_eq!(challenge, Response::challenge("Login"));
    assert_eq!(challenge.status, 401);
    assert_eq!(
        challenge.headers,
        vec![Header {
            name: "www-authenticate".to_string(),
            value: "Basic realm=\"Login\", charset=\"UTF-8\"".to_string(),
        }]
    );
    assert_eq!(challenge.body, "Basic auth missing");
}

#[test]
fn realm_is_put_in_as_it_is() {
    let challenge = Response::challenge("a \"quoted\" realm");
    assert_eq!(
        challenge.headers[0].value,
        "Basic realm=\"a \"quoted\" realm\", charset=\"UTF-8\""
    );
}
