//! The outcome of one authentication attempt.

use vstd::prelude::*;

verus! {

/// Why an authentication attempt was turned down. The reason is for the
/// server's own records: no response carries it.
#[derive(Debug, Clone, PartialEq, Eq)]
pub enum RejectReason {
    /// The payload is not base64, or the decoded bytes are not UTF-8.
    DecodeFailed,
    /// The decoded text holds no colon.
    SplitFailed,
    /// The store has no entry for the username.
    UserNotFound,
    /// The password does not match the stored hash of this user.
    LoginFailed(String),
    /// The stored hash could not be checked at all.
    InvalidHash,
}

/// Mathematical value of a [`RejectReason`].
pub enum RejectReasonView {
    DecodeFailed,
    SplitFailed,
    UserNotFound,
    LoginFailed(Seq<char>),
    InvalidHash,
}

impl RejectReasonView {
    /// The text that describes the reason.
    pub open spec fn message(self) -> Seq<char> {
        match self {
            RejectReasonView::DecodeFailed => "Base64 or UTF-8 decode failed"@,
            RejectReasonView::SplitFailed => "Header value splitting failed"@,
            RejectReasonView::UserNotFound => "User not found"@,
            RejectReasonView::LoginFailed(username) => "Login failed for user "@ + username,
            RejectReasonView::InvalidHash => "Invalid hash"@,
        }
    }
}

impl View for RejectReason {
    type V = RejectReasonView;

    open spec fn view(&self) -> RejectReasonView {
        match self {
            RejectReason::DecodeFailed => RejectReasonView::DecodeFailed,
            RejectReason::SplitFailed => RejectReasonView::SplitFailed,
            RejectReason::UserNotFound => RejectReasonView::UserNotFound,
            RejectReason::LoginFailed(username) => RejectReasonView::LoginFailed(username@),
            RejectReason::InvalidHash => RejectReasonView::InvalidHash,
        }
    }
}

impl RejectReason {
    /// The text that describes the reason.
    pub fn message(&self) -> (text: String)
        ensures
            text@ == self@.message(),
    {
        match self {
            RejectReason::DecodeFailed => String::from_str("Base64 or UTF-8 decode failed"),
            RejectReason::SplitFailed => String::from_str("Header value splitting failed"),
            RejectReason::UserNotFound => String::from_str("User not found"),
            RejectReason::LoginFailed(username) => String::from_str(
                "Login failed for user ",
            ).concat(username.as_str()),
            RejectReason::InvalidHash => String::from_str("Invalid hash"),
        }
    }
}

/// The verdict on one request.
#[derive(Debug, Clone, PartialEq, Eq)]
pub enum Verdict {
    /// Username and password were found and match.
    Authenticated,
    /// Credentials were sent and turned down.
    Rejected(RejectReason),
    /// No Basic credentials were sent: the client is asked for them.
    ChallengeRequired,
}

/// Mathematical value of a [`Verdict`].
pub enum VerdictView {
    Authenticated,
    Rejected(RejectReasonView),
    ChallengeRequired,
}

impl VerdictView {
    /// The line that records the verdict on the server's side.
    pub open spec fn diagnostic(self) -> Seq<char> {
        match self {
            VerdictView::Authenticated => "[handle_auth  ] OK"@,
            VerdictView::Rejected(reason) => "[handle_auth  ] Invalid ("@ + reason.message() + ")"@,
            VerdictView::ChallengeRequired => "[handle_noauth] Basic auth missing"@,
        }
    }
}

impl View for Verdict {
    type V = VerdictView;

    open spec fn view(&self) -> VerdictView {
        match self {
            Verdict::Authenticated => VerdictView::Authenticated,
            Verdict::Rejected(reason) => VerdictView::Rejected(reason@),
            Verdict::ChallengeRequired => VerdictView::ChallengeRequired,
        }
    }
}

impl Verdict {
    /// The line that records the verdict on the server's side.
    pub fn diagnostic(&self) -> (line: String)
        ensures
            line@ == self@.diagnostic(),
    {
        match self {
            Verdict::Authenticated => String::from_str("[handle_auth  ] OK"),
            Verdict::Rejected(reason) => {
                let message = reason.message();
                String::from_str("[handle_auth  ] Invalid (").concat(message.as_str()).concat(")")
            },
            Verdict::ChallengeRequired => String::from_str("[handle_noauth] Basic auth missing"),
        }
    }
}

} // verus!
