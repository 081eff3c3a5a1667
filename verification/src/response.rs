//! The HTTP response that answers a verdict.

use crate::verdict::{Verdict, VerdictView};
use vstd::prelude::*;

verus! {

/// Status of the response to an accepted login.
pub const STATUS_OK: u16 = 200;

/// Status of the response that asks for credentials.
pub const STATUS_UNAUTHORIZED: u16 = 401;

/// Status of the response to a rejected login.
pub const STATUS_FORBIDDEN: u16 = 403;

/// One header line of a response.
#[derive(Debug, Clone, PartialEq, Eq)]
pub struct Header {
    pub name: String,
    pub value: String,
}

impl View for Header {
    type V = (Seq<char>, Seq<char>);

    open spec fn view(&self) -> (Seq<char>, Seq<char>) {
        (self.name@, self.value@)
    }
}

/// A response: status code, headers in order, and body.
#[derive(Debug, Clone, PartialEq, Eq)]
pub struct Response {
    pub status: u16,
    pub headers: Vec<Header>,
    pub body: String,
}

/// Mathematical value of a [`Response`].
pub struct ResponseView {
    pub status: u16,
    pub headers: Seq<(Seq<char>, Seq<char>)>,
    pub body: Seq<char>,
}

impl View for Response {
    type V = ResponseView;

    open spec fn view(&self) -> ResponseView {
        ResponseView {
            status: self.status,
            headers: self.headers@.map_values(|h: Header| h@),
            body: self.body@,
        }
    }
}

/// The value of the `www-authenticate` header for a realm.
pub open spec fn challenge_value(realm: Seq<char>) -> Seq<char> {
    "Basic realm=\""@ + realm + "\", charset=\"UTF-8\""@
}

/// The response that lets a request pass.
pub open spec fn accepted_response() -> ResponseView {
    ResponseView { status: STATUS_OK, headers: Seq::empty(), body: "Login successful"@ }
}

/// The response to rejected credentials. It is the same for every reason.
pub open spec fn forbidden_response() -> ResponseView {
    ResponseView { status: STATUS_FORBIDDEN, headers: Seq::empty(), body: "Authentication failed"@ }
}

/// The response that asks the client for Basic credentials.
pub open spec fn challenge_response(realm: Seq<char>) -> ResponseView {
    ResponseView {
        status: STATUS_UNAUTHORIZED,
        headers: seq![("www-authenticate"@, challenge_value(realm))],
        body: "Basic auth missing"@,
    }
}

/// The response that answers a verdict.
pub open spec fn response_for(verdict: VerdictView, realm: Seq<char>) -> ResponseView {
    match verdict {
        VerdictView::Authenticated => accepted_response(),
        VerdictView::Rejected(_) => forbidden_response(),
        VerdictView::ChallengeRequired => challenge_response(realm),
    }
}

impl Response {
    /// The response that lets a request pass.
    pub fn accepted() -> (response: Response)
        ensures
            response@ == accepted_response(),
    {
        let response = Response {
            status: STATUS_OK,
            headers: Vec::new(),
            body: String::from_str("Login successful"),
        };
        assert(response@.headers =~= Seq::empty());
        response
    }

    /// The response to rejected credentials.
    pub fn forbidden() -> (response: Response)
        ensures
            response@ == forbidden_response(),
    {
        let response = Response {
            status: STATUS_FORBIDDEN,
            headers: Vec::new(),
            body: String::from_str("Authentication failed"),
        };
        assert(response@.headers =~= Seq::empty());
        response
    }

    /// The response that asks the client for Basic credentials of `realm`.
    pub fn challenge(realm: &str) -> (response: Response)
        ensures
            response@ == challenge_response(realm@),
    {
        let value = String::from_str("Basic realm=\"").concat(realm).concat(
            "\", charset=\"UTF-8\"",
        );
        let mut headers: Vec<Header> = Vec::new();
        headers.push(Header { name: String::from_str("www-authenticate"), value });
        let response = Response {
            status: STATUS_UNAUTHORIZED,
            headers,
            body: String::from_str("Basic auth missing"),
        };
        assert(response@.headers =~= seq![("www-authenticate"@, challenge_value(realm@))]);
        response
    }

    /// The response that answers `verdict`.
    pub fn for_verdict(verdict: &Verdict, realm: &str) -> (response: Response)
        ensures
            response@ == response_for(verdict@, realm@),
    {
        match verdict {
            Verdict::Authenticated => Response::accepted(),
            Verdict::Rejected(_) => Response::forbidden(),
            Verdict::ChallengeRequired => Response::challenge(realm),
        }
    }
}

} // verus!
