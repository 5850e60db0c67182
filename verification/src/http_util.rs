use vstd::prelude::*;
use vstd::string::*;

verus! {

/// Why a POST request yields no document.
#[derive(Debug, PartialEq, Eq)]
pub enum PostFailure {
    /// The request could not be sent; the text says why.
    Request(String),
    /// The answer is no JSON document; the text says why.
    Parse(String),
    /// The answer has a status that is no success: the status, and the body
    /// of the answer.
    Status(String, String),
}

/// What is reported of a POST request that yields no document.
pub open spec fn post_failure_text(why: PostFailure) -> Seq<char> {
    match why {
        PostFailure::Request(e) => "Request failed: "@ + e@,
        PostFailure::Parse(e) => "Parse JSON failed: "@ + e@,
        PostFailure::Status(status, body) => "HTTP "@ + status@ + ": "@ + body@,
    }
}

/// Whether a status code reports success: the codes from 200 to 299 do.
pub fn is_success(status: u16) -> (success: bool)
    ensures
        success == (200 <= status < 300),
{
    200 <= status && status < 300
}

/// What is reported of a POST request that yields no document.
pub fn post_failure_message(why: &PostFailure) -> (message: String)
    ensures
        message@ == post_failure_text(*why),
{
    match why {
        PostFailure::Request(e) => {
            let mut message = String::from_str("Request failed: ");
            message.append(e.as_str());
            message
        },
        PostFailure::Parse(e) => {
            let mut message = String::from_str("Parse JSON failed: ");
            message.append(e.as_str());
            message
        },
        PostFailure::Status(status, body) => {
            let mut message = String::from_str("HTTP ");
            message.append(status.as_str());
            message.append(": ");
            message.append(body.as_str());
            message
        },
    }
}

} // verus!
