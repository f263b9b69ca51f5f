//! The shapes of a response: success, attachment, failure.

use vstd::prelude::*;
use vstd::string::*;

verus! {

/// The content type of text responses.
pub const TEXT_PLAIN: &'static str = "text/plain; charset=UTF-8";

/// The content type of binary responses.
pub const OCTET_STREAM: &'static str = "application/octet-stream";

/// The status of a response that succeeded.
pub const STATUS_OK: u16 = 200;

/// The status of a response that failed.
pub const STATUS_BAD_REQUEST: u16 = 400;

/// A complete response. Its content length is not stored: it is the length
/// of the body, whatever the body is.
#[derive(Debug, Clone, PartialEq, Eq)]
pub struct Response {
    pub status: u16,
    pub content_type: String,
    pub content_disposition: Option<String>,
    pub body: Vec<u8>,
}

/// The view of a `Response`: the same response over mathematical values.
pub struct ResponseView {
    pub status: u16,
    pub content_type: Seq<char>,
    pub content_disposition: Option<Seq<char>>,
    pub body: Seq<u8>,
}

impl View for Response {
    type V = ResponseView;

    open spec fn view(&self) -> ResponseView {
        ResponseView {
            status: self.status,
            content_type: self.content_type@,
            content_disposition: match self.content_disposition {
                Some(text) => Some(text@),
                None => None,
            },
            body: self.body@,
        }
    }
}

impl ResponseView {
    /// The value of the `Content-Length` header: the exact number of bytes
    /// of the body.
    pub open spec fn content_length(self) -> nat {
        self.body.len()
    }
}

/// A success: status 200, the given content type, no disposition.
pub open spec fn ok_response(body: Seq<u8>, content_type: Seq<char>) -> ResponseView {
    ResponseView { status: 200, content_type, content_disposition: None, body }
}

/// The disposition of an attachment named `filename`.
pub open spec fn attachment_disposition(filename: Seq<char>) -> Seq<char> {
    "attachment; filename=\""@ + filename + "\""@
}

/// A binary attachment: status 200, the binary content type, and the
/// disposition that names the file.
pub open spec fn attachment_response(body: Seq<u8>, filename: Seq<char>) -> ResponseView {
    ResponseView {
        status: 200,
        content_type: OCTET_STREAM@,
        content_disposition: Some(attachment_disposition(filename)),
        body,
    }
}

/// A failure: status 400 and the message as a plain-text body.
pub open spec fn error_response(message: Seq<u8>) -> ResponseView {
    ResponseView {
        status: 400,
        content_type: TEXT_PLAIN@,
        content_disposition: None,
        body: message,
    }
}

/// The answer to a request that no route takes: the failure with a fixed
/// message.
pub open spec fn bad_request_response() -> ResponseView {
    error_response("Bad Request\r\n".spec_bytes())
}

impl Response {
    /// The value of the `Content-Length` header.
    pub fn content_length(&self) -> (r: usize)
        ensures
            r == self@.content_length(),
            r == self@.body.len(),
    {
        self.body.len()
    }
}

/// Builds a success with the given body and content type.
pub fn response_ok(body: Vec<u8>, content_type: &str) -> (r: Response)
    ensures
        r@ == ok_response(body@, content_type@),
        r@.content_length() == body@.len(),
{
    Response {
        status: STATUS_OK,
        content_type: content_type.to_owned(),
        content_disposition: None,
        body,
    }
}

/// Builds a binary attachment with the given body, to be saved under
/// `filename`.
pub fn response_ok_binary(body: Vec<u8>, filename: &str) -> (r: Response)
    ensures
        r@ == attachment_response(body@, filename@),
        r@.content_length() == body@.len(),
{
    let disposition = String::from_str("attachment; filename=\"").concat(filename).concat("\"");
    Response {
        status: STATUS_OK,
        content_type: OCTET_STREAM.to_owned(),
        content_disposition: Some(disposition),
        body,
    }
}

/// Builds a failure with the given message.
pub fn response_err(message: Vec<u8>) -> (r: Response)
    ensures
        r@ == error_response(message@),
        r@.content_length() == message@.len(),
{
    Response {
        status: STATUS_BAD_REQUEST,
        content_type: TEXT_PLAIN.to_owned(),
        content_disposition: None,
        body: message,
    }
}

/// Builds the answer to a request that no route takes.
pub fn response_bad_request() -> (r: Response)
    ensures
        r@ == bad_request_response(),
{
    let mut body: Vec<u8> = Vec::new();
    crate::text::push_text(&mut body, "Bad Request\r\n");
    assert(body@ =~= "Bad Request\r\n".spec_bytes());
    response_err(body)
}

} // verus!
