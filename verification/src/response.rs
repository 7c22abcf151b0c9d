//! The mutable response object a route handler fills in, and its
//! serialization into a complete HTTP/1.1 reply.
use crate::strutil::{dec_str, u64_to_dec};
use vstd::prelude::*;
use vstd::utf8::encode_utf8;

verus! {

broadcast use vstd::slice::axiom_spec_len;

/// The mathematical content of a response.
pub struct ResponseView {
    pub status_code: u32,
    pub body: Seq<char>,
}

/// The object a handler mutates: a status code (default `200`) and a body
/// (default empty).
pub struct Response {
    body: String,
    status_code: u32,
}

impl View for Response {
    type V = ResponseView;

    closed spec fn view(&self) -> ResponseView {
        ResponseView { status_code: self.status_code, body: self.body@ }
    }
}

/// Write access to a response, the interface a route handler sees.
pub trait FlorenceResponse {
    spec fn response_view(&self) -> ResponseView;

    fn set_status(&mut self, code: u32)
        ensures
            final(self).response_view() == (ResponseView {
                status_code: code,
                body: old(self).response_view().body,
            }),
    ;

    fn set_body(&mut self, content: String)
        ensures
            final(self).response_view() == (ResponseView {
                status_code: old(self).response_view().status_code,
                body: content@,
            }),
    ;
}

impl FlorenceResponse for Response {
    open spec fn response_view(&self) -> ResponseView {
        self@
    }

    fn set_status(&mut self, code: u32) {
        self.status_code = code;
    }

    fn set_body(&mut self, content: String) {
        self.body = content;
    }
}

impl Response {
    /// A fresh response: status `200`, empty body.
    pub fn new() -> (r: Response)
        ensures
            r@ == (ResponseView { status_code: 200, body: Seq::<char>::empty() }),
    {
        Response { body: String::new(), status_code: 200 }
    }

    /// The status code a handler last set.
    pub fn status_code(&self) -> (c: u32)
        ensures
            c == self@.status_code,
    {
        self.status_code
    }

    /// The body a handler last set.
    pub fn body(&self) -> (b: &String)
        ensures
            b@ == self@.body,
    {
        &self.body
    }
}

/// The standard reason phrase of the maintained status table; `"Unknown"`
/// for a code outside it (the serializer substitutes this generic phrase
/// rather than dropping the response).
pub open spec fn spec_reason(code: u32) -> Seq<char> {
    if code == 200 {
        "OK"@
    } else if code == 201 {
        "Created"@
    } else if code == 202 {
        "Accepted"@
    } else if code == 204 {
        "No Content"@
    } else if code == 301 {
        "Moved Permanently"@
    } else if code == 302 {
        "Found"@
    } else if code == 303 {
        "See Other"@
    } else if code == 400 {
        "Bad Request"@
    } else if code == 401 {
        "Unauthorized"@
    } else if code == 403 {
        "Forbidden"@
    } else if code == 404 {
        "Not Found"@
    } else if code == 408 {
        "Request Timeout"@
    } else if code == 409 {
        "Conflict"@
    } else if code == 414 {
        "URI Too Long"@
    } else if code == 429 {
        "Too Many Requests"@
    } else if code == 500 {
        "Internal Server Error"@
    } else if code == 501 {
        "Not Implemented"@
    } else if code == 502 {
        "Bad Gateway"@
    } else if code == 503 {
        "Service Unavailable"@
    } else if code == 505 {
        "HTTP Version Not Supported"@
    } else {
        "Unknown"@
    }
}

/// The reason phrase for `code`, `"Unknown"` outside the maintained table.
pub fn reason_phrase(code: u32) -> (r: &'static str)
    ensures
        r@ == spec_reason(code),
{
    if code == 200 {
        "OK"
    } else if code == 201 {
        "Created"
    } else if code == 202 {
        "Accepted"
    } else if code == 204 {
        "No Content"
    } else if code == 301 {
        "Moved Permanently"
    } else if code == 302 {
        "Found"
    } else if code == 303 {
        "See Other"
    } else if code == 400 {
        "Bad Request"
    } else if code == 401 {
        "Unauthorized"
    } else if code == 403 {
        "Forbidden"
    } else if code == 404 {
        "Not Found"
    } else if code == 408 {
        "Request Timeout"
    } else if code == 409 {
        "Conflict"
    } else if code == 414 {
        "URI Too Long"
    } else if code == 429 {
        "Too Many Requests"
    } else if code == 500 {
        "Internal Server Error"
    } else if code == 501 {
        "Not Implemented"
    } else if code == 502 {
        "Bad Gateway"
    } else if code == 503 {
        "Service Unavailable"
    } else if code == 505 {
        "HTTP Version Not Supported"
    } else {
        "Unknown"
    }
}

/// The complete HTTP/1.1 reply for a status code and body: status line,
/// a Content-Length header computed from the body's UTF-8 byte length,
/// a blank line, then the body.
pub open spec fn spec_serialize(code: u32, body: Seq<char>) -> Seq<char> {
    "HTTP/1.1 "@ + dec_str(code as nat) + " "@ + spec_reason(code) + "\r\nContent-Length: "@
        + dec_str(encode_utf8(body).len()) + "\r\n\r\n"@ + body
}

/// Serializes a response into the bytes written back to the client.
pub fn serialize_response(response: &Response) -> (s: String)
    ensures
        s@ == spec_serialize(response@.status_code, response@.body),
{
    let mut s = String::from_str("HTTP/1.1 ");
    let code_str = u64_to_dec(response.status_code as u64);
    s.append(code_str.as_str());
    s.append(" ");
    s.append(reason_phrase(response.status_code));
    s.append("\r\nContent-Length: ");
    let body_bytes: &[u8] = response.body.as_str().as_bytes();
    let len_str = u64_to_dec(body_bytes.len() as u64);
    s.append(len_str.as_str());
    s.append("\r\n\r\n");
    s.append(response.body.as_str());
    proof {
        assert(s@ =~= spec_serialize(response@.status_code, response@.body));
    }
    s
}

} // verus!
