//! The response texts of the service, each built exactly as its contract
//! states: a status line, the fixed CORS and content-type headers, and a
//! body, separated by blank lines as the wire format asks.

use vstd::prelude::*;
use crate::dec::{dec_rep, u64_to_chars};
use crate::text::chars_to_string;
use vstd::string::{StrSliceExecFns, StringExecFns};

verus! {

/// The text of a plain status response with a message body.
pub open spec fn spec_status_response(code: u16, message: Seq<char>) -> Seq<char> {
    "HTTP/1.1 "@ + dec_rep(code as nat)
        + "\r\nAccess-Control-Allow-Origin: *\r\nContent-Type: text/html; charset=UTF-8\r\n\r\n"@
        + message + "\r\n"@
}

/// The text of a JSON response.
pub open spec fn spec_json_response(code: u16, data: Seq<char>) -> Seq<char> {
    "HTTP/1.1 "@ + dec_rep(code as nat)
        + "\r\nAccess-Control-Allow-Origin: *\r\nContent-Type: application/json; charset=UTF-8\r\n\r\n"@
        + data + "\r\n"@
}

/// The text of a preflight acknowledgement naming the allowed method.
pub open spec fn spec_options_response(allowed_method: Seq<char>) -> Seq<char> {
    "HTTP/1.1 200 OK\r\nAccess-Control-Allow-Origin: *\r\nAccess-Control-Allow-Methods: "@
        + allowed_method + ",OPTIONS\r\nAccess-Control-Allow-Headers: *\r\n\r\n<html><body>OK</body></html>\r\n"@
}

/// The body of the permanent-redirect page.
pub open spec fn spec_redirect_content() -> Seq<char> {
    "<html>\n<head>\n    <title>Moved</title>\n</head>\n<body>\n    =Moved=\n    <p>This page has moved.</p>\n</body>\n</html>\n"@
}

/// The text of the permanent redirect to `url`.
pub open spec fn spec_redirect_response(url: Seq<char>) -> Seq<char> {
    "HTTP/1.1 301 Moved Permanently\ncontent-type: text/html; charset=UTF-8\nContent-Length: "@
        + dec_rep(spec_redirect_content().len()) + "\nLocation: "@ + url
        + "\nContent-Type: text/html\n\n"@ + spec_redirect_content()
}

pub open spec fn spec_hello_response() -> Seq<char> {
    "HTTP/1.1 200 OK\r\nAccess-Control-Allow-Origin: *\r\nContent-Type: text/html; charset=UTF-8\r\n\r\n<html><body>Hello world budy!</body></html>\r\n"@
}

pub open spec fn spec_ping_response() -> Seq<char> {
    "HTTP/1.1 200 OK\r\nAccess-Control-Allow-Origin: *\r\nContent-Type: text/html; charset=UTF-8\r\n\r\nPong!\r\n"@
}

pub open spec fn spec_unknown_path_response() -> Seq<char> {
    "HTTP/1.1 404\r\nAccess-Control-Allow-Origin: *\r\nContent-Type: text/html; charset=UTF-8\r\n\r\nNot Found :(\r\n"@
}

/// The text of the method-not-allowed answer naming the method.
pub open spec fn spec_method_not_allowed_response(method: Seq<char>) -> Seq<char> {
    "HTTP/1.1 405\r\nAccess-Control-Allow-Origin: *\r\nContent-Type: text/html; charset=UTF-8\r\n\r\nMethod "@
        + method + " not allowed\r\n"@
}

pub open spec fn spec_unauthorized_response() -> Seq<char> {
    "HTTP/1.1 401 Unauthorized\r\nAccess-Control-Allow-Origin: *\r\nContent-Type: text/html; charset=UTF-8\r\n\r\nUnauthorized\r\n"@
}

/// The response builders of the service.
pub struct Handlers {}

impl Handlers {
    /// A plain status response carrying `message`.
    pub fn respond_with_status_code(code: u16, message: String) -> (r: String)
        ensures
            r@ == spec_status_response(code, message@),
    {
        let mut s = String::from_str("HTTP/1.1 ");
        let digits = u64_to_chars(code as u64);
        let ds = chars_to_string(digits.as_slice());
        s.append(ds.as_str());
        s.append("\r\nAccess-Control-Allow-Origin: *\r\nContent-Type: text/html; charset=UTF-8\r\n\r\n");
        s.append(message.as_str());
        s.append("\r\n");
        proof {
            assert(s@ =~= spec_status_response(code, message@));
        }
        s
    }

    /// A JSON response carrying `data`.
    pub fn json_response(code: u16, data: String) -> (r: String)
        ensures
            r@ == spec_json_response(code, data@),
    {
        let mut s = String::from_str("HTTP/1.1 ");
        let digits = u64_to_chars(code as u64);
        let ds = chars_to_string(digits.as_slice());
        s.append(ds.as_str());
        s.append(
            "\r\nAccess-Control-Allow-Origin: *\r\nContent-Type: application/json; charset=UTF-8\r\n\r\n",
        );
        s.append(data.as_str());
        s.append("\r\n");
        proof {
            assert(s@ =~= spec_json_response(code, data@));
        }
        s
    }

    /// The preflight acknowledgement for a route whose allowed method is
    /// `allowed_method`. The path decides nothing of the text.
    pub fn respond_options_ok(_path: &str, allowed_method: &str) -> (r: String)
        ensures
            r@ == spec_options_response(allowed_method@),
    {
        let mut s = String::from_str(
            "HTTP/1.1 200 OK\r\nAccess-Control-Allow-Origin: *\r\nAccess-Control-Allow-Methods: ",
        );
        s.append(allowed_method);
        s.append(",OPTIONS\r\nAccess-Control-Allow-Headers: *\r\n\r\n<html><body>OK</body></html>\r\n");
        proof {
            assert(s@ =~= spec_options_response(allowed_method@));
        }
        s
    }

    /// The permanent redirect to `url`.
    pub fn handle_redirect(url: String) -> (r: String)
        ensures
            r@ == spec_redirect_response(url@),
    {
        let content =
            "<html>\n<head>\n    <title>Moved</title>\n</head>\n<body>\n    =Moved=\n    <p>This page has moved.</p>\n</body>\n</html>\n";
        let content_len = content.unicode_len();
        let mut s = String::from_str(
            "HTTP/1.1 301 Moved Permanently\ncontent-type: text/html; charset=UTF-8\nContent-Length: ",
        );
        let digits = u64_to_chars(content_len as u64);
        let ds = chars_to_string(digits.as_slice());
        s.append(ds.as_str());
        s.append("\nLocation: ");
        s.append(url.as_str());
        s.append("\nContent-Type: text/html\n\n");
        s.append(content);
        proof {
            assert(s@ =~= spec_redirect_response(url@));
        }
        s
    }

    /// The greeting page.
    pub fn handle_hello_world() -> (r: String)
        ensures
            r@ == spec_hello_response(),
    {
        String::from_str(
            "HTTP/1.1 200 OK\r\nAccess-Control-Allow-Origin: *\r\nContent-Type: text/html; charset=UTF-8\r\n\r\n<html><body>Hello world budy!</body></html>\r\n",
        )
    }

    /// The liveness answer.
    pub fn handle_ping() -> (r: String)
        ensures
            r@ == spec_ping_response(),
    {
        String::from_str(
            "HTTP/1.1 200 OK\r\nAccess-Control-Allow-Origin: *\r\nContent-Type: text/html; charset=UTF-8\r\n\r\nPong!\r\n",
        )
    }

    /// The answer for a path no route matches.
    pub fn handle_unknown_path() -> (r: String)
        ensures
            r@ == spec_unknown_path_response(),
    {
        String::from_str(
            "HTTP/1.1 404\r\nAccess-Control-Allow-Origin: *\r\nContent-Type: text/html; charset=UTF-8\r\n\r\nNot Found :(\r\n",
        )
    }

    /// The answer for a known path asked with a method it does not allow.
    pub fn handle_method_not_allowed(method: &str) -> (r: String)
        ensures
            r@ == spec_method_not_allowed_response(method@),
    {
        let mut s = String::from_str(
            "HTTP/1.1 405\r\nAccess-Control-Allow-Origin: *\r\nContent-Type: text/html; charset=UTF-8\r\n\r\nMethod ",
        );
        s.append(method);
        s.append(" not allowed\r\n");
        proof {
            assert(s@ =~= spec_method_not_allowed_response(method@));
        }
        s
    }

    /// The answer for a protected route asked without a valid session.
    pub fn handle_unauthorized() -> (r: String)
        ensures
            r@ == spec_unauthorized_response(),
    {
        String::from_str(
            "HTTP/1.1 401 Unauthorized\r\nAccess-Control-Allow-Origin: *\r\nContent-Type: text/html; charset=UTF-8\r\n\r\nUnauthorized\r\n",
        )
    }
}

} // verus!
