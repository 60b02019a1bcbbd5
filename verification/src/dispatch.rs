//! The per-connection dispatcher: selecting a behavior from the server's
//! configured type, classifying the outgoing response into a status code,
//! and formatting the access-log record.

use vstd::prelude::*;
use vstd::string::*;
use crate::config::ServerConfig;
use crate::proxy::bad_gateway_response;
use crate::static_files::{
    internal_error_response, not_found_response, ok_header, static_response_spec, FileOutcome,
};
use crate::text::{dec_digits, starts_with, starts_with_spec, str_eq, u16_dec};

verus! {

/// What the dispatcher decides to do with a connection after reading the
/// request: serve a file, proxy to the backend, or answer at once with a
/// canned response.
pub enum Plan {
    /// Delegate to the static responder (the static section is present).
    ServeStatic,
    /// Delegate to the proxy responder (the proxy section is present).
    ServeProxy,
    /// Send this response without consulting either responder.
    Respond(String),
}

/// The response sent when a server of type `static` has no static section.
pub open spec fn missing_static_response() -> Seq<char> {
    "HTTP/1.1 500 Internal Server Error\r\n\r\n500 Internal Server Error: Static configuration is missing"@
}

/// The response sent when a server of type `proxy` has no proxy section.
pub open spec fn missing_proxy_response() -> Seq<char> {
    "HTTP/1.1 500 Internal Server Error\r\n\r\n500 Internal Server Error: Proxy configuration is missing"@
}

/// The response sent for every unsupported server type.
pub open spec fn not_implemented_response() -> Seq<char> {
    "HTTP/1.1 501 Not Implemented\r\n\r\n501 Not Implemented"@
}

/// Selects the behavior for one connection from the server's configured
/// type: the matching responder when its section is present, an internal
/// error when the section is missing, and a not-implemented response for
/// every other type, whatever sections are populated.
pub fn dispatch_plan(cfg: &ServerConfig) -> (r: Plan)
    ensures
        cfg.server_type@ == "static"@ && cfg.static_config is Some ==> r == Plan::ServeStatic,
        cfg.server_type@ == "static"@ && cfg.static_config is None ==> (r matches Plan::Respond(s)
            && s@ == missing_static_response()),
        cfg.server_type@ == "proxy"@ && cfg.proxy_config is Some ==> r == Plan::ServeProxy,
        cfg.server_type@ == "proxy"@ && cfg.proxy_config is None ==> (r matches Plan::Respond(s)
            && s@ == missing_proxy_response()),
        cfg.server_type@ != "static"@ && cfg.server_type@ != "proxy"@ ==> (r matches Plan::Respond(
            s,
        ) && s@ == not_implemented_response()),
{
    proof {
        reveal_strlit("static");
        reveal_strlit("proxy");
        assert("static"@.len() != "proxy"@.len());
    }
    if str_eq(cfg.server_type.as_str(), "static") {
        match &cfg.static_config {
            Some(_) => Plan::ServeStatic,
            None => Plan::Respond(
                String::from_str(
                    "HTTP/1.1 500 Internal Server Error\r\n\r\n500 Internal Server Error: Static configuration is missing",
                ),
            ),
        }
    } else if str_eq(cfg.server_type.as_str(), "proxy") {
        match &cfg.proxy_config {
            Some(_) => Plan::ServeProxy,
            None => Plan::Respond(
                String::from_str(
                    "HTTP/1.1 500 Internal Server Error\r\n\r\n500 Internal Server Error: Proxy configuration is missing",
                ),
            ),
        }
    } else {
        Plan::Respond(
            String::from_str("HTTP/1.1 501 Not Implemented\r\n\r\n501 Not Implemented"),
        )
    }
}

/// The status code logged for a response: the code named by a recognized
/// status-line prefix, and `0` for every other beginning.
pub open spec fn classify_spec(s: Seq<char>) -> u16 {
    if starts_with_spec(s, "HTTP/1.1 200"@) {
        200
    } else if starts_with_spec(s, "HTTP/1.1 404"@) {
        404
    } else if starts_with_spec(s, "HTTP/1.1 500"@) {
        500
    } else if starts_with_spec(s, "HTTP/1.1 501"@) {
        501
    } else if starts_with_spec(s, "HTTP/1.1 502"@) {
        502
    } else {
        0
    }
}

/// Classifies a response into the status code recorded in the access log,
/// as [`classify_spec`] describes.
pub fn classify_status(response: &str) -> (r: u16)
    ensures
        r == classify_spec(response@),
{
    if starts_with(response, "HTTP/1.1 200") {
        200
    } else if starts_with(response, "HTTP/1.1 404") {
        404
    } else if starts_with(response, "HTTP/1.1 500") {
        500
    } else if starts_with(response, "HTTP/1.1 501") {
        501
    } else if starts_with(response, "HTTP/1.1 502") {
        502
    } else {
        0
    }
}

/// A response starts with at most one of the five recognized status-line
/// prefixes, so each prefix classifies to exactly its own code, and any
/// other beginning classifies to zero.
pub proof fn lemma_status_classes(s: Seq<char>)
    ensures
        starts_with_spec(s, "HTTP/1.1 200"@) ==> classify_spec(s) == 200,
        starts_with_spec(s, "HTTP/1.1 404"@) ==> classify_spec(s) == 404,
        starts_with_spec(s, "HTTP/1.1 500"@) ==> classify_spec(s) == 500,
        starts_with_spec(s, "HTTP/1.1 501"@) ==> classify_spec(s) == 501,
        starts_with_spec(s, "HTTP/1.1 502"@) ==> classify_spec(s) == 502,
        !starts_with_spec(s, "HTTP/1.1 200"@) && !starts_with_spec(s, "HTTP/1.1 404"@)
            && !starts_with_spec(s, "HTTP/1.1 500"@) && !starts_with_spec(s, "HTTP/1.1 501"@)
            && !starts_with_spec(s, "HTTP/1.1 502"@) ==> classify_spec(s) == 0,
{
    reveal_strlit("HTTP/1.1 200");
    reveal_strlit("HTTP/1.1 404");
    reveal_strlit("HTTP/1.1 500");
    reveal_strlit("HTTP/1.1 501");
    reveal_strlit("HTTP/1.1 502");
    if starts_with_spec(s, "HTTP/1.1 404"@) {
        assert(s.subrange(0, 12)[9] == s[9]);
        assert(!starts_with_spec(s, "HTTP/1.1 200"@));
    }
    if starts_with_spec(s, "HTTP/1.1 500"@) {
        assert(s.subrange(0, 12)[9] == s[9]);
        assert(s.subrange(0, 12)[11] == s[11]);
        assert(!starts_with_spec(s, "HTTP/1.1 200"@));
        assert(!starts_with_spec(s, "HTTP/1.1 404"@));
    }
    if starts_with_spec(s, "HTTP/1.1 501"@) {
        assert(s.subrange(0, 12)[9] == s[9]);
        assert(s.subrange(0, 12)[11] == s[11]);
        assert(!starts_with_spec(s, "HTTP/1.1 200"@));
        assert(!starts_with_spec(s, "HTTP/1.1 404"@));
        assert(!starts_with_spec(s, "HTTP/1.1 500"@));
    }
    if starts_with_spec(s, "HTTP/1.1 502"@) {
        assert(s.subrange(0, 12)[9] == s[9]);
        assert(s.subrange(0, 12)[11] == s[11]);
        assert(!starts_with_spec(s, "HTTP/1.1 200"@));
        assert(!starts_with_spec(s, "HTTP/1.1 404"@));
        assert(!starts_with_spec(s, "HTTP/1.1 500"@));
        assert(!starts_with_spec(s, "HTTP/1.1 501"@));
    }
}

/// One access-log record, rendered as the line that is printed for it.
pub open spec fn access_log_line_spec(
    timestamp: Seq<char>,
    client: Seq<char>,
    path: Seq<char>,
    status: u16,
) -> Seq<char> {
    "["@ + timestamp + "] "@ + client + " - "@ + path + " - "@ + dec_digits(status as int)
}

/// Renders one access-log record: the timestamp in brackets, then the
/// client address, the request path and the status code, separated by
/// dashes.
pub fn access_log_line(timestamp: &str, client: &str, path: &str, status: u16) -> (r: String)
    ensures
        r@ == access_log_line_spec(timestamp@, client@, path@, status),
{
    let mut r = String::from_str("[");
    r.append(timestamp);
    r.append("] ");
    r.append(client);
    r.append(" - ");
    r.append(path);
    r.append(" - ");
    let d = u16_dec(status);
    r.append(d.as_str());
    proof {
        assert(r@ =~= access_log_line_spec(timestamp@, client@, path@, status));
    }
    r
}

/// A successfully read file is served verbatim: the response starts with
/// the success status line, carries the file's text as its body after the
/// fixed header, and classifies as `200`.
pub proof fn lemma_file_served_verbatim(o: FileOutcome, b: Seq<char>)
    requires
        (o matches FileOutcome::Content(f) && f@ == b),
    ensures
        starts_with_spec(static_response_spec(o), "HTTP/1.1 200"@),
        static_response_spec(o).subrange(
            ok_header().len() as int,
            static_response_spec(o).len() as int,
        ) == b,
        classify_spec(static_response_spec(o)) == 200,
{
    reveal_strlit(
        "HTTP/1.1 200 OK\r\nServer: nextWeb/0.1.0\r\nContent-Type: text/html; charset=utf-8\r\n\r\n",
    );
    reveal_strlit("HTTP/1.1 200");
    let r = static_response_spec(o);
    assert(r.subrange(0, "HTTP/1.1 200"@.len() as int) =~= "HTTP/1.1 200"@);
    assert(r.subrange(ok_header().len() as int, r.len() as int) =~= b);
}

/// A file that cannot be opened is answered with the not-found response,
/// whose status line starts with `HTTP/1.1 404` and classifies as `404`.
pub proof fn lemma_missing_file_is_404()
    ensures
        starts_with_spec(not_found_response(), "HTTP/1.1 404"@),
        classify_spec(not_found_response()) == 404,
{
    reveal_strlit("HTTP/1.1 404 Not Found\r\n\r\n404 Not Found");
    reveal_strlit("HTTP/1.1 404");
    reveal_strlit("HTTP/1.1 200");
    assert(not_found_response().subrange(0, "HTTP/1.1 404"@.len() as int) =~= "HTTP/1.1 404"@);
    lemma_status_classes(not_found_response());
}

/// Each canned error response classifies as the code its status line names.
pub proof fn lemma_canned_responses_classify()
    ensures
        classify_spec(internal_error_response()) == 500,
        classify_spec(missing_static_response()) == 500,
        classify_spec(missing_proxy_response()) == 500,
        classify_spec(not_implemented_response()) == 501,
        classify_spec(bad_gateway_response()) == 502,
{
    reveal_strlit("HTTP/1.1 500 Internal Server Error\r\n\r\n500 Internal Server Error");
    reveal_strlit(
        "HTTP/1.1 500 Internal Server Error\r\n\r\n500 Internal Server Error: Static configuration is missing",
    );
    reveal_strlit(
        "HTTP/1.1 500 Internal Server Error\r\n\r\n500 Internal Server Error: Proxy configuration is missing",
    );
    reveal_strlit("HTTP/1.1 501 Not Implemented\r\n\r\n501 Not Implemented");
    reveal_strlit("HTTP/1.1 502 Bad Gateway\r\n\r\n502 Bad Gateway");
    reveal_strlit("HTTP/1.1 200");
    reveal_strlit("HTTP/1.1 404");
    reveal_strlit("HTTP/1.1 500");
    reveal_strlit("HTTP/1.1 501");
    reveal_strlit("HTTP/1.1 502");
    assert(internal_error_response().subrange(0, 12) =~= "HTTP/1.1 500"@);
    assert(missing_static_response().subrange(0, 12) =~= "HTTP/1.1 500"@);
    assert(missing_proxy_response().subrange(0, 12) =~= "HTTP/1.1 500"@);
    assert(not_implemented_response().subrange(0, 12) =~= "HTTP/1.1 501"@);
    assert(bad_gateway_response().subrange(0, 12) =~= "HTTP/1.1 502"@);
    lemma_status_classes(internal_error_response());
    lemma_status_classes(missing_static_response());
    lemma_status_classes(missing_proxy_response());
    lemma_status_classes(not_implemented_response());
    lemma_status_classes(bad_gateway_response());
}

} // verus!
