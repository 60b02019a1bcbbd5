//! The static-file responder: resolving a request path against the document
//! root and rendering the response for each outcome of the file read.
//!
//! Opening and reading the file is I/O and lives outside this crate; the
//! caller reports how it went as a [`FileOutcome`] and receives the exact
//! response to send.

use vstd::prelude::*;
use vstd::string::*;
use crate::config::StaticConfig;
use crate::text::str_eq;

verus! {

/// How the attempt to open and read the resolved file went, as the caller
/// that owns the file system reports it.
pub enum FileOutcome {
    /// The file was opened and read in full as text.
    Content(String),
    /// The file could not be opened (absent, or not readable).
    OpenFailed,
    /// The file was opened but its contents could not be read as text.
    ReadFailed,
}

/// The file location a request path resolves to: the index file stands in
/// for the root path, and the webroot and the effective path are joined
/// with a slash.
pub open spec fn static_path_spec(webroot: Seq<char>, index: Seq<char>, path: Seq<char>) -> Seq<
    char,
> {
    let effective = if path == "/"@ {
        index
    } else {
        path
    };
    webroot + "/"@ + effective
}

/// Resolves a request path against the document root, as
/// [`static_path_spec`] describes.
pub fn static_file_path(cfg: &StaticConfig, path: &str) -> (r: String)
    ensures
        r@ == static_path_spec(cfg.webroot@, cfg.index@, path@),
{
    let mut r = String::from_str(cfg.webroot.as_str());
    r.append("/");
    if str_eq(path, "/") {
        r.append(cfg.index.as_str());
    } else {
        r.append(path);
    }
    r
}

/// The fixed status line and headers put before the contents of a file
/// served successfully.
pub open spec fn ok_header() -> Seq<char> {
    "HTTP/1.1 200 OK\r\nServer: nextWeb/0.1.0\r\nContent-Type: text/html; charset=utf-8\r\n\r\n"@
}

/// The response sent when the resolved file cannot be opened.
pub open spec fn not_found_response() -> Seq<char> {
    "HTTP/1.1 404 Not Found\r\n\r\n404 Not Found"@
}

/// The response sent when the resolved file is opened but cannot be read.
pub open spec fn internal_error_response() -> Seq<char> {
    "HTTP/1.1 500 Internal Server Error\r\n\r\n500 Internal Server Error"@
}

/// The response for each file outcome: the fixed header followed by the
/// file's bytes verbatim on success, and a canned error response otherwise.
pub open spec fn static_response_spec(o: FileOutcome) -> Seq<char> {
    match o {
        FileOutcome::Content(b) => ok_header() + b@,
        FileOutcome::OpenFailed => not_found_response(),
        FileOutcome::ReadFailed => internal_error_response(),
    }
}

/// Builds the response for the given file outcome, as
/// [`static_response_spec`] describes.
pub fn static_response(outcome: &FileOutcome) -> (r: String)
    ensures
        r@ == static_response_spec(*outcome),
{
    match outcome {
        FileOutcome::Content(b) => {
            let mut r = String::from_str(
                "HTTP/1.1 200 OK\r\nServer: nextWeb/0.1.0\r\nContent-Type: text/html; charset=utf-8\r\n\r\n",
            );
            r.append(b.as_str());
            r
        },
        FileOutcome::OpenFailed => String::from_str("HTTP/1.1 404 Not Found\r\n\r\n404 Not Found"),
        FileOutcome::ReadFailed => String::from_str(
            "HTTP/1.1 500 Internal Server Error\r\n\r\n500 Internal Server Error",
        ),
    }
}

/// The root path is served through the index file: it resolves to the same
/// file location as naming the index under the webroot directly, so the
/// response bytes are those of the index file.
pub proof fn lemma_root_serves_index(cfg: StaticConfig)
    ensures
        static_path_spec(cfg.webroot@, cfg.index@, "/"@) == cfg.webroot@ + "/"@ + cfg.index@,
{
}

} // verus!
