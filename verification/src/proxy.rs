//! The reverse-proxy responder: backend address parsing, `Host:` request
//! header rewriting, `Server:` response header rewriting, and the response
//! relayed for each outcome of the backend round trip.
//!
//! Opening the outbound connection and moving bytes over it is I/O and lives
//! outside this crate; the caller reports how the round trip went as a
//! [`BackendOutcome`] and receives the exact response to relay.

use vstd::prelude::*;
use vstd::string::*;
use crate::config::ProxyConfig;
use crate::text::{
    starts_with, starts_with_spec, strip_all_prefix, strip_prefix_rep, trim, trim_spec,
    parse_u16, parse_u16_spec, split_lines, lines_of, join_crlf, crlf, lemma_join_crlf_push,
};

verus! {

/// Index of the last occurrence of `c` in `s`, or `-1` when there is none.
pub open spec fn rfind_idx(s: Seq<char>, c: char) -> int
    decreases s.len(),
{
    if s.len() == 0 {
        -1
    } else if s[s.len() - 1] == c {
        s.len() - 1
    } else {
        rfind_idx(s.drop_last(), c)
    }
}

proof fn lemma_rfind_idx_unique(s: Seq<char>, c: char, k: int)
    requires
        0 <= k < s.len(),
        s[k] == c,
        forall|j: int| k < j < s.len() ==> s[j] != c,
    ensures
        rfind_idx(s, c) == k,
    decreases s.len(),
{
    if k < s.len() - 1 {
        assert(s.drop_last()[k] == c);
        lemma_rfind_idx_unique(s.drop_last(), c, k);
    }
}

proof fn lemma_rfind_idx_none(s: Seq<char>, c: char)
    requires
        forall|j: int| 0 <= j < s.len() ==> s[j] != c,
    ensures
        rfind_idx(s, c) == -1,
    decreases s.len(),
{
    if s.len() > 0 {
        lemma_rfind_idx_none(s.drop_last(), c);
    }
}

fn rfind_char(s: &str, c: char) -> (r: Option<usize>)
    ensures
        (r matches Some(i) ==> i == rfind_idx(s@, c) && i < s@.len() && s@[i as int] == c),
        r is None ==> rfind_idx(s@, c) == -1,
{
    let n = s.unicode_len();
    let mut j: usize = n;
    while j > 0
        invariant
            0 <= j <= n,
            n == s@.len(),
            forall|k: int| j <= k < n ==> s@[k] != c,
        decreases j,
    {
        if s.get_char(j - 1) == c {
            proof {
                lemma_rfind_idx_unique(s@, c, j - 1);
            }
            return Some(j - 1);
        }
        j -= 1;
    }
    proof {
        lemma_rfind_idx_none(s@, c);
    }
    None
}

/// The backend string with one leading `http://` scheme removed.
pub open spec fn strip_scheme(b: Seq<char>) -> Seq<char> {
    if starts_with_spec(b, "http://"@) {
        b.subrange("http://"@.len() as int, b.len() as int)
    } else {
        b
    }
}

/// The host part of a backend string: after the optional scheme, everything
/// before the last colon, or the whole rest when it has no colon.
pub open spec fn backend_host_spec(b: Seq<char>) -> Seq<char> {
    let t = strip_scheme(b);
    let i = rfind_idx(t, ':');
    if i >= 0 {
        t.subrange(0, i)
    } else {
        t
    }
}

/// The port of a backend string: the digits after the last colon, or `80`
/// when the colon is absent or what follows it is not a valid port number.
pub open spec fn backend_port_spec(b: Seq<char>) -> u16 {
    let t = strip_scheme(b);
    let i = rfind_idx(t, ':');
    if i >= 0 {
        match parse_u16_spec(t.subrange(i + 1, t.len() as int)) {
            Some(p) => p,
            None => 80,
        }
    } else {
        80
    }
}

/// Splits a configured backend (`host[:port]`, optionally `http://`-prefixed)
/// into the host to connect to and the port, defaulting the port to `80`.
pub fn parse_backend(backend: &str) -> (r: (String, u16))
    ensures
        r.0@ == backend_host_spec(backend@),
        r.1 == backend_port_spec(backend@),
{
    let stripped: &str = if starts_with(backend, "http://") {
        let plen = "http://".unicode_len();
        backend.substring_char(plen, backend.unicode_len())
    } else {
        backend
    };
    match rfind_char(stripped, ':') {
        Some(i) => {
            let n = stripped.unicode_len();
            let host = stripped.substring_char(0, i).to_owned();
            let portstr = stripped.substring_char(i + 1, n);
            let port = match parse_u16(portstr) {
                Some(p) => p,
                None => 80,
            };
            (host, port)
        },
        None => (stripped.to_owned(), 80),
    }
}

/// The replacement for a `Host:` request line when host rewriting is on.
pub open spec fn host_line(host: Seq<char>) -> Seq<char> {
    "Host: "@ + host
}

/// The request lines after host rewriting: every line that begins with
/// `Host:` becomes [`host_line`]; every other line is unchanged.
pub open spec fn rewritten_host_lines(ls: Seq<Seq<char>>, host: Seq<char>) -> Seq<Seq<char>> {
    ls.map_values(
        |l: Seq<char>|
            if starts_with_spec(l, "Host:"@) {
                host_line(host)
            } else {
                l
            },
    )
}

/// The forwarded request text when host rewriting is on: the lines of the
/// original request, `Host:` lines replaced, rejoined with CRLF.
pub open spec fn rewrite_host_spec(req: Seq<char>, host: Seq<char>) -> Seq<char> {
    join_crlf(rewritten_host_lines(lines_of(req), host))
}

/// Rewrites every `Host:` line of `request` to name `header_host`, leaving
/// all other lines unchanged, and rejoins the lines with CRLF.
pub fn rewrite_host(request: &str, header_host: &str) -> (r: String)
    ensures
        r@ == rewrite_host_spec(request@, header_host@),
{
    let parts = split_lines(request);
    let ghost mapped = rewritten_host_lines(lines_of(request@), header_host@);
    let mut out = String::new();
    let mut k: usize = 0;
    proof {
        assert(mapped.take(0) =~= Seq::<Seq<char>>::empty());
    }
    while k < parts.len()
        invariant
            0 <= k <= parts@.len(),
            parts@.map_values(|t: &str| t@) == lines_of(request@),
            mapped == rewritten_host_lines(lines_of(request@), header_host@),
            mapped.len() == parts@.len(),
            out@ == join_crlf(mapped.take(k as int)),
        decreases parts@.len() - k,
    {
        let ghost pre = mapped.take(k as int);
        let ghost before = out@;
        if k > 0 {
            out.append("\r\n");
        }
        let line = parts[k];
        if starts_with(line, "Host:") {
            out.append("Host: ");
            out.append(header_host);
        } else {
            out.append(line);
        }
        proof {
            reveal_strlit("\r\n");
            assert("\r\n"@ =~= crlf());
            assert(line@ == lines_of(request@)[k as int]);
            assert(mapped[k as int] == if starts_with_spec(line@, "Host:"@) {
                host_line(header_host@)
            } else {
                line@
            });
            lemma_join_crlf_push(pre, mapped[k as int]);
            assert(mapped.take(k + 1) =~= pre.push(mapped[k as int]));
            if k > 0 {
                assert(out@ =~= before + crlf() + mapped[k as int]);
            } else {
                assert(out@ =~= mapped[k as int]);
            }
        }
        k += 1;
    }
    proof {
        assert(mapped.take(parts@.len() as int) =~= mapped);
    }
    out
}

/// Index of the first line in `ls` that begins with `p`, or `ls.len()` when
/// there is none.
pub open spec fn find_line_with_prefix(ls: Seq<Seq<char>>, p: Seq<char>, i: int) -> int
    decreases ls.len() - i when 0 <= i <= ls.len()
{
    if i >= ls.len() {
        ls.len() as int
    } else if starts_with_spec(ls[i], p) {
        i
    } else {
        find_line_with_prefix(ls, p, i + 1)
    }
}

/// [`find_line_with_prefix`] stays in range, lands on a line with the
/// prefix when one exists, and passes over no earlier one.
pub proof fn lemma_find_line_props(ls: Seq<Seq<char>>, p: Seq<char>, i: int)
    requires
        0 <= i <= ls.len(),
    ensures
        i <= find_line_with_prefix(ls, p, i) <= ls.len(),
        find_line_with_prefix(ls, p, i) < ls.len() ==> starts_with_spec(
            ls[find_line_with_prefix(ls, p, i)],
            p,
        ),
        forall|j: int| i <= j < find_line_with_prefix(ls, p, i) ==> !starts_with_spec(ls[j], p),
    decreases ls.len() - i,
{
    if i < ls.len() && !starts_with_spec(ls[i], p) {
        lemma_find_line_props(ls, p, i + 1);
    }
}

proof fn lemma_find_line_unique(ls: Seq<Seq<char>>, p: Seq<char>, i: int, k: int)
    requires
        0 <= i <= k <= ls.len(),
        forall|j: int| i <= j < k ==> !starts_with_spec(ls[j], p),
        k == ls.len() || starts_with_spec(ls[k], p),
    ensures
        find_line_with_prefix(ls, p, i) == k,
    decreases k - i,
{
    if i < k {
        lemma_find_line_unique(ls, p, i + 1, k);
    }
}

fn find_prefix_line(parts: &Vec<&str>, p: &str) -> (r: usize)
    ensures
        r == find_line_with_prefix(parts@.map_values(|t: &str| t@), p@, 0),
        r <= parts@.len(),
        r < parts@.len() ==> starts_with_spec(parts@[r as int]@, p@),
{
    let ghost ls = parts@.map_values(|t: &str| t@);
    let n = parts.len();
    let mut k: usize = 0;
    while k < n
        invariant
            0 <= k <= n,
            n == parts@.len(),
            ls == parts@.map_values(|t: &str| t@),
            forall|j: int| 0 <= j < k ==> !starts_with_spec(ls[j], p@),
        decreases n - k,
    {
        if starts_with(parts[k], p) {
            proof {
                lemma_find_line_unique(ls, p@, 0, k as int);
            }
            return k;
        }
        k += 1;
    }
    proof {
        lemma_find_line_unique(ls, p@, 0, n as int);
    }
    n
}

/// Joins `parts` with CRLF; when `at` is in range, the line at `at` is
/// replaced by `repl` first.
fn join_with_replacement(parts: &Vec<&str>, at: usize, repl: &str) -> (r: String)
    ensures
        at < parts@.len() ==> r@ == join_crlf(
            parts@.map_values(|t: &str| t@).update(at as int, repl@),
        ),
        at >= parts@.len() ==> r@ == join_crlf(parts@.map_values(|t: &str| t@)),
{
    let ghost ls = parts@.map_values(|t: &str| t@);
    let ghost target = if (at as int) < ls.len() {
        ls.update(at as int, repl@)
    } else {
        ls
    };
    let mut out = String::new();
    let mut k: usize = 0;
    proof {
        assert(target.take(0) =~= Seq::<Seq<char>>::empty());
    }
    while k < parts.len()
        invariant
            0 <= k <= parts@.len(),
            ls == parts@.map_values(|t: &str| t@),
            target == (if (at as int) < ls.len() {
                ls.update(at as int, repl@)
            } else {
                ls
            }),
            target.len() == parts@.len(),
            out@ == join_crlf(target.take(k as int)),
        decreases parts@.len() - k,
    {
        let ghost pre = target.take(k as int);
        let ghost before = out@;
        if k > 0 {
            out.append("\r\n");
        }
        if k == at {
            out.append(repl);
        } else {
            out.append(parts[k]);
        }
        proof {
            reveal_strlit("\r\n");
            assert("\r\n"@ =~= crlf());
            lemma_join_crlf_push(pre, target[k as int]);
            assert(target.take(k + 1) =~= pre.push(target[k as int]));
            if k > 0 {
                assert(out@ =~= before + crlf() + target[k as int]);
            } else {
                assert(out@ =~= target[k as int]);
            }
        }
        k += 1;
    }
    proof {
        assert(target.take(parts@.len() as int) =~= target);
    }
    out
}

/// The advertised value of a `Server:` line: the text after every repeated
/// `Server:` prefix, trimmed of whitespace.
pub open spec fn server_value_of(l: Seq<char>) -> Seq<char> {
    trim_spec(strip_all_prefix(l, "Server:"@))
}

/// The `Server:` line this proxy relays in place of the backend's, naming
/// the backend's advertised value.
pub open spec fn new_server_line(v: Seq<char>) -> Seq<char> {
    "Server: nextWeb("@ + v + ")/0.1.0"@
}

/// The relayed response text when server rewriting is on: the first line
/// that begins with `Server:` is replaced by [`new_server_line`] built from
/// its own value, every other line is kept, and the lines are rejoined with
/// CRLF.
pub open spec fn rewrite_server_spec(resp: Seq<char>) -> Seq<char> {
    let ls = lines_of(resp);
    let i = find_line_with_prefix(ls, "Server:"@, 0);
    if i < ls.len() {
        join_crlf(ls.update(i, new_server_line(server_value_of(ls[i]))))
    } else {
        join_crlf(ls)
    }
}

/// Rewrites the first `Server:` line of a backend response as
/// [`rewrite_server_spec`] describes.
pub fn rewrite_server(response: &str) -> (r: String)
    ensures
        r@ == rewrite_server_spec(response@),
{
    let parts = split_lines(response);
    let i = find_prefix_line(&parts, "Server:");
    if i < parts.len() {
        proof {
            reveal_strlit("Server:");
        }
        let stripped = strip_prefix_rep(parts[i], "Server:");
        let value = trim(stripped);
        let mut repl = String::from_str("Server: nextWeb(");
        repl.append(value);
        repl.append(")/0.1.0");
        proof {
            assert(repl@ =~= new_server_line(server_value_of(parts@[i as int]@)));
        }
        join_with_replacement(&parts, i, repl.as_str())
    } else {
        join_with_replacement(&parts, i, "")
    }
}

/// How the round trip to the backend went, as the caller that owns the
/// outbound connection reports it.
pub enum BackendOutcome {
    /// The connection could not be opened within the timeout.
    Unreachable,
    /// The request could not be written to the open connection.
    WriteFailed,
    /// No response buffer could be read from the connection.
    ReadFailed,
    /// One buffer of response bytes, decoded leniently to text.
    Data(String),
}

/// The response relayed when the backend cannot be reached, written to, or
/// read from.
pub open spec fn bad_gateway_response() -> Seq<char> {
    "HTTP/1.1 502 Bad Gateway\r\n\r\n502 Bad Gateway"@
}

/// The text forwarded to the backend for a given request.
pub open spec fn forward_request_spec(
    modify_host: bool,
    header_host: Seq<char>,
    req: Seq<char>,
) -> Seq<char> {
    if modify_host {
        rewrite_host_spec(req, header_host)
    } else {
        req
    }
}

/// Builds the request text to write to the backend: the original request,
/// with its `Host:` lines rewritten exactly when the configuration asks for
/// it.
pub fn forward_request(cfg: &ProxyConfig, request: &str) -> (r: String)
    ensures
        r@ == forward_request_spec(cfg.modify_host, cfg.header_host@, request@),
{
    if cfg.modify_host {
        rewrite_host(request, cfg.header_host.as_str())
    } else {
        request.to_owned()
    }
}

/// The response relayed to the client for each backend outcome: a bad
/// gateway response for every failure, and otherwise the backend's bytes,
/// with the `Server:` line rewritten exactly when the configuration asks
/// for it.
pub open spec fn proxy_response_spec(modify_server: bool, o: BackendOutcome) -> Seq<char> {
    match o {
        BackendOutcome::Data(d) => if modify_server {
            rewrite_server_spec(d@)
        } else {
            d@
        },
        _ => bad_gateway_response(),
    }
}

/// Builds the response to relay for the given backend outcome, as
/// [`proxy_response_spec`] describes.
pub fn proxy_response(cfg: &ProxyConfig, outcome: &BackendOutcome) -> (r: String)
    ensures
        r@ == proxy_response_spec(cfg.modify_server, *outcome),
{
    match outcome {
        BackendOutcome::Data(d) => {
            if cfg.modify_server {
                rewrite_server(d.as_str())
            } else {
                d.clone()
            }
        },
        _ => String::from_str("HTTP/1.1 502 Bad Gateway\r\n\r\n502 Bad Gateway"),
    }
}

/// Host rewriting touches exactly the `Host:` lines: line for line, a line
/// that begins with `Host:` becomes the configured host line, and every
/// other line is kept verbatim.
pub proof fn lemma_host_rewrite_lines(req: Seq<char>, host: Seq<char>, k: int)
    requires
        0 <= k < lines_of(req).len(),
    ensures
        rewritten_host_lines(lines_of(req), host).len() == lines_of(req).len(),
        starts_with_spec(lines_of(req)[k], "Host:"@) ==> rewritten_host_lines(lines_of(req), host)[k]
            == host_line(host),
        !starts_with_spec(lines_of(req)[k], "Host:"@) ==> rewritten_host_lines(
            lines_of(req),
            host,
        )[k] == lines_of(req)[k],
{
}

/// Server rewriting touches exactly one line: the first line that begins
/// with `Server:` is replaced by the proxy's own server line carrying the
/// backend's advertised value, and every other line is kept verbatim.
pub proof fn lemma_server_rewrite_lines(resp: Seq<char>)
    requires
        find_line_with_prefix(lines_of(resp), "Server:"@, 0) < lines_of(resp).len(),
    ensures
        ({
            let ls = lines_of(resp);
            let i = find_line_with_prefix(ls, "Server:"@, 0);
            let rs = ls.update(i, new_server_line(server_value_of(ls[i])));
            rewrite_server_spec(resp) == join_crlf(rs) && rs[i] == new_server_line(
                server_value_of(ls[i]),
            ) && (forall|k: int| 0 <= k < ls.len() && k != i ==> rs[k] == ls[k])
        }),
{
    lemma_find_line_props(lines_of(resp), "Server:"@, 0);
}

/// An unreachable backend is answered with the bad-gateway response,
/// whatever the rewrite switches say; its status line starts with
/// `HTTP/1.1 502`.
pub proof fn lemma_unreachable_backend_is_502(modify_server: bool)
    ensures
        proxy_response_spec(modify_server, BackendOutcome::Unreachable) == bad_gateway_response(),
        starts_with_spec(bad_gateway_response(), "HTTP/1.1 502"@),
{
    reveal_strlit("HTTP/1.1 502 Bad Gateway\r\n\r\n502 Bad Gateway");
    reveal_strlit("HTTP/1.1 502");
    assert(bad_gateway_response().subrange(0, "HTTP/1.1 502"@.len() as int) =~= "HTTP/1.1 502"@);
}

} // verus!
