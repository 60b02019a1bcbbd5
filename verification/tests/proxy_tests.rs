use nextweb::config::ProxyConfig;
use nextweb::dispatch::classify_status;
use nextweb::proxy::{forward_request, parse_backend, proxy_response, BackendOutcome};

fn proxy_config(modify_host: bool, modify_server: bool) -> ProxyConfig {
    ProxyConfig {
        backend: String::from("127.0.0.1:8080"),
        modify_host,
        header_host: String::from("example.com"),
        modify_server,
    }
}

#[test]
fn backend_host_and_port_split() {
    assert_eq!(parse_backend("localhost:8080"), (String::from("localhost"), 8080));
}

#[test]
fn backend_scheme_is_stripped_once() {
    assert_eq!(parse_backend("http://example.com"), (String::from("example.com"), 80));
}

#[test]
fn backend_without_port_defaults_to_80() {
    assert_eq!(parse_backend("example.com"), (String::from("example.com"), 80));
}

#[test]
fn backend_splits_on_last_colon() {
    assert_eq!(parse_backend("fe80::1:8081"), (String::from("fe80::1"), 8081));
}

#[test]
fn backend_bad_port_defaults_to_80() {
    assert_eq!(parse_backend("example.com:http"), (String::from("example.com"), 80));
    assert_eq!(parse_backend("example.com:70000"), (String::from("example.com"), 80));
    assert_eq!(parse_backend("example.com:"), (String::from("example.com"), 80));
}

#[test]
fn backend_port_with_plus_sign_parses() {
    // str::parse::<u16> accepts a leading plus sign.
    assert_eq!(parse_backend("example.com:+443"), (String::from("example.com"), 443));
}

#[test]
fn host_header_rewritten_when_enabled() {
    let cfg = proxy_config(true, false);
    let request = "GET / HTTP/1.1\r\nHost: original.com\r\nAccept: */*\r\n\r\n";
    let forwarded = forward_request(&cfg, request);
    assert_eq!(
        forwarded,
        "GET / HTTP/1.1\r\nHost: example.com\r\nAccept: */*\r\n"
    );
}

#[test]
fn every_host_line_is_rewritten_and_others_kept() {
    let cfg = proxy_config(true, false);
    let request = "GET / HTTP/1.1\r\nHost: a.com\r\nX-Host: keep\r\nHost: b.com";
    let forwarded = forward_request(&cfg, request);
    assert_eq!(
        forwarded,
        "GET / HTTP/1.1\r\nHost: example.com\r\nX-Host: keep\r\nHost: example.com"
    );
}

#[test]
fn request_unchanged_when_host_rewrite_off() {
    let cfg = proxy_config(false, false);
    let request = "GET / HTTP/1.1\r\nHost: original.com\r\n\r\n";
    assert_eq!(forward_request(&cfg, request), request);
}

#[test]
fn unreachable_backend_yields_502() {
    let cfg = proxy_config(false, false);
    let response = proxy_response(&cfg, &BackendOutcome::Unreachable);
    assert!(response.starts_with("HTTP/1.1 502"));
    assert_eq!(response, "HTTP/1.1 502 Bad Gateway\r\n\r\n502 Bad Gateway");
    assert_eq!(classify_status(&response), 502);
}

#[test]
fn failed_write_and_read_yield_502() {
    let cfg = proxy_config(true, true);
    assert_eq!(
        proxy_response(&cfg, &BackendOutcome::WriteFailed),
        "HTTP/1.1 502 Bad Gateway\r\n\r\n502 Bad Gateway"
    );
    assert_eq!(
        proxy_response(&cfg, &BackendOutcome::ReadFailed),
        "HTTP/1.1 502 Bad Gateway\r\n\r\n502 Bad Gateway"
    );
}

#[test]
fn server_header_rewritten_when_enabled() {
    let cfg = proxy_config(false, true);
    let backend = "HTTP/1.1 200 OK\r\nServer: nginx/1.2\r\nContent-Length: 5\r\n\r\nhello";
    let relayed = proxy_response(&cfg, &BackendOutcome::Data(String::from(backend)));
    assert_eq!(
        relayed,
        "HTTP/1.1 200 OK\r\nServer: nextWeb(nginx/1.2)/0.1.0\r\nContent-Length: 5\r\n\r\nhello"
    );
}

#[test]
fn server_value_is_trimmed() {
    let cfg = proxy_config(false, true);
    let backend = "HTTP/1.1 200 OK\r\nServer:   spaced   \r\n\r\nok";
    let relayed = proxy_response(&cfg, &BackendOutcome::Data(String::from(backend)));
    assert_eq!(
        relayed,
        "HTTP/1.1 200 OK\r\nServer: nextWeb(spaced)/0.1.0\r\n\r\nok"
    );
}

#[test]
fn only_first_server_line_is_rewritten() {
    let cfg = proxy_config(false, true);
    let backend = "HTTP/1.1 200 OK\r\nServer: one\r\nServer: two\r\n\r\nok";
    let relayed = proxy_response(&cfg, &BackendOutcome::Data(String::from(backend)));
    assert_eq!(
        relayed,
        "HTTP/1.1 200 OK\r\nServer: nextWeb(one)/0.1.0\r\nServer: two\r\n\r\nok"
    );
}

#[test]
fn repeated_server_prefixes_are_stripped_from_value() {
    let cfg = proxy_config(false, true);
    let backend = "HTTP/1.1 200 OK\r\nServer:Server: twice\r\n\r\nok";
    let relayed = proxy_response(&cfg, &BackendOutcome::Data(String::from(backend)));
    assert_eq!(
        relayed,
        "HTTP/1.1 200 OK\r\nServer: nextWeb(twice)/0.1.0\r\n\r\nok"
    );
}

#[test]
fn response_without_server_line_keeps_lines() {
    let cfg = proxy_config(false, true);
    let backend = "HTTP/1.1 200 OK\r\nX-Other: y\r\n\r\nbody";
    let relayed = proxy_response(&cfg, &BackendOutcome::Data(String::from(backend)));
    assert_eq!(relayed, backend);
}

#[test]
fn bare_newlines_normalized_when_rewriting() {
    let cfg = proxy_config(false, true);
    let backend = "HTTP/1.1 200 OK\nServer: x\n\nbody";
    let relayed = proxy_response(&cfg, &BackendOutcome::Data(String::from(backend)));
    assert_eq!(relayed, "HTTP/1.1 200 OK\r\nServer: nextWeb(x)/0.1.0\r\n\r\nbody");
}

#[test]
fn response_unchanged_when_server_rewrite_off() {
    let cfg = proxy_config(false, false);
    let backend = "HTTP/1.1 200 OK\nServer: nginx\n\nbody";
    let relayed = proxy_response(&cfg, &BackendOutcome::Data(String::from(backend)));
    assert_eq!(relayed, backend);
}
