use nextweb::config::{ProxyConfig, ServerConfig, StaticConfig};
use nextweb::dispatch::{access_log_line, classify_status, dispatch_plan, Plan};

fn base_config(server_type: &str) -> ServerConfig {
    ServerConfig {
        bind_address: String::from("127.0.0.1"),
        bind_port: 8000,
        server_type: String::from(server_type),
        static_config: None,
        proxy_config: None,
    }
}

fn demo_static() -> StaticConfig {
    StaticConfig { webroot: String::from("/srv"), index: String::from("index.html") }
}

fn demo_proxy() -> ProxyConfig {
    ProxyConfig {
        backend: String::from("127.0.0.1:9000"),
        modify_host: false,
        header_host: String::from("example.com"),
        modify_server: false,
    }
}

#[test]
fn static_type_with_section_serves_static() {
    let mut cfg = base_config("static");
    cfg.static_config = Some(demo_static());
    assert!(matches!(dispatch_plan(&cfg), Plan::ServeStatic));
}

#[test]
fn proxy_type_with_section_serves_proxy() {
    let mut cfg = base_config("proxy");
    cfg.proxy_config = Some(demo_proxy());
    assert!(matches!(dispatch_plan(&cfg), Plan::ServeProxy));
}

#[test]
fn static_type_without_section_is_500() {
    let cfg = base_config("static");
    match dispatch_plan(&cfg) {
        Plan::Respond(s) => {
            assert_eq!(
                s,
                "HTTP/1.1 500 Internal Server Error\r\n\r\n500 Internal Server Error: Static configuration is missing"
            );
            assert_eq!(classify_status(&s), 500);
        }
        _ => panic!("expected a canned response"),
    }
}

#[test]
fn proxy_type_without_section_is_500() {
    let cfg = base_config("proxy");
    match dispatch_plan(&cfg) {
        Plan::Respond(s) => {
            assert_eq!(
                s,
                "HTTP/1.1 500 Internal Server Error\r\n\r\n500 Internal Server Error: Proxy configuration is missing"
            );
            assert_eq!(classify_status(&s), 500);
        }
        _ => panic!("expected a canned response"),
    }
}

#[test]
fn unknown_type_is_501_even_with_sections_populated() {
    let mut cfg = base_config("fastcgi");
    cfg.static_config = Some(demo_static());
    cfg.proxy_config = Some(demo_proxy());
    match dispatch_plan(&cfg) {
        Plan::Respond(s) => {
            assert_eq!(s, "HTTP/1.1 501 Not Implemented\r\n\r\n501 Not Implemented");
            assert_eq!(classify_status(&s), 501);
        }
        _ => panic!("expected the not-implemented response"),
    }
}

#[test]
fn empty_type_is_501() {
    let cfg = base_config("");
    assert!(matches!(dispatch_plan(&cfg), Plan::Respond(_)));
}

#[test]
fn recognized_status_lines_classify_to_their_code() {
    assert_eq!(classify_status("HTTP/1.1 200 OK\r\n\r\n"), 200);
    assert_eq!(classify_status("HTTP/1.1 404 Not Found\r\n\r\n"), 404);
    assert_eq!(classify_status("HTTP/1.1 500 Internal Server Error\r\n\r\n"), 500);
    assert_eq!(classify_status("HTTP/1.1 501 Not Implemented\r\n\r\n"), 501);
    assert_eq!(classify_status("HTTP/1.1 502 Bad Gateway\r\n\r\n"), 502);
}

#[test]
fn other_prefixes_classify_to_zero() {
    assert_eq!(classify_status("HTTP/1.0 200 OK\r\n\r\n"), 0);
    assert_eq!(classify_status("HTTP/1.1 301 Moved Permanently\r\n\r\n"), 0);
    assert_eq!(classify_status("garbage"), 0);
    assert_eq!(classify_status(""), 0);
    assert_eq!(classify_status("HTTP/1.1 20"), 0);
}

#[test]
fn access_log_line_format() {
    let line = access_log_line("2024-01-02 03:04:05", "127.0.0.1:54321", "/index.html", 200);
    assert_eq!(line, "[2024-01-02 03:04:05] 127.0.0.1:54321 - /index.html - 200");
}

#[test]
fn access_log_line_for_failed_read() {
    let line = access_log_line("2024-01-02 03:04:05", "unknown", "-", 400);
    assert_eq!(line, "[2024-01-02 03:04:05] unknown - - - 400");
}

#[test]
fn access_log_line_zero_status() {
    let line = access_log_line("t", "c", "/p", 0);
    assert_eq!(line, "[t] c - /p - 0");
}
