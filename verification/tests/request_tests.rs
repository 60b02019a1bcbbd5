use nextweb::request::extract_path;

#[test]
fn path_between_first_two_spaces() {
    assert_eq!(extract_path(b"GET /abc HTTP/1.1\r\nHost: x\r\n\r\n"), "/abc");
}

#[test]
fn path_keeps_query_string() {
    assert_eq!(extract_path(b"GET /search?q=1&r=2 HTTP/1.1\r\n"), "/search?q=1&r=2");
}

#[test]
fn no_space_defaults_to_root() {
    assert_eq!(extract_path(b"GET"), "/");
    assert_eq!(extract_path(b""), "/");
}

#[test]
fn one_space_defaults_to_root() {
    assert_eq!(extract_path(b"GET /abc"), "/");
}

#[test]
fn token_is_trimmed() {
    // The token between the spaces carries a tab and a carriage return;
    // both are trimmed away.
    assert_eq!(extract_path(b"GET \t/x\r HTTP/1.1"), "/x");
}

#[test]
fn all_whitespace_token_trims_to_empty() {
    assert_eq!(extract_path(b"GET \t\r HTTP/1.1"), "");
}

#[test]
fn invalid_utf8_is_replaced_not_dropped() {
    // 0xFF can start no UTF-8 sequence; the lenient decoding turns it into
    // the replacement character.
    assert_eq!(extract_path(b"GET /a\xFFb HTTP/1.1"), "/a\u{FFFD}b");
}

#[test]
fn zero_padded_buffer_is_harmless() {
    // A fixed-size read buffer leaves trailing zero bytes after the request.
    assert_eq!(extract_path(b"GET / HTTP/1.1\r\n\r\n\0\0\0\0\0\0"), "/");
}

#[test]
fn multibyte_path_survives() {
    assert_eq!(extract_path("GET /caf\u{e9} HTTP/1.1".as_bytes()), "/caf\u{e9}");
}
