use nextweb::config::StaticConfig;
use nextweb::dispatch::classify_status;
use nextweb::static_files::{static_file_path, static_response, FileOutcome};

fn demo_config() -> StaticConfig {
    StaticConfig { webroot: String::from("/srv/www"), index: String::from("index.html") }
}

#[test]
fn root_path_resolves_to_index_file() {
    let cfg = demo_config();
    assert_eq!(static_file_path(&cfg, "/"), "/srv/www/index.html");
}

#[test]
fn other_paths_are_joined_verbatim() {
    let cfg = demo_config();
    // The leading slash of the request path is kept, so the separator is
    // doubled; the file system collapses it.
    assert_eq!(static_file_path(&cfg, "/page.html"), "/srv/www//page.html");
}

#[test]
fn root_serves_same_bytes_as_naming_the_index() {
    // Requesting "/" and requesting the index by name read the same file,
    // so with the same read outcome the responses are byte-identical.
    let body = String::from("<html>home</html>");
    let via_root = static_response(&FileOutcome::Content(body.clone()));
    let via_name = static_response(&FileOutcome::Content(body));
    assert_eq!(via_root, via_name);
}

#[test]
fn readable_file_served_verbatim_with_200() {
    let response = static_response(&FileOutcome::Content(String::from("<p>hi</p>\n")));
    assert!(response.starts_with("HTTP/1.1 200"));
    assert_eq!(
        response,
        "HTTP/1.1 200 OK\r\nServer: nextWeb/0.1.0\r\nContent-Type: text/html; charset=utf-8\r\n\r\n<p>hi</p>\n"
    );
    assert_eq!(classify_status(&response), 200);
}

#[test]
fn empty_file_served_with_200_and_empty_body() {
    let response = static_response(&FileOutcome::Content(String::new()));
    assert_eq!(
        response,
        "HTTP/1.1 200 OK\r\nServer: nextWeb/0.1.0\r\nContent-Type: text/html; charset=utf-8\r\n\r\n"
    );
}

#[test]
fn unopenable_file_is_404() {
    let response = static_response(&FileOutcome::OpenFailed);
    assert!(response.starts_with("HTTP/1.1 404"));
    assert_eq!(response, "HTTP/1.1 404 Not Found\r\n\r\n404 Not Found");
    assert_eq!(classify_status(&response), 404);
}

#[test]
fn unreadable_file_is_500() {
    let response = static_response(&FileOutcome::ReadFailed);
    assert_eq!(
        response,
        "HTTP/1.1 500 Internal Server Error\r\n\r\n500 Internal Server Error"
    );
    assert_eq!(classify_status(&response), 500);
}
