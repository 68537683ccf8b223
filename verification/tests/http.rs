use web_server::http::{replace, respond, route, starts_with, unreadable_page_bytes, Route, SLEEP_SECONDS};

fn padded(request: &str) -> Vec<u8> {
    let mut buffer = vec![0u8; 1024];
    buffer[..request.len()].copy_from_slice(request.as_bytes());
    buffer
}

#[test]
fn each_request_line_has_its_route() {
    assert_eq!(route(&padded("GET / HTTP/1.1\r\nHost: localhost\r\n\r\n")), Route::Home);
    assert_eq!(route(&padded("GET /sleep HTTP/1.1\r\n\r\n")), Route::Sleep);
    assert_eq!(route(&padded("POST /hit-stay HTTP/1.1\r\n\r\n")), Route::HitStay);
    assert_eq!(route(&padded("GET /server-endpoint HTTP/1.1\r\n\r\n")), Route::ServerEndpoint);
    assert_eq!(route(&padded("GET /start-game HTTP/1.1\r\n\r\n")), Route::StartGame);
}

#[test]
fn a_bare_request_line_is_enough() {
    assert_eq!(route(b"GET / HTTP/1.1\r\n"), Route::Home);
    assert_eq!(route(b"GET /sleep HTTP/1.1\r\n"), Route::Sleep);
}

#[test]
fn anything_else_is_not_found() {
    assert_eq!(route(&padded("GET /nothing HTTP/1.1\r\n\r\n")), Route::NotFound);
    assert_eq!(route(&padded("GET /hit-stay HTTP/1.1\r\n\r\n")), Route::NotFound);
    assert_eq!(route(&padded("POST / HTTP/1.1\r\n\r\n")), Route::NotFound);
    assert_eq!(route(&padded("get / http/1.1\r\n\r\n")), Route::NotFound);
    assert_eq!(route(&padded("GET / HTTP/1.0\r\n\r\n")), Route::NotFound);
    assert_eq!(route(&padded(" GET / HTTP/1.1\r\n\r\n")), Route::NotFound);
    assert_eq!(route(b"GET / HTTP/1.1\r"), Route::NotFound);
    assert_eq!(route(b""), Route::NotFound);
    assert_eq!(route(&[0u8; 1024]), Route::NotFound);
}

#[test]
fn only_the_sleep_route_pauses() {
    assert_eq!(SLEEP_SECONDS, 5);
    assert_eq!(Route::Sleep.delay_seconds(), 5);
    for r in [Route::Home, Route::HitStay, Route::ServerEndpoint, Route::StartGame, Route::NotFound] {
        assert_eq!(r.delay_seconds(), 0);
    }
}

#[test]
fn routes_name_their_files() {
    assert_eq!(Route::Home.file(), Some("index.html"));
    assert_eq!(Route::Sleep.file(), Some("index.html"));
    assert_eq!(Route::HitStay.file(), Some("index.html"));
    assert_eq!(Route::NotFound.file(), Some("404.html"));
    assert_eq!(Route::ServerEndpoint.file(), None);
    assert_eq!(Route::StartGame.file(), None);
}

#[test]
fn starts_with_compares_the_leading_bytes() {
    assert!(starts_with(b"hello", b"he"));
    assert!(starts_with(b"hello", b"hello"));
    assert!(starts_with(b"hello", b""));
    assert!(starts_with(b"", b""));
    assert!(!starts_with(b"hello", b"hello!"));
    assert!(!starts_with(b"hello", b"hx"));
    assert!(!starts_with(b"", b"h"));
}

#[test]
fn home_page_is_served_with_its_length() {
    let page = "<html><body>hi</body></html>";
    let expected = format!("HTTP/1.1 200 OK\r\nContent-Length: {}\r\n\r\n{}", page.len(), page);
    assert_eq!(respond(Route::Home, page.as_bytes()), expected.as_bytes());
    assert_eq!(respond(Route::Sleep, page.as_bytes()), expected.as_bytes());
    assert_eq!(
        respond(Route::Home, b"0123456789"),
        b"HTTP/1.1 200 OK\r\nContent-Length: 10\r\n\r\n0123456789"
    );
}

#[test]
fn missing_route_is_served_the_error_page() {
    assert_eq!(
        respond(Route::NotFound, b"<h1>Oops!</h1>"),
        b"HTTP/1.1 404 NOT FOUND\r\nContent-Length: 14\r\n\r\n<h1>Oops!</h1>"
    );
}

#[test]
fn content_length_is_written_in_decimal() {
    for len in [0usize, 1, 9, 10, 11, 99, 100, 101, 999, 1000, 1234, 65536, 100000] {
        let body = vec![b'x'; len];
        let mut expected = format!("HTTP/1.1 200 OK\r\nContent-Length: {}\r\n\r\n", len).into_bytes();
        expected.extend_from_slice(&body);
        assert_eq!(respond(Route::Home, &body), expected);
    }
}

#[test]
fn content_length_counts_bytes() {
    let page = "héllo";
    assert_eq!(page.len(), 6);
    assert_eq!(
        respond(Route::Home, page.as_bytes()),
        "HTTP/1.1 200 OK\r\nContent-Length: 6\r\n\r\nhéllo".as_bytes()
    );
}

#[test]
fn hit_stay_adds_the_player_script_before_the_body_ends() {
    let page = "<html><body><p>table</p></body></html>";
    assert_eq!(
        respond(Route::HitStay, page.as_bytes()),
        "HTTP/1.1 200 OK\r\nContent-Type: text/html\r\n\r\n<html><body><p>table</p><script>addPlayer(1);</script>\n</body></html>"
            .as_bytes()
    );
}

#[test]
fn hit_stay_serves_the_error_text_when_the_page_is_unreadable() {
    let page = unreadable_page_bytes();
    assert_eq!(page, b"Error: Could not read index.html");
    assert_eq!(
        respond(Route::HitStay, &page),
        b"HTTP/1.1 200 OK\r\nContent-Type: text/html\r\n\r\nError: Could not read index.html"
    );
}

#[test]
fn server_endpoint_greets_in_json() {
    let expected = b"HTTP/1.1 200 OK\r\nContent-Type: application/json\r\n\r\n{\"message\": \"Hello, JSON!\"}";
    assert_eq!(respond(Route::ServerEndpoint, b""), expected);
    assert_eq!(respond(Route::ServerEndpoint, b"ignored"), expected);
}

#[test]
fn start_game_sends_the_state_as_json() {
    let state = "{\"house\":[],\"players\":[]}";
    assert_eq!(
        respond(Route::StartGame, state.as_bytes()),
        "HTTP/1.1 200 OK\r\nContent-Type: application/json\r\n\r\n{\"house\":[],\"players\":[]}".as_bytes()
    );
}

#[test]
fn replace_agrees_with_the_standard_library() {
    let cases = [
        ("", "a", "b"),
        ("abc", "b", "xyz"),
        ("aaa", "aa", "b"),
        ("aaaa", "aa", "b"),
        ("abcabcabc", "abc", ""),
        ("abcabcabc", "bc", "-"),
        ("no match here", "zzz", "y"),
        ("</body></body>", "</body>", "<script>addPlayer(1);</script>\n</body>"),
        ("<body></bod</body>", "</body>", "!"),
        ("short", "much longer than the text", "x"),
        ("tail match ab", "ab", "cd"),
        ("ab head match", "ab", "cd"),
        ("ababab", "aba", "x"),
    ];
    for (text, from, to) in cases {
        assert_eq!(replace(text.as_bytes(), from.as_bytes(), to.as_bytes()), text.replace(from, to).into_bytes());
    }
}

#[test]
fn replace_with_an_empty_pattern_changes_nothing() {
    assert_eq!(replace(b"abc", b"", b"x"), b"abc");
    assert_eq!(replace(b"", b"", b"x"), b"");
}
