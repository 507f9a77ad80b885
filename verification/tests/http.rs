use web_server::http::{file_name, response, route, run_mode, status_line, usize_to_string, Route,
    RunMode};

#[test]
fn root_and_index_route_home() {
    assert_eq!(route("GET / HTTP/1.1"), Route::Home);
    assert_eq!(route("GET /index HTTP/1.1"), Route::Home);
}

#[test]
fn sleep_routes_to_sleep() {
    assert_eq!(route("GET /sleep HTTP/1.1"), Route::Sleep);
}

#[test]
fn anything_else_routes_to_not_found() {
    assert_eq!(route("GET /missing HTTP/1.1"), Route::NotFound);
    assert_eq!(route("POST / HTTP/1.1"), Route::NotFound);
    assert_eq!(route(""), Route::NotFound);
}

#[test]
fn status_lines_per_route() {
    assert_eq!(status_line(Route::Home), "HTTP/1.1 200 OK");
    assert_eq!(status_line(Route::Sleep), "HTTP/1.1 200 OK");
    assert_eq!(status_line(Route::NotFound), "HTTP/1.1 404 NOT FOUND");
}

#[test]
fn file_names_per_route() {
    assert_eq!(file_name(Route::Home), "index.html");
    assert_eq!(file_name(Route::Sleep), "index.html");
    assert_eq!(file_name(Route::NotFound), "404.html");
}

#[test]
fn decimal_rendering() {
    assert_eq!(usize_to_string(0), "0");
    assert_eq!(usize_to_string(7), "7");
    assert_eq!(usize_to_string(10), "10");
    assert_eq!(usize_to_string(90210), "90210");
    assert_eq!(usize_to_string(usize::MAX), format!("{}", usize::MAX));
}

#[test]
fn response_formats_status_length_and_body() {
    assert_eq!(
        response("HTTP/1.1 200 OK", "hello"),
        "HTTP/1.1 200 OK\r\nContent-Length: 5\r\n\r\nhello"
    );
}

#[test]
fn response_content_length_counts_bytes() {
    // A multi-byte character counts by its UTF-8 length, as the original
    // byte-oriented length does.
    assert_eq!(
        response("HTTP/1.1 200 OK", "é"),
        "HTTP/1.1 200 OK\r\nContent-Length: 2\r\n\r\né"
    );
}

#[test]
fn empty_body_has_length_zero() {
    assert_eq!(
        response("HTTP/1.1 404 NOT FOUND", ""),
        "HTTP/1.1 404 NOT FOUND\r\nContent-Length: 0\r\n\r\n"
    );
}

#[test]
fn run_modes() {
    assert_eq!(run_mode("multi threaded"), RunMode::MultiThreaded);
    assert_eq!(run_mode("async"), RunMode::Async);
    assert_eq!(run_mode("threaded"), RunMode::Unknown);
    assert_eq!(run_mode(""), RunMode::Unknown);
}
