use minihttp::{encode, encode_with_date, Response};

const DATE: &str = "Thu, 01 Jan 1970 00:00:00 GMT";

#[test]
fn default_response_with_hello_body_encodes_exactly() {
    let mut r = Response::new();
    r.body("hello");
    let mut buf: Vec<u8> = Vec::new();
    encode_with_date(r, DATE, &mut buf);
    let text = String::from_utf8(buf).unwrap();
    assert_eq!(
        text,
        "HTTP/1.1 200 OK\r\nContent-Length: 5\r\nDate: Thu, 01 Jan 1970 00:00:00 GMT\r\n\r\nhello"
    );
}

#[test]
fn encode_uses_a_date_line_and_keeps_the_body_last() {
    let mut r = Response::new();
    r.body("hello");
    let mut buf: Vec<u8> = Vec::new();
    encode(r, &mut buf);
    let text = String::from_utf8(buf).unwrap();
    assert!(text.starts_with("HTTP/1.1 200 OK\r\nContent-Length: 5\r\nDate: "));
    assert!(text.ends_with("\r\n\r\nhello"));
}

#[test]
fn custom_status_appears_in_the_status_line() {
    let mut r = Response::new();
    r.status_code(404, "Not Found");
    let mut buf: Vec<u8> = Vec::new();
    encode_with_date(r, DATE, &mut buf);
    let text = String::from_utf8(buf).unwrap();
    assert!(text.starts_with("HTTP/1.1 404 Not Found\r\n"));
    assert!(text.contains("\r\nContent-Length: 0\r\n"));
}

#[test]
fn builder_calls_chain() {
    let mut r = Response::new();
    r.status_code(503, "Service Unavailable").header("Retry-After", "1").body("later");
    let mut buf: Vec<u8> = Vec::new();
    encode_with_date(r, DATE, &mut buf);
    let text = String::from_utf8(buf).unwrap();
    assert_eq!(
        text,
        "HTTP/1.1 503 Service Unavailable\r\nContent-Length: 5\r\nDate: Thu, 01 Jan 1970 00:00:00 GMT\r\nRetry-After: 1\r\n\r\nlater"
    );
}

#[test]
fn header_entries_are_encoded_in_insertion_order_with_duplicates() {
    let mut r = Response::new();
    r.header("Vary", "Accept");
    r.headers_mut().add("Vary", "Cookie");
    r.headers_mut().set("X-Mode", "on");
    let mut buf: Vec<u8> = Vec::new();
    encode_with_date(r, DATE, &mut buf);
    let text = String::from_utf8(buf).unwrap();
    assert!(text.contains("\r\nVary: Accept\r\nVary: Cookie\r\nX-Mode: on\r\n\r\n"));
}

#[test]
fn from_text_sets_plain_text_content_type() {
    let r = Response::from_text("hi");
    let mut buf: Vec<u8> = Vec::new();
    encode_with_date(r, DATE, &mut buf);
    let text = String::from_utf8(buf).unwrap();
    assert_eq!(
        text,
        "HTTP/1.1 200 OK\r\nContent-Length: 2\r\nDate: Thu, 01 Jan 1970 00:00:00 GMT\r\nContent-Type: text/plain; charset=utf-8\r\n\r\nhi"
    );
}

#[test]
fn encoding_appends_after_existing_buffer_contents() {
    let mut first = Response::new();
    first.body("one");
    let mut buf: Vec<u8> = Vec::new();
    encode_with_date(first, DATE, &mut buf);
    let first_len = buf.len();
    let mut second = Response::new();
    second.body("two");
    encode_with_date(second, DATE, &mut buf);
    let text = String::from_utf8(buf).unwrap();
    assert!(text[..first_len].ends_with("\r\n\r\none"));
    assert!(text[first_len..].starts_with("HTTP/1.1 200 OK\r\n"));
    assert!(text.ends_with("\r\n\r\ntwo"));
}

#[test]
fn encoding_the_same_response_twice_is_byte_identical() {
    let mut a = Response::new();
    a.status_code(201, "Created").header("X", "y").body("made");
    let mut b = Response::new();
    b.status_code(201, "Created").header("X", "y").body("made");
    let mut buf_a: Vec<u8> = Vec::new();
    let mut buf_b: Vec<u8> = b"already-sent".to_vec();
    encode_with_date(a, DATE, &mut buf_a);
    encode_with_date(b, DATE, &mut buf_b);
    assert_eq!(buf_a.as_slice(), &buf_b["already-sent".len()..]);
}

#[test]
fn large_content_length_is_decimal() {
    let mut r = Response::new();
    let body = "x".repeat(12345);
    r.body(&body);
    let mut buf: Vec<u8> = Vec::new();
    encode_with_date(r, DATE, &mut buf);
    let text = String::from_utf8(buf).unwrap();
    assert!(text.contains("\r\nContent-Length: 12345\r\n"));
}
