use minihttp::{DecodeResult, HttpCodec, Response};

#[test]
fn request_without_blank_line_is_incomplete() {
    let mut codec = HttpCodec;
    let buf: Vec<u8> = b"GET / HTTP/1.1\r\n".to_vec();
    assert!(matches!(codec.decode(&buf), DecodeResult::Incomplete));
}

#[test]
fn completed_request_consumes_the_whole_head() {
    let mut codec = HttpCodec;
    let mut buf: Vec<u8> = b"GET / HTTP/1.1\r\n".to_vec();
    assert!(matches!(codec.decode(&buf), DecodeResult::Incomplete));
    buf.extend_from_slice(b"\r\n");
    match codec.decode(&buf) {
        DecodeResult::Complete(req, n) => {
            assert_eq!(req.method, "GET");
            assert_eq!(req.path, "/");
            assert_eq!(req.version, 1);
            assert_eq!(n, buf.len());
        },
        _ => panic!("expected a complete request"),
    }
}

#[test]
fn request_headers_arrive_in_wire_order() {
    let mut codec = HttpCodec;
    let buf: Vec<u8> =
        b"POST /submit HTTP/1.0\r\nHost: example\r\nAccept: */*\r\nHost: other\r\n\r\n".to_vec();
    match codec.decode(&buf) {
        DecodeResult::Complete(req, n) => {
            assert_eq!(req.method, "POST");
            assert_eq!(req.path, "/submit");
            assert_eq!(req.version, 0);
            assert_eq!(n, buf.len());
            let mut it = req.headers.iter();
            assert_eq!(it.next(), Some(("Host", "example")));
            assert_eq!(it.next(), Some(("Accept", "*/*")));
            assert_eq!(it.next(), Some(("Host", "other")));
            assert_eq!(it.next(), None);
        },
        _ => panic!("expected a complete request"),
    }
}

#[test]
fn missing_version_token_is_malformed() {
    let mut codec = HttpCodec;
    let buf: Vec<u8> = b"GET /\r\n\r\n".to_vec();
    assert!(matches!(codec.decode(&buf), DecodeResult::Malformed));
}

#[test]
fn garbage_request_line_is_malformed() {
    let mut codec = HttpCodec;
    let buf: Vec<u8> = b"@!#$ not http\r\n\r\n".to_vec();
    assert!(matches!(codec.decode(&buf), DecodeResult::Malformed));
}

#[test]
fn empty_buffer_is_incomplete() {
    let mut codec = HttpCodec;
    let buf: Vec<u8> = Vec::new();
    assert!(matches!(codec.decode(&buf), DecodeResult::Incomplete));
}

#[test]
fn pipelined_requests_consume_only_the_first_frame() {
    let mut codec = HttpCodec;
    let first: &[u8] = b"GET /a HTTP/1.1\r\n\r\n";
    let mut buf: Vec<u8> = first.to_vec();
    buf.extend_from_slice(b"GET /b HTTP/1.1\r\n\r\n");
    match codec.decode(&buf) {
        DecodeResult::Complete(req, n) => {
            assert_eq!(req.path, "/a");
            assert_eq!(n, first.len());
        },
        _ => panic!("expected a complete request"),
    }
    let rest: Vec<u8> = buf[first.len()..].to_vec();
    match codec.decode(&rest) {
        DecodeResult::Complete(req, n) => {
            assert_eq!(req.path, "/b");
            assert_eq!(n, rest.len());
        },
        _ => panic!("expected a complete request"),
    }
}

#[test]
fn codec_encode_appends_one_frame() {
    let mut codec = HttpCodec;
    let mut r = Response::new();
    r.body("ok");
    let mut buf: Vec<u8> = b"prior".to_vec();
    codec.encode(r, &mut buf);
    let text = String::from_utf8(buf).unwrap();
    assert!(text.starts_with("priorHTTP/1.1 200 OK\r\nContent-Length: 2\r\nDate: "));
    assert!(text.ends_with("\r\n\r\nok"));
}
