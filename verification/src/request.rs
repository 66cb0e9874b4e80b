//! Decoding one HTTP/1.1 request from buffered input bytes.
//!
//! Tokenizing the request line and header lines is delegated to an outside
//! parser; this module's own work is buffer bookkeeping (how many bytes one
//! request occupies), translating the parser's output into the `Request` and
//! `Headers` data model, and classifying the outcome as incomplete, malformed
//! or complete.

use vstd::prelude::*;

use crate::headers::Headers;

verus! {

/// A decoded request: method, target path, minor protocol version and the
/// header entries, in the order they stood on the wire.
pub struct Request {
    pub method: String,
    pub path: String,
    pub version: u8,
    pub headers: Headers,
}

/// Outcome of one decode attempt over the bytes buffered so far.
pub enum DecodeResult {
    /// The bytes are a valid prefix, but no complete request is present yet;
    /// nothing was consumed. Decode again once more bytes arrive.
    Incomplete,
    /// The bytes can never form a valid request; the connection is beyond
    /// recovery.
    Malformed,
    /// One complete request, and the number of bytes it occupied at the front
    /// of the buffer.
    Complete(Request, usize),
}

/// What the outside parser finds in a byte buffer.
pub enum ParsedRequest {
    Incomplete,
    Malformed,
    Complete {
        method: Seq<char>,
        path: Seq<char>,
        version: u8,
        headers: Seq<(Seq<char>, Seq<char>)>,
        consumed: int,
    },
}

/// What parsing the given bytes as one HTTP/1.1 request head yields.
pub uninterp spec fn http_parse(bytes: Seq<u8>) -> ParsedRequest;

enum RawParse {
    Incomplete,
    Malformed,
    Complete {
        method: String,
        path: String,
        version: u8,
        headers: Vec<(String, String)>,
        consumed: usize,
    },
}

spec fn raw_entries_view(headers: Seq<(String, String)>) -> Seq<(Seq<char>, Seq<char>)> {
    Seq::new(headers.len(), |i: int| (headers[i].0@, headers[i].1@))
}

spec fn raw_view(r: RawParse) -> ParsedRequest {
    match r {
        RawParse::Incomplete => ParsedRequest::Incomplete,
        RawParse::Malformed => ParsedRequest::Malformed,
        RawParse::Complete { method, path, version, headers, consumed } => ParsedRequest::Complete {
            method: method@,
            path: path@,
            version,
            headers: raw_entries_view(headers@),
            consumed: consumed as int,
        },
    }
}

/// Relies on httparse's `Request::parse` (given room for 32 header entries):
/// it tokenizes one request line and header block, deterministically in the
/// bytes, and on success reports the byte offset of the body, which never
/// exceeds the buffer's length. Header values are taken as text (std's lossy
/// UTF-8 conversion).
#[verifier::external_body]
fn parse_bytes(buf: &Vec<u8>) -> (r: RawParse)
    ensures
        raw_view(r) == http_parse(buf@),
        r matches RawParse::Complete { consumed, .. } ==> consumed <= buf@.len(),
{
    let mut slots = [httparse::EMPTY_HEADER; 32];
    let mut req = httparse::Request::new(&mut slots);
    match req.parse(buf.as_slice()) {
        Ok(httparse::Status::Complete(n)) => RawParse::Complete {
            method: req.method.unwrap_or("").to_string(),
            path: req.path.unwrap_or("").to_string(),
            version: req.version.unwrap_or(1),
            headers: req.headers.iter().map(
                |h| (h.name.to_string(), String::from_utf8_lossy(h.value).into_owned()),
            ).collect(),
            consumed: n,
        },
        Ok(httparse::Status::Partial) => RawParse::Incomplete,
        Err(_) => RawParse::Malformed,
    }
}

/// How a decode result must reflect the parse of the buffered bytes: the same
/// classification, and on completion a request carrying exactly the parsed
/// fields and the parsed byte count.
pub open spec fn decode_post(bytes: Seq<u8>, r: DecodeResult) -> bool {
    match http_parse(bytes) {
        ParsedRequest::Incomplete => r is Incomplete,
        ParsedRequest::Malformed => r is Malformed,
        ParsedRequest::Complete { method, path, version, headers, consumed } => r matches
            DecodeResult::Complete(req, n) && req.method@ == method && req.path@ == path
            && req.version == version && req.headers@ == headers && n as int == consumed && n
            <= bytes.len(),
    }
}

/// Attempts to decode one complete request from the front of `buf`. Consumes
/// nothing itself: on `Complete` the caller drops the reported number of
/// bytes from the front of its buffer.
pub fn decode(buf: &Vec<u8>) -> (r: DecodeResult)
    ensures
        decode_post(buf@, r),
{
    match parse_bytes(buf) {
        RawParse::Incomplete => DecodeResult::Incomplete,
        RawParse::Malformed => DecodeResult::Malformed,
        RawParse::Complete { method, path, version, headers, consumed } => {
            let ghost hview: Seq<(Seq<char>, Seq<char>)> = raw_entries_view(headers@);
            let mut hc = Headers::new();
            let n: usize = headers.len();
            let mut i: usize = 0;
            while i < n
                invariant
                    n == headers@.len(),
                    i <= n,
                    hview == raw_entries_view(headers@),
                    hc@ == hview.take(i as int),
                decreases n - i,
            {
                let e = &headers[i];
                hc.add(e.0.as_str(), e.1.as_str());
                proof {
                    assert(hview.take(i + 1) =~= hview.take(i as int).push(hview[i as int]));
                }
                i = i + 1;
            }
            proof {
                assert(hview.take(hview.len() as int) =~= hview);
            }
            DecodeResult::Complete(Request { method, path, version, headers: hc }, consumed)
        },
    }
}

} // verus!
