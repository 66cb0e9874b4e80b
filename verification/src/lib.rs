//! Byte-level HTTP/1.1 framing for a pipelined request/response server.
//!
//! The library turns raw inbound bytes into a structured [`Request`] and a
//! structured [`Response`] into raw outbound bytes, one frame at a time. The
//! socket loop, scheduling and service dispatch live outside: a host drives
//! [`HttpCodec::decode`] and [`HttpCodec::encode`] per connection.

use vstd::prelude::*;

mod headers;
mod request;
mod response;

pub use headers::Headers;
pub use headers::ResponseHeadersIter;
pub use headers::first_match;
pub use request::DecodeResult;
pub use request::ParsedRequest;
pub use request::Request;
pub use request::decode_post;
pub use request::http_parse;
pub use response::Response;
pub use response::encode;
pub use response::encode_with_date;
pub use response::response_bytes;

verus! {

/// The HTTP/1.1 protocol marker: one frame is one request (inbound) or one
/// response (outbound). A host binds it to a connection by driving an
/// [`HttpCodec`] over that connection's buffers.
pub struct Http;

/// Per-connection codec: decodes request frames from an input buffer and
/// encodes response frames into an output buffer.
pub struct HttpCodec;

impl HttpCodec {
    /// Attempts to decode one request frame from the front of `buf`,
    /// consuming nothing; on completion it reports how many bytes the frame
    /// occupied, so the caller can advance its buffer.
    pub fn decode(&mut self, buf: &Vec<u8>) -> (r: DecodeResult)
        ensures
            decode_post(buf@, r),
    {
        request::decode(buf)
    }

    /// Encodes one response frame, appending to `buf` after whatever it
    /// already holds. Encoding never fails.
    pub fn encode(&mut self, msg: Response, buf: &mut Vec<u8>)
        ensures
            exists|date: Seq<char>|
                final(buf)@ == old(buf)@ + response_bytes(
                    msg.status_view(),
                    msg.headers_view(),
                    msg.body_view(),
                    date,
                ),
    {
        response::encode(msg, buf);
    }
}

} // verus!
