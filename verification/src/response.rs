//! HTTP/1.1 response values and their byte-exact encoding.
//!
//! A response carries a status (the default `200 OK` or a custom code and
//! message), a header container and an owned body. Encoding appends one
//! complete response frame to an output buffer:
//!
//! ```text
//! HTTP/1.1 <status>\r\n
//! Content-Length: <n>\r\n
//! Date: <date line>\r\n
//! <name>: <value>\r\n   (each header entry, in insertion order)
//! \r\n
//! <body bytes>
//! ```
//!
//! Encoding cannot fail: every well-formed response encodes.

use vstd::prelude::*;
use vstd::string::StrSliceExecFns;
use vstd::string::StringSliceAdditionalSpecFns;
use vstd::utf8::encode_utf8;

use crate::headers::Headers;

verus! {

/// A response under construction: status, headers and body.
pub struct Response {
    headers: Headers,
    response: Vec<u8>,
    status_message: StatusMessage,
}

enum StatusMessage {
    OkStatus,
    Custom(u32, String),
}

impl Response {
    /// The status: `None` for the default `200 OK`, otherwise the custom
    /// code and message.
    pub closed spec fn status_view(&self) -> Option<(u32, Seq<char>)> {
        match self.status_message {
            StatusMessage::OkStatus => None,
            StatusMessage::Custom(code, message) => Some((code, message@)),
        }
    }

    /// The header entries, in insertion order.
    pub closed spec fn headers_view(&self) -> Seq<(Seq<char>, Seq<char>)> {
        self.headers@
    }

    /// The body bytes.
    pub closed spec fn body_view(&self) -> Seq<u8> {
        self.response@
    }

    /// A response with the default `200 OK` status, no headers and an empty
    /// body.
    pub fn new() -> (r: Response)
        ensures
            r.status_view() is None,
            r.headers_view() == Seq::<(Seq<char>, Seq<char>)>::empty(),
            r.body_view() == Seq::<u8>::empty(),
    {
        Response {
            headers: Headers::new(),
            response: Vec::new(),
            status_message: StatusMessage::OkStatus,
        }
    }

    /// Replaces the status with a custom code and message; returns the
    /// response for chaining.
    pub fn status_code(&mut self, code: u32, message: &str) -> (r: &mut Response)
        ensures
            (*r).status_view() == Some((code, message@)),
            (*r).headers_view() == old(self).headers_view(),
            (*r).body_view() == old(self).body_view(),
            *final(self) == *final(r),
    {
        self.status_message = StatusMessage::Custom(code, message.to_owned());
        self
    }

    /// The header container, for in-place mutation.
    pub fn headers_mut(&mut self) -> (r: &mut Headers)
        ensures
            (*r)@ == old(self).headers_view(),
            final(self).headers_view() == final(r)@,
            final(self).status_view() == old(self).status_view(),
            final(self).body_view() == old(self).body_view(),
    {
        &mut self.headers
    }

    /// Adds one header entry (duplicates allowed); returns the response for
    /// chaining.
    pub fn header(&mut self, name: &str, val: &str) -> (r: &mut Response)
        ensures
            (*r).headers_view() == old(self).headers_view().push((name@, val@)),
            (*r).status_view() == old(self).status_view(),
            (*r).body_view() == old(self).body_view(),
            *final(self) == *final(r),
    {
        self.headers.add(name, val);
        self
    }

    /// Replaces the body with the bytes of `s`; returns the response for
    /// chaining.
    pub fn body(&mut self, s: &str) -> (r: &mut Response)
        ensures
            (*r).body_view() == encode_utf8(s@),
            (*r).headers_view() == old(self).headers_view(),
            (*r).status_view() == old(self).status_view(),
            *final(self) == *final(r),
    {
        self.response = s.as_bytes_vec();
        self
    }

    /// A plain-text response: status `200 OK`, a `Content-Type` entry for
    /// UTF-8 text, and the text as body.
    pub fn from_text(text: &str) -> (r: Response)
        ensures
            r.status_view() is None,
            r.headers_view() == Seq::<(Seq<char>, Seq<char>)>::empty().push(
                ("Content-Type"@, "text/plain; charset=utf-8"@),
            ),
            r.body_view() == encode_utf8(text@),
    {
        let mut headers = Headers::new();
        headers.add("Content-Type", "text/plain; charset=utf-8");
        Response {
            headers,
            response: text.as_bytes_vec(),
            status_message: StatusMessage::OkStatus,
        }
    }
}

/// ASCII decimal digits of `n`, most significant first.
pub open spec fn dec_digits(n: nat) -> Seq<u8>
    decreases n,
{
    if n < 10 {
        seq![(48 + n) as u8]
    } else {
        dec_digits(n / 10).push((48 + n % 10) as u8)
    }
}

/// The status-line fragment after `HTTP/1.1 `: the default `200 OK`, or a
/// custom `<code> <message>`.
pub open spec fn status_bytes(status: Option<(u32, Seq<char>)>) -> Seq<u8> {
    match status {
        None => encode_utf8("200 OK"@),
        Some((code, message)) => dec_digits(code as nat) + encode_utf8(" "@) + encode_utf8(
            message,
        ),
    }
}

/// One encoded header line: `<name>: <value>\r\n`.
pub open spec fn header_line_bytes(e: (Seq<char>, Seq<char>)) -> Seq<u8> {
    encode_utf8(e.0) + encode_utf8(": "@) + encode_utf8(e.1) + encode_utf8("\r\n"@)
}

/// The encoded header block: one line per entry, in insertion order.
pub open spec fn header_block_bytes(hs: Seq<(Seq<char>, Seq<char>)>) -> Seq<u8>
    decreases hs.len(),
{
    if hs.len() == 0 {
        Seq::empty()
    } else {
        header_line_bytes(hs[0]) + header_block_bytes(hs.drop_first())
    }
}

/// The complete encoded response frame for the given status, header entries,
/// body and date line.
pub open spec fn response_bytes(
    status: Option<(u32, Seq<char>)>,
    headers: Seq<(Seq<char>, Seq<char>)>,
    body: Seq<u8>,
    date: Seq<char>,
) -> Seq<u8> {
    encode_utf8("HTTP/1.1 "@) + status_bytes(status) + encode_utf8("\r\nContent-Length: "@)
        + dec_digits(body.len()) + encode_utf8("\r\nDate: "@) + encode_utf8(date) + encode_utf8(
        "\r\n"@,
    ) + header_block_bytes(headers) + encode_utf8("\r\n"@) + body
}

/// Appends the bytes of `s` to `buf`.
fn push_str_bytes(buf: &mut Vec<u8>, s: &str)
    ensures
        final(buf)@ == old(buf)@ + encode_utf8(s@),
{
    let bytes: Vec<u8> = s.as_bytes_vec();
    assert(bytes@ == encode_utf8(s@));
    let mut j: usize = 0;
    while j < bytes.len()
        invariant
            j <= bytes@.len(),
            buf@ == old(buf)@ + bytes@.take(j as int),
        decreases bytes@.len() - j,
    {
        buf.push(bytes[j]);
        proof {
            assert(old(buf)@ + bytes@.take(j + 1) =~= (old(buf)@ + bytes@.take(j as int)).push(
                bytes@[j as int],
            ));
        }
        j = j + 1;
    }
    proof {
        assert(bytes@.take(bytes@.len() as int) =~= bytes@);
    }
}

/// Appends all of `src` to `buf`.
fn push_byte_vec(buf: &mut Vec<u8>, src: &Vec<u8>)
    ensures
        final(buf)@ == old(buf)@ + src@,
{
    let mut j: usize = 0;
    while j < src.len()
        invariant
            j <= src@.len(),
            buf@ == old(buf)@ + src@.take(j as int),
        decreases src@.len() - j,
    {
        buf.push(src[j]);
        proof {
            assert(old(buf)@ + src@.take(j + 1) =~= (old(buf)@ + src@.take(j as int)).push(
                src@[j as int],
            ));
        }
        j = j + 1;
    }
    proof {
        assert(src@.take(src@.len() as int) =~= src@);
    }
}

/// Appends the decimal digits of `n` to `buf`.
fn push_u64_decimal(buf: &mut Vec<u8>, n: u64)
    ensures
        final(buf)@ == old(buf)@ + dec_digits(n as nat),
    decreases n,
{
    if n >= 10 {
        push_u64_decimal(buf, n / 10);
    }
    buf.push(48 + (n % 10) as u8);
    proof {
        if n < 10 {
            assert(old(buf)@ + dec_digits(n as nat) =~= old(buf)@.push((48 + n as nat) as u8));
        } else {
            assert(old(buf)@ + dec_digits(n as nat) =~= (old(buf)@ + dec_digits(
                (n as nat) / 10,
            )).push((48 + (n as nat) % 10) as u8));
        }
    }
}

/// Appending an entry to the block appends exactly its line.
proof fn lemma_header_block_push(hs: Seq<(Seq<char>, Seq<char>)>, e: (Seq<char>, Seq<char>))
    ensures
        header_block_bytes(hs.push(e)) == header_block_bytes(hs) + header_line_bytes(e),
    decreases hs.len(),
{
    reveal_with_fuel(header_block_bytes, 2);
    if hs.len() == 0 {
        assert(hs.push(e)[0] == e);
        assert(hs.push(e).drop_first() =~= Seq::<(Seq<char>, Seq<char>)>::empty());
        assert(header_block_bytes(hs.push(e).drop_first()) == Seq::<u8>::empty());
        assert(header_block_bytes(hs) == Seq::<u8>::empty());
        assert(header_line_bytes(e) + Seq::<u8>::empty() =~= Seq::<u8>::empty()
            + header_line_bytes(e));
    } else {
        lemma_header_block_push(hs.drop_first(), e);
        assert(hs.push(e).drop_first() =~= hs.drop_first().push(e));
        assert(hs.push(e)[0] == hs[0]);
        assert(header_block_bytes(hs.push(e)) == header_line_bytes(hs[0]) + header_block_bytes(
            hs.drop_first().push(e),
        ));
        assert(header_block_bytes(hs) == header_line_bytes(hs[0]) + header_block_bytes(
            hs.drop_first(),
        ));
        assert(header_line_bytes(hs[0]) + (header_block_bytes(hs.drop_first())
            + header_line_bytes(e)) =~= (header_line_bytes(hs[0]) + header_block_bytes(
            hs.drop_first(),
        )) + header_line_bytes(e));
    }
}

/// Appends each header entry of `headers` as one line.
fn push_header_block(buf: &mut Vec<u8>, headers: &Headers)
    ensures
        final(buf)@ == old(buf)@ + header_block_bytes(headers@),
{
    let n: usize = headers.len();
    let mut i: usize = 0;
    while i < n
        invariant
            n == headers@.len(),
            i <= n,
            buf@ == old(buf)@ + header_block_bytes(headers@.take(i as int)),
        decreases n - i,
    {
        let e = headers.get(i);
        push_str_bytes(buf, e.0.as_str());
        push_str_bytes(buf, ": ");
        push_str_bytes(buf, e.1.as_str());
        push_str_bytes(buf, "\r\n");
        proof {
            lemma_header_block_push(headers@.take(i as int), headers@[i as int]);
            assert(headers@.take(i + 1) =~= headers@.take(i as int).push(headers@[i as int]));
            assert(buf@ =~= old(buf)@ + header_block_bytes(headers@.take(i + 1)));
        }
        i = i + 1;
    }
    proof {
        assert(headers@.take(headers@.len() as int) =~= headers@);
    }
}

/// Serializes `msg` with the given `Date` header line, appending one complete
/// response frame to `buf`. Encoding never fails.
/// Sequence concatenation is associative.
proof fn lemma_concat_assoc(a: Seq<u8>, b: Seq<u8>, c: Seq<u8>)
    ensures
        a + (b + c) == (a + b) + c,
{
    assert(a + (b + c) =~= (a + b) + c);
}

pub fn encode_with_date(msg: Response, date: &str, buf: &mut Vec<u8>)
    ensures
        final(buf)@ == old(buf)@ + response_bytes(
            msg.status_view(),
            msg.headers_view(),
            msg.body_view(),
            date@,
        ),
{
    let ghost pre: Seq<u8> = buf@;
    let ghost x1: Seq<u8> = encode_utf8("HTTP/1.1 "@);
    let ghost x2: Seq<u8> = status_bytes(msg.status_view());
    let ghost x3: Seq<u8> = encode_utf8("\r\nContent-Length: "@);
    let ghost x4: Seq<u8> = dec_digits(msg.body_view().len());
    let ghost x5: Seq<u8> = encode_utf8("\r\nDate: "@);
    let ghost x6: Seq<u8> = encode_utf8(date@);
    let ghost x7: Seq<u8> = encode_utf8("\r\n"@);
    let ghost x8: Seq<u8> = header_block_bytes(msg.headers_view());
    let ghost x9: Seq<u8> = encode_utf8("\r\n"@);
    let ghost x10: Seq<u8> = msg.body_view();

    push_str_bytes(buf, "HTTP/1.1 ");
    assert(buf@ == pre + x1);
    match &msg.status_message {
        StatusMessage::OkStatus => {
            push_str_bytes(buf, "200 OK");
        },
        StatusMessage::Custom(code, message) => {
            push_u64_decimal(buf, *code as u64);
            push_str_bytes(buf, " ");
            push_str_bytes(buf, message.as_str());
            proof {
                let d = dec_digits(*code as nat);
                let sp = encode_utf8(" "@);
                let m = encode_utf8(message@);
                lemma_concat_assoc(pre + x1, d, sp);
                lemma_concat_assoc(pre + x1, d + sp, m);
                assert(x2 == (d + sp) + m);
            }
        },
    }
    assert(buf@ == pre + x1 + x2);
    push_str_bytes(buf, "\r\nContent-Length: ");
    assert(buf@ == pre + x1 + x2 + x3);
    push_u64_decimal(buf, msg.response.len() as u64);
    assert(buf@ == pre + x1 + x2 + x3 + x4);
    push_str_bytes(buf, "\r\nDate: ");
    push_str_bytes(buf, date);
    push_str_bytes(buf, "\r\n");
    push_header_block(buf, &msg.headers);
    push_str_bytes(buf, "\r\n");
    push_byte_vec(buf, &msg.response);
    assert(buf@ == pre + x1 + x2 + x3 + x4 + x5 + x6 + x7 + x8 + x9 + x10);
    proof {
        lemma_concat_assoc(pre, x1, x2);
        lemma_concat_assoc(pre, x1 + x2, x3);
        lemma_concat_assoc(pre, x1 + x2 + x3, x4);
        lemma_concat_assoc(pre, x1 + x2 + x3 + x4, x5);
        lemma_concat_assoc(pre, x1 + x2 + x3 + x4 + x5, x6);
        lemma_concat_assoc(pre, x1 + x2 + x3 + x4 + x5 + x6, x7);
        lemma_concat_assoc(pre, x1 + x2 + x3 + x4 + x5 + x6 + x7, x8);
        lemma_concat_assoc(pre, x1 + x2 + x3 + x4 + x5 + x6 + x7 + x8, x9);
        lemma_concat_assoc(pre, x1 + x2 + x3 + x4 + x5 + x6 + x7 + x8 + x9, x10);
        assert(response_bytes(msg.status_view(), msg.headers_view(), msg.body_view(), date@)
            == x1 + x2 + x3 + x4 + x5 + x6 + x7 + x8 + x9 + x10);
    }
}

/// Relies on time's `OffsetDateTime::now_utc` and its RFC 2822 formatter for
/// the `Date` header line. The result depends on the wall clock, so nothing
/// is stated of it.
#[verifier::external_body]
fn now_date_line() -> (r: String) {
    time::OffsetDateTime::now_utc().format(
        &time::format_description::well_known::Rfc2822,
    ).unwrap_or(String::new())
}

/// Serializes `msg` into `buf`, appending one complete response frame whose
/// `Date` line is the formatted current time. Encoding never fails.
pub fn encode(msg: Response, buf: &mut Vec<u8>)
    ensures
        exists|date: Seq<char>|
            final(buf)@ == old(buf)@ + response_bytes(
                msg.status_view(),
                msg.headers_view(),
                msg.body_view(),
                date,
            ),
{
    let date = now_date_line();
    let ghost d: Seq<char> = date@;
    encode_with_date(msg, date.as_str(), buf);
    proof {
        assert(buf@ == old(buf)@ + response_bytes(
            msg.status_view(),
            msg.headers_view(),
            msg.body_view(),
            d,
        ));
    }
}

/// Law: encoding is deterministic. Two encodings of the same response with
/// the same date line append byte-identical output, whatever the buffers
/// already held.
pub proof fn lemma_encode_deterministic(
    status: Option<(u32, Seq<char>)>,
    headers: Seq<(Seq<char>, Seq<char>)>,
    body: Seq<u8>,
    date: Seq<char>,
    pre1: Seq<u8>,
    pre2: Seq<u8>,
    out1: Seq<u8>,
    out2: Seq<u8>,
)
    requires
        out1 == pre1 + response_bytes(status, headers, body, date),
        out2 == pre2 + response_bytes(status, headers, body, date),
    ensures
        out1.skip(pre1.len() as int) == out2.skip(pre2.len() as int),
{
    assert(out1.skip(pre1.len() as int) =~= response_bytes(status, headers, body, date));
    assert(out2.skip(pre2.len() as int) =~= response_bytes(status, headers, body, date));
}

} // verus!
