//! Reading requests from a connection and writing responses to it.
//!
//! The functions here work on the bytes that a connection delivered and say
//! what to do next; the connection itself is the caller's. One request is
//! read at a time: bytes are gathered until the head of a request is
//! complete, then the body follows, as long as the head announces.

use vstd::prelude::*;
use vstd::string::*;
use vstd::utf8::encode_utf8;
use crate::buffer::{buffered, bytes_of};
use crate::http::{lowered_fields, plain_fields, Headers, Request, Response, StatusCode};
use crate::text::{decimal_digits, decimal_value, format_usize, is_usize_text, parse_usize, unsigned_digits};

verus! {

/// The most bytes to ask of the connection in one read while the head of a
/// request is gathered.
pub const READ_CHUNK: usize = 2048;

/// The most header fields that a request may have.
pub const MAX_HEADERS: usize = 100;

/// The head of a request as the parser hands it out.
pub struct Head {
    pub method: Option<String>,
    pub path: Option<String>,
    pub version: Option<u8>,
    /// The header fields in the order received: name, then value.
    pub fields: Vec<(Vec<u8>, Vec<u8>)>,
    /// The number of bytes that the head takes up; the body begins there.
    pub len: usize,
}

/// What the parser makes of the bytes gathered so far.
pub enum Parsed {
    /// The bytes may begin a request, but its head is not complete.
    Partial,
    /// The bytes are no request.
    Malformed,
    /// The bytes begin with a complete head.
    Complete(Head),
}

/// A head in mathematical terms.
pub struct HeadView {
    pub method: Option<Seq<char>>,
    pub path: Option<Seq<char>>,
    pub version: Option<u8>,
    pub fields: Seq<(Seq<u8>, Seq<u8>)>,
    pub len: nat,
}

/// A parse result in mathematical terms.
pub enum ParsedView {
    Partial,
    Malformed,
    Complete(HeadView),
}

/// The text held, if any.
pub open spec fn text_of(value: Option<String>) -> Option<Seq<char>> {
    match value {
        None => None,
        Some(text) => Some(text@),
    }
}

impl View for Head {
    type V = HeadView;

    open spec fn view(&self) -> HeadView {
        HeadView {
            method: text_of(self.method),
            path: text_of(self.path),
            version: self.version,
            fields: plain_fields(self.fields@),
            len: self.len as nat,
        }
    }
}

impl View for Parsed {
    type V = ParsedView;

    open spec fn view(&self) -> ParsedView {
        match self {
            Parsed::Partial => ParsedView::Partial,
            Parsed::Malformed => ParsedView::Malformed,
            Parsed::Complete(head) => ParsedView::Complete(head@),
        }
    }
}

/// What `httparse` makes of `bytes` as the beginning of a request, with room
/// for `max_headers` header fields.
pub uninterp spec fn parsed_head(bytes: Seq<u8>, max_headers: nat) -> ParsedView;

/// Parses the head of a request.
///
/// Calls `httparse::Request::parse` on a request with `max_headers` empty
/// header slots. An error of any kind is `Malformed`; a partial result is
/// `Partial`; a complete one hands out what the parser filled in, copied, and
/// the offset that it returned, where the body starts. That offset is the
/// number of bytes consumed, so it is not beyond the end of `bytes`.
#[verifier::external_body]
fn parse_head(bytes: &[u8], max_headers: usize) -> (parsed: Parsed)
    ensures
        parsed@ == parsed_head(bytes@, max_headers as nat),
        parsed matches Parsed::Complete(head) ==> head.len <= bytes@.len(),
{
    let mut slots = vec![httparse::EMPTY_HEADER; max_headers];
    let mut request = httparse::Request::new(&mut slots);
    match request.parse(bytes) {
        Err(_) => Parsed::Malformed,
        Ok(httparse::Status::Partial) => Parsed::Partial,
        Ok(httparse::Status::Complete(len)) => Parsed::Complete(Head {
            method: request.method.map(|method| method.to_string()),
            path: request.path.map(|path| path.to_string()),
            version: request.version,
            fields: request.headers.iter().map(|h| (h.name.as_bytes().to_vec(), h.value.to_vec())).collect(),
            len,
        }),
    }
}

/// Why reading a request ended the connection.
#[derive(Clone, Copy, Debug, PartialEq, Eq, Structural)]
pub enum ReadError {
    /// The peer closed the connection.
    Closed,
    /// The bytes received are no request.
    Malformed,
    /// More bytes arrived with the head than the body is long.
    Overrun,
}

impl ReadError {
    /// Whether the connection ended in the ordinary way, with nothing to
    /// report: the peer closed it.
    pub fn is_clean(&self) -> (clean: bool)
        ensures
            clean == (*self == ReadError::Closed),
    {
        match self {
            ReadError::Closed => true,
            _ => false,
        }
    }
}

/// Whether `request` is the request that the head `head` describes: the same
/// request line, and the same fields with their names in small letters.
pub open spec fn is_request_of(request: Request, head: HeadView) -> bool {
    &&& text_of(request.method) == head.method
    &&& text_of(request.path) == head.path
    &&& request.version == head.version
    &&& request.headers.fields() == lowered_fields(head.fields)
}

/// Makes the request that a parsed head describes.
pub fn request_of(head: Head) -> (request: Request)
    ensures
        is_request_of(request, head@),
{
    let headers = Headers::parse(head.fields.as_slice());
    Request { method: head.method, path: head.path, version: head.version, headers }
}

/// Acts on what the parser made of the bytes in `buf`.
///
/// A complete head is taken out of `buf` as a request, together with the
/// bytes that arrived after it; `buf` keeps the head. A partial head leaves
/// `buf` as it is, for more bytes to be added. Bytes that are no request end
/// the connection, and so does a head said to be longer than `buf`.
pub fn accept_head(buf: &mut bytes::BytesMut, parsed: Parsed) -> (r: Result<
    Option<(Request, bytes::BytesMut)>,
    ReadError,
>)
    ensures
        match parsed@ {
            ParsedView::Partial => r is Ok && r->Ok_0 is None && buffered(*final(buf)) == buffered(
                *old(buf),
            ),
            ParsedView::Malformed => r == Err::<Option<(Request, bytes::BytesMut)>, ReadError>(
                ReadError::Malformed,
            ) && buffered(*final(buf)) == buffered(*old(buf)),
            ParsedView::Complete(head) => if head.len <= buffered(*old(buf)).len() {
                &&& r matches Ok(Some(pair))
                &&& is_request_of(pair.0, head)
                &&& buffered(pair.1) == buffered(*old(buf)).skip(head.len as int)
                &&& buffered(*final(buf)) == buffered(*old(buf)).take(head.len as int)
            } else {
                r == Err::<Option<(Request, bytes::BytesMut)>, ReadError>(ReadError::Malformed)
                    && buffered(*final(buf)) == buffered(*old(buf))
            },
        },
{
    match parsed {
        Parsed::Partial => Ok(None),
        Parsed::Malformed => Err(ReadError::Malformed),
        Parsed::Complete(head) => {
            if head.len > buf.len() {
                return Err(ReadError::Malformed);
            }
            let rest = buf.split_off(head.len);
            Ok(Some((request_of(head), rest)))
        },
    }
}

/// Takes in the bytes of one read while the head of a request is gathered.
///
/// An empty read means that the peer closed the connection. Otherwise the
/// bytes are added to `buf` and the whole of it is parsed anew: the result is
/// the request and the bytes that arrived after its head, or `None` when more
/// bytes are needed.
pub fn read_request(buf: &mut bytes::BytesMut, chunk: &[u8]) -> (r: Result<
    Option<(Request, bytes::BytesMut)>,
    ReadError,
>)
    ensures
        chunk@.len() == 0 ==> r == Err::<Option<(Request, bytes::BytesMut)>, ReadError>(
            ReadError::Closed,
        ) && buffered(*final(buf)) == buffered(*old(buf)),
        chunk@.len() > 0 ==> match parsed_head(
            buffered(*old(buf)) + chunk@,
            MAX_HEADERS as nat,
        ) {
            ParsedView::Partial => r is Ok && r->Ok_0 is None && buffered(*final(buf)) == buffered(
                *old(buf),
            ) + chunk@,
            ParsedView::Malformed => r == Err::<Option<(Request, bytes::BytesMut)>, ReadError>(
                ReadError::Malformed,
            ) && buffered(*final(buf)) == buffered(*old(buf)) + chunk@,
            ParsedView::Complete(head) => {
                &&& r matches Ok(Some(pair))
                &&& is_request_of(pair.0, head)
                &&& head.len <= (buffered(*old(buf)) + chunk@).len()
                &&& buffered(pair.1) == (buffered(*old(buf)) + chunk@).skip(head.len as int)
                &&& buffered(*final(buf)) == (buffered(*old(buf)) + chunk@).take(head.len as int)
            },
        },
{
    if chunk.len() == 0 {
        return Err(ReadError::Closed);
    }
    buf.extend_from_slice(chunk);
    let gathered: &bytes::BytesMut = &*buf;
    let parsed = parse_head(gathered.as_ref(), MAX_HEADERS);
    accept_head(buf, parsed)
}

/// The length that the header fields announce for the body: the value of
/// the content length field, where there is one that spells a number.
pub open spec fn announced_length(headers: Headers) -> Option<nat> {
    match headers.value_of("content-length".spec_bytes()) {
        None => None,
        Some(value) => if is_usize_text(value) {
            Some(decimal_value(unsigned_digits(value)))
        } else {
            None
        },
    }
}

/// The length that `request` announces for its body, if it announces one.
pub fn content_length(request: &Request) -> (length: Option<usize>)
    ensures
        match length {
            Some(n) => announced_length(request.headers) == Some(n as nat),
            None => announced_length(request.headers) is None,
        },
{
    match request.headers.get("content-length") {
        None => None,
        Some(value) => parse_usize(value.as_slice()),
    }
}

/// Decides how the body of `request` is read, given the bytes `rest` that
/// arrived after its head.
///
/// Hands back the bytes that the body begins with and the number of bytes
/// still to read. A request that announces no length has an empty body.
/// Bytes that arrived with the head count towards the announced length; more
/// of them than that end the connection.
pub fn begin_body(request: &Request, rest: bytes::BytesMut) -> (r: Result<
    (bytes::BytesMut, usize),
    ReadError,
>)
    ensures
        match announced_length(request.headers) {
            None => r matches Ok(plan) && buffered(plan.0) == Seq::<u8>::empty() && plan.1 == 0,
            Some(length) => if buffered(rest).len() <= length {
                r matches Ok(plan) && buffered(plan.0) == buffered(rest) && plan.1 == length
                    - buffered(rest).len()
            } else {
                r == Err::<(bytes::BytesMut, usize), ReadError>(ReadError::Overrun)
            },
        },
{
    match content_length(request) {
        None => Ok((bytes::BytesMut::new(), 0)),
        Some(length) => {
            let mut rest = rest;
            let have = rest.split();
            if have.len() > length {
                Err(ReadError::Overrun)
            } else {
                let missing: usize = length - have.len();
                Ok((have, missing))
            }
        },
    }
}

/// Puts the body together from the bytes that arrived with the head and
/// those read after it.
pub fn finish_body(have: bytes::BytesMut, remaining: bytes::BytesMut) -> (body: bytes::Bytes)
    ensures
        bytes_of(body) == buffered(have) + buffered(remaining),
{
    let mut have = have;
    have.unsplit(remaining);
    have.freeze()
}

/// The first line of a response: the protocol version, the number of the
/// status, its reason phrase, and the end of the line.
pub open spec fn status_line(status: StatusCode) -> Seq<u8> {
    "HTTP/1.1 ".spec_bytes() + decimal_digits(status.number() as nat) + " ".spec_bytes()
        + encode_utf8(status.reason()) + "\r\n".spec_bytes()
}

/// One line for each header field, in order: the name, a colon and a space,
/// the value, and the end of the line.
pub open spec fn header_lines(fields: Seq<(Seq<u8>, Seq<u8>)>) -> Seq<u8>
    decreases fields.len(),
{
    if fields.len() == 0 {
        Seq::<u8>::empty()
    } else {
        header_lines(fields.drop_last()) + fields.last().0 + ": ".spec_bytes() + fields.last().1
            + "\r\n".spec_bytes()
    }
}

/// A response as it goes over the connection: the status line, the header
/// fields, the length of the body, an empty line, and the body.
pub open spec fn response_bytes(
    status: StatusCode,
    fields: Seq<(Seq<u8>, Seq<u8>)>,
    body: Seq<u8>,
) -> Seq<u8> {
    status_line(status) + header_lines(fields) + "Content-Length: ".spec_bytes() + decimal_digits(
        body.len(),
    ) + "\r\n".spec_bytes() + "\r\n".spec_bytes() + body
}

/// Writes a response out as the bytes to send.
pub fn write_response(response: &Response) -> (out: Vec<u8>)
    ensures
        out@ == response_bytes(
            response.status,
            response.headers.fields(),
            bytes_of(response.body),
        ),
{
    let mut out: Vec<u8> = Vec::new();
    out.extend_from_slice("HTTP/1.1 ".as_bytes());
    let number = format_usize(response.status.as_u16() as usize);
    out.extend_from_slice(number.as_slice());
    out.extend_from_slice(" ".as_bytes());
    out.extend_from_slice(response.status.canonical_reason().as_bytes());
    out.extend_from_slice("\r\n".as_bytes());
    assert(out@ =~= status_line(response.status));
    let count: usize = response.headers.len();
    let mut i: usize = 0;
    assert(response.headers.fields().take(0) =~= Seq::<(Seq<u8>, Seq<u8>)>::empty());
    while i < count
        invariant
            count == response.headers.fields().len(),
            i <= count,
            out@ == status_line(response.status) + header_lines(
                response.headers.fields().take(i as int),
            ),
        decreases count - i,
    {
        let field = response.headers.field(i);
        proof {
            let shown = response.headers.fields().take(i + 1);
            assert(shown.drop_last() =~= response.headers.fields().take(i as int));
            assert(shown.last() == response.headers.fields()[i as int]);
        }
        out.extend_from_slice(field.0);
        out.extend_from_slice(": ".as_bytes());
        out.extend_from_slice(field.1);
        out.extend_from_slice("\r\n".as_bytes());
        assert(out@ =~= status_line(response.status) + header_lines(
            response.headers.fields().take(i + 1),
        ));
        i = i + 1;
    }
    assert(response.headers.fields().take(count as int) =~= response.headers.fields());
    let body = response.body.as_ref();
    let length = format_usize(body.len());
    out.extend_from_slice("Content-Length: ".as_bytes());
    out.extend_from_slice(length.as_slice());
    out.extend_from_slice("\r\n".as_bytes());
    out.extend_from_slice("\r\n".as_bytes());
    out.extend_from_slice(body);
    assert(out@ =~= response_bytes(
        response.status,
        response.headers.fields(),
        bytes_of(response.body),
    ));
    out
}

} // verus!
