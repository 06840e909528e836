//! The response a handler produces, and its encoding into HTTP/1.1 wire bytes.

use vstd::prelude::*;
use vstd::string::StringSliceAdditionalSpecFns;
use vstd::utf8::encode_utf8;
use bytes::BytesMut;
use crate::buffer::{buf_bytes, buf_as_slice};

verus! {

/// The number of header lines a response can carry.
pub const MAX_HEADERS: usize = 16;

/// Where the body of a response lives.
pub enum Body {
    /// The body is whatever the response's own scratch buffer holds.
    Dummy,
    /// An owned byte sequence.
    Vec(Vec<u8>),
    /// A static string.
    Str(&'static str),
}

struct StatusMessage {
    code: usize,
    msg: &'static str,
}

/// A response as handlers build it: status, reason phrase, header lines and
/// a body.
pub struct Response {
    headers: Vec<String>,
    status_message: StatusMessage,
    body: Body,
    rsp_buf: BytesMut,
}

/// What a response means: the parts that reach the wire.
pub struct ResponseView {
    pub status: usize,
    pub reason: Seq<char>,
    pub headers: Seq<Seq<char>>,
    pub body: Seq<u8>,
}

/// The contents of a `Vec<String>` as character sequences.
pub open spec fn lines_view(v: Seq<String>) -> Seq<Seq<char>> {
    v.map_values(|h: String| h@)
}

impl Response {
    /// The bytes of the body, wherever it lives.
    pub closed spec fn body_bytes(&self) -> Seq<u8> {
        match self.body {
            Body::Dummy => buf_bytes(self.rsp_buf),
            Body::Vec(v) => v@,
            Body::Str(s) => s.spec_bytes(),
        }
    }
}

impl View for Response {
    type V = ResponseView;

    closed spec fn view(&self) -> ResponseView {
        ResponseView {
            status: self.status_message.code,
            reason: self.status_message.msg@,
            headers: lines_view(self.headers@),
            body: self.body_bytes(),
        }
    }
}

/// The decimal digits of `n`, in ASCII, without sign or leading zeros.
pub open spec fn decimal(n: nat) -> Seq<u8>
    decreases n,
{
    if n < 10 {
        seq![(48 + n) as u8]
    } else {
        decimal(n / 10) + seq![(48 + n % 10) as u8]
    }
}

/// Each header line, preceded by CRLF, in order.
pub open spec fn header_block(hs: Seq<Seq<char>>) -> Seq<u8>
    decreases hs.len(),
{
    if hs.len() == 0 {
        Seq::empty()
    } else {
        header_block(hs.drop_last()) + "\r\n".spec_bytes() + encode_utf8(hs.last())
    }
}

/// Everything the encoder writes before the date.
pub open spec fn wire_head(r: ResponseView) -> Seq<u8> {
    "HTTP/1.1 ".spec_bytes() + decimal(r.status as nat) + " ".spec_bytes() + encode_utf8(r.reason)
        + "\r\nServer: M\r\nDate: ".spec_bytes()
}

/// Everything the encoder writes after the date.
pub open spec fn wire_tail(r: ResponseView) -> Seq<u8> {
    "\r\nContent-Length: ".spec_bytes() + decimal(r.body.len()) + header_block(r.headers)
        + "\r\n\r\n".spec_bytes() + r.body
}

/// The full wire form of a response stamped with `date`.
pub open spec fn wire(r: ResponseView, date: Seq<u8>) -> Seq<u8> {
    wire_head(r) + date + wire_tail(r)
}

/// The standard reason phrase of a status code.
pub open spec fn reason_phrase(code: usize) -> Seq<char> {
    match code {
        100 => "Continue"@,
        101 => "Switching Protocols"@,
        102 => "Processing"@,
        103 => "Early Hints"@,
        200 => "OK"@,
        201 => "Created"@,
        202 => "Accepted"@,
        203 => "Non-Authoritative Information"@,
        204 => "No Content"@,
        205 => "Reset Content"@,
        206 => "Partial Content"@,
        207 => "Multi-Status"@,
        208 => "Already Reported"@,
        226 => "IM Used"@,
        300 => "Multiple Choices"@,
        301 => "Moved Permanently"@,
        302 => "Found"@,
        303 => "See Other"@,
        304 => "Not Modified"@,
        305 => "Use Proxy"@,
        307 => "Temporary Redirect"@,
        308 => "Permanent Redirect"@,
        400 => "Bad Request"@,
        401 => "Unauthorized"@,
        402 => "Payment Required"@,
        403 => "Forbidden"@,
        404 => "Not Found"@,
        405 => "Method Not Allowed"@,
        406 => "Not Acceptable"@,
        407 => "Proxy Authentication Required"@,
        408 => "Request Timeout"@,
        409 => "Conflict"@,
        410 => "Gone"@,
        411 => "Length Required"@,
        412 => "Precondition Failed"@,
        413 => "Payload Too Large"@,
        414 => "URI Too Long"@,
        415 => "Unsupported Media Type"@,
        416 => "Range Not Satisfiable"@,
        417 => "Expectation Failed"@,
        418 => "I'm a teapot"@,
        421 => "Misdirected Request"@,
        422 => "Unprocessable Content"@,
        423 => "Locked"@,
        424 => "Failed Dependency"@,
        425 => "Too Early"@,
        426 => "Upgrade Required"@,
        428 => "Precondition Required"@,
        429 => "Too Many Requests"@,
        431 => "Request Header Fields Too Large"@,
        451 => "Unavailable For Legal Reasons"@,
        500 => "Internal Server Error"@,
        501 => "Not Implemented"@,
        502 => "Bad Gateway"@,
        503 => "Service Unavailable"@,
        504 => "Gateway Timeout"@,
        505 => "HTTP Version Not Supported"@,
        506 => "Variant Also Negotiates"@,
        507 => "Insufficient Storage"@,
        508 => "Loop Detected"@,
        510 => "Not Extended"@,
        511 => "Network Authentication Required"@,
        _ => "Unknown Status Code"@,
    }
}

/// Looks up the standard reason phrase of a status code; codes outside the
/// registry give "Unknown Status Code".
pub fn status_code_to_message(code: usize) -> (r: &'static str)
    ensures
        r@ == reason_phrase(code),
{
    match code {
        100 => "Continue",
        101 => "Switching Protocols",
        102 => "Processing",
        103 => "Early Hints",
        200 => "OK",
        201 => "Created",
        202 => "Accepted",
        203 => "Non-Authoritative Information",
        204 => "No Content",
        205 => "Reset Content",
        206 => "Partial Content",
        207 => "Multi-Status",
        208 => "Already Reported",
        226 => "IM Used",
        300 => "Multiple Choices",
        301 => "Moved Permanently",
        302 => "Found",
        303 => "See Other",
        304 => "Not Modified",
        305 => "Use Proxy",
        307 => "Temporary Redirect",
        308 => "Permanent Redirect",
        400 => "Bad Request",
        401 => "Unauthorized",
        402 => "Payment Required",
        403 => "Forbidden",
        404 => "Not Found",
        405 => "Method Not Allowed",
        406 => "Not Acceptable",
        407 => "Proxy Authentication Required",
        408 => "Request Timeout",
        409 => "Conflict",
        410 => "Gone",
        411 => "Length Required",
        412 => "Precondition Failed",
        413 => "Payload Too Large",
        414 => "URI Too Long",
        415 => "Unsupported Media Type",
        416 => "Range Not Satisfiable",
        417 => "Expectation Failed",
        418 => "I'm a teapot",
        421 => "Misdirected Request",
        422 => "Unprocessable Content",
        423 => "Locked",
        424 => "Failed Dependency",
        425 => "Too Early",
        426 => "Upgrade Required",
        428 => "Precondition Required",
        429 => "Too Many Requests",
        431 => "Request Header Fields Too Large",
        451 => "Unavailable For Legal Reasons",
        500 => "Internal Server Error",
        501 => "Not Implemented",
        502 => "Bad Gateway",
        503 => "Service Unavailable",
        504 => "Gateway Timeout",
        505 => "HTTP Version Not Supported",
        506 => "Variant Also Negotiates",
        507 => "Insufficient Storage",
        508 => "Loop Detected",
        510 => "Not Extended",
        511 => "Network Authentication Required",
        _ => "Unknown Status Code",
    }
}

/// Relies on `itoa::Buffer::format`: the decimal form of an unsigned integer.
#[verifier::external_body]
fn decimal_bytes(n: usize) -> (r: Vec<u8>)
    ensures
        r@ == decimal(n as nat),
{
    itoa::Buffer::new().format(n).as_bytes().to_vec()
}


proof fn lemma_header_block_step(hs: Seq<Seq<char>>, i: int)
    requires
        0 <= i < hs.len(),
    ensures
        header_block(hs.subrange(0, i + 1)) == header_block(hs.subrange(0, i)) + "\r\n".spec_bytes()
            + encode_utf8(hs[i]),
{
    assert(hs.subrange(0, i + 1).drop_last() =~= hs.subrange(0, i));
}

proof fn lemma_header_block_prefix_len(hs: Seq<Seq<char>>, i: int)
    requires
        0 <= i <= hs.len(),
    ensures
        header_block(hs.subrange(0, i)).len() <= header_block(hs).len(),
    decreases hs.len(),
{
    if i == hs.len() {
        assert(hs.subrange(0, i) =~= hs);
    } else {
        assert(hs.drop_last().subrange(0, i) =~= hs.subrange(0, i));
        lemma_header_block_prefix_len(hs.drop_last(), i);
    }
}

/// The response that the fallback path writes: a 500 whose body is `msg`.
pub open spec fn error_view(msg: Seq<u8>) -> ResponseView {
    ResponseView {
        status: 500,
        reason: "Internal Server Error"@,
        headers: Seq::empty(),
        body: msg,
    }
}

/// Appends the wire form of the response made of these parts.
fn encode_parts(
    code: usize,
    reason: &str,
    headers: &Vec<String>,
    body: &[u8],
    date: &[u8],
    buf: &mut BytesMut,
)
    requires
        buf_bytes(*old(buf)).len() + wire(
            ResponseView {
                status: code,
                reason: reason@,
                headers: lines_view(headers@),
                body: body@,
            },
            date@,
        ).len() <= isize::MAX,
    ensures
        buf_bytes(*final(buf)) == buf_bytes(*old(buf)) + wire(
            ResponseView {
                status: code,
                reason: reason@,
                headers: lines_view(headers@),
                body: body@,
            },
            date@,
        ),
{
    let ghost v = ResponseView {
        status: code,
        reason: reason@,
        headers: lines_view(headers@),
        body: body@,
    };
    let ghost start = buf_bytes(*buf);
    buf.extend_from_slice("HTTP/1.1 ".as_bytes());
    let digits = decimal_bytes(code);
    buf.extend_from_slice(digits.as_slice());
    buf.extend_from_slice(" ".as_bytes());
    buf.extend_from_slice(reason.as_bytes());
    buf.extend_from_slice("\r\nServer: M\r\nDate: ".as_bytes());
    assert(buf_bytes(*buf) =~= start + wire_head(v));
    buf.extend_from_slice(date);
    buf.extend_from_slice("\r\nContent-Length: ".as_bytes());
    let length = decimal_bytes(body.len());
    buf.extend_from_slice(length.as_slice());
    let ghost mid = start + wire_head(v) + date@ + "\r\nContent-Length: ".spec_bytes() + decimal(
        body@.len(),
    );
    assert(buf_bytes(*buf) =~= mid);
    assert(v.headers.subrange(0, 0) =~= Seq::<Seq<char>>::empty());
    assert(mid.len() + header_block(v.headers).len() <= start.len() + wire(v, date@).len());
    let mut i: usize = 0;
    while i < headers.len()
        invariant
            0 <= i <= headers@.len(),
            v.headers == lines_view(headers@),
            buf_bytes(*buf) == mid + header_block(v.headers.subrange(0, i as int)),
            mid.len() + header_block(v.headers).len() <= isize::MAX,
        decreases headers@.len() - i,
    {
        proof {
            lemma_header_block_step(v.headers, i as int);
            lemma_header_block_prefix_len(v.headers, i as int + 1);
        }
        buf.extend_from_slice("\r\n".as_bytes());
        buf.extend_from_slice(headers[i].as_str().as_bytes());
        i = i + 1;
        assert(buf_bytes(*buf) =~= mid + header_block(v.headers.subrange(0, i as int)));
    }
    assert(v.headers.subrange(0, i as int) =~= v.headers);
    buf.extend_from_slice("\r\n\r\n".as_bytes());
    buf.extend_from_slice(body);
    assert(buf_bytes(*buf) =~= start + wire(v, date@));
}

/// Appends to `buf` the wire form of `rsp` stamped with `date`: status line,
/// `Server`, `Date`, an exact `Content-Length`, the header lines verbatim, a
/// blank line and the body.
pub fn encode(rsp: &Response, date: &[u8], buf: &mut BytesMut)
    requires
        buf_bytes(*old(buf)).len() + wire(rsp@, date@).len() <= isize::MAX,
    ensures
        buf_bytes(*final(buf)) == buf_bytes(*old(buf)) + wire(rsp@, date@),
{
    let body = rsp.get_body();
    encode_parts(rsp.status_message.code, rsp.status_message.msg, &rsp.headers, body, date, buf);
}

/// The fallback when handling failed before any response existed: appends a
/// 500 response whose body is the error's message.
pub fn encode_error(msg: &str, date: &[u8], buf: &mut BytesMut)
    requires
        buf_bytes(*old(buf)).len() + wire(error_view(msg.spec_bytes()), date@).len() <= isize::MAX,
    ensures
        buf_bytes(*final(buf)) == buf_bytes(*old(buf)) + wire(error_view(msg.spec_bytes()), date@),
{
    let headers: Vec<String> = Vec::new();
    proof {
        assert(lines_view(headers@) =~= Seq::<Seq<char>>::empty());
    }
    encode_parts(500, "Internal Server Error", &headers, msg.as_bytes(), date, buf);
}


/// `a + b`, when `a` is there and the sum is at most `isize::MAX`.
fn add_within(a: Option<usize>, b: usize) -> (r: Option<usize>)
    requires
        a matches Some(x) ==> x <= isize::MAX,
    ensures
        a is None ==> r is None,
        a matches Some(x) ==> (r matches Some(n) ==> n == x + b && n <= isize::MAX),
        a matches Some(x) ==> (r is None ==> x + b > isize::MAX),
{
    match a {
        Some(x) => if b <= (isize::MAX as usize) - x {
            Some(x + b)
        } else {
            None
        },
        None => None,
    }
}

/// The length of the wire form of the response made of these parts, when it
/// is at most `isize::MAX`.
fn parts_len(code: usize, reason: &str, headers: &Vec<String>, body: &[u8], date: &[u8]) -> (r:
    Option<usize>)
    ensures
        r matches Some(n) ==> n == wire(
            ResponseView { status: code, reason: reason@, headers: lines_view(headers@), body: body@ },
            date@,
        ).len(),
        r is None ==> wire(
            ResponseView { status: code, reason: reason@, headers: lines_view(headers@), body: body@ },
            date@,
        ).len() > isize::MAX,
{
    let ghost v = ResponseView {
        status: code,
        reason: reason@,
        headers: lines_view(headers@),
        body: body@,
    };
    let digits = decimal_bytes(code);
    let length = decimal_bytes(body.len());
    let t1 = add_within(Some(0), "HTTP/1.1 ".as_bytes().len());
    let t2 = add_within(t1, digits.len());
    let t3 = add_within(t2, " ".as_bytes().len());
    let t4 = add_within(t3, reason.as_bytes().len());
    let t5 = add_within(t4, "\r\nServer: M\r\nDate: ".as_bytes().len());
    let t6 = add_within(t5, date.len());
    let t7 = add_within(t6, "\r\nContent-Length: ".as_bytes().len());
    let lead = add_within(t7, length.len());
    let ghost lead_len = (wire_head(v) + date@ + "\r\nContent-Length: ".spec_bytes() + decimal(
        body@.len(),
    )).len();
    assert(lead is None ==> lead_len > isize::MAX);
    assert(lead matches Some(n) ==> n == lead_len);
    let mut total = lead;
    let mut i: usize = 0;
    assert(v.headers.subrange(0, 0) =~= Seq::<Seq<char>>::empty());
    while i < headers.len()
        invariant
            0 <= i <= headers@.len(),
            v.headers == lines_view(headers@),
            total matches Some(n) ==> n == lead_len + header_block(v.headers.subrange(0, i as int)).len(),
            total matches Some(n) ==> n <= isize::MAX,
            total is None ==> lead_len + header_block(v.headers.subrange(0, i as int)).len() > isize::MAX,
        decreases headers@.len() - i,
    {
        proof {
            lemma_header_block_step(v.headers, i as int);
        }
        let with_crlf = add_within(total, "\r\n".as_bytes().len());
        total = add_within(with_crlf, headers[i].as_str().as_bytes().len());
        i = i + 1;
    }
    assert(v.headers.subrange(0, i as int) =~= v.headers);
    let with_blank = add_within(total, "\r\n\r\n".as_bytes().len());
    add_within(with_blank, body.len())
}

/// The length of the wire form of `rsp` stamped with `date`, when it is at
/// most `isize::MAX`.
pub fn encoded_len(rsp: &Response, date: &[u8]) -> (r: Option<usize>)
    ensures
        r matches Some(n) ==> n == wire(rsp@, date@).len(),
        r is None ==> wire(rsp@, date@).len() > isize::MAX,
{
    parts_len(rsp.status_message.code, rsp.status_message.msg, &rsp.headers, rsp.get_body(), date)
}

/// The length of the fallback 500 response for `msg` stamped with `date`,
/// when it is at most `isize::MAX`.
pub fn error_encoded_len(msg: &str, date: &[u8]) -> (r: Option<usize>)
    ensures
        r matches Some(n) ==> n == wire(error_view(msg.spec_bytes()), date@).len(),
        r is None ==> wire(error_view(msg.spec_bytes()), date@).len() > isize::MAX,
{
    let headers: Vec<String> = Vec::new();
    proof {
        assert(lines_view(headers@) =~= Seq::<Seq<char>>::empty());
    }
    parts_len(500, "Internal Server Error", &headers, msg.as_bytes(), date)
}

impl Response {
    /// The response's own scratch buffer.
    pub closed spec fn scratch(&self) -> Seq<u8> {
        buf_bytes(self.rsp_buf)
    }

    /// The body is the scratch buffer's contents.
    pub closed spec fn body_in_scratch(&self) -> bool {
        self.body is Dummy
    }

    /// A body that lives in the scratch buffer is exactly the bytes the
    /// scratch buffer holds.
    pub proof fn lemma_scratch_is_body(&self)
        ensures
            self.body_in_scratch() ==> self@.body == self.scratch(),
    {
    }

    /// A response with status 200 "OK", no headers, and its body in the
    /// given scratch buffer.
    pub fn new(rsp_buf: BytesMut) -> (r: Response)
        ensures
            r@ == (ResponseView {
                status: 200,
                reason: "OK"@,
                headers: Seq::empty(),
                body: buf_bytes(rsp_buf),
            }),
            r.scratch() == buf_bytes(rsp_buf),
            r.body_in_scratch(),
    {
        let r = Response {
            headers: Vec::new(),
            status_message: StatusMessage { code: 200, msg: "OK" },
            body: Body::Dummy,
            rsp_buf,
        };
        assert(lines_view(r.headers@) =~= Seq::<Seq<char>>::empty());
        r
    }

    /// Sets the status code and reason phrase.
    pub fn status_code(&mut self, code: usize, msg: &'static str) -> (r: &mut Self)
        ensures
            (*r)@ == (ResponseView { status: code, reason: msg@, ..old(self)@ }),
            (*r).scratch() == old(self).scratch(),
            (*r).body_in_scratch() == old(self).body_in_scratch(),
            *final(self) == *final(r),
    {
        self.status_message = StatusMessage { code, msg };
        self
    }

    /// Appends a header line; a response holds at most `MAX_HEADERS` of them.
    pub fn header(&mut self, header: &'static str) -> (r: &mut Self)
        requires
            old(self)@.headers.len() < MAX_HEADERS,
        ensures
            (*r)@ == (ResponseView { headers: old(self)@.headers.push(header@), ..old(self)@ }),
            (*r).scratch() == old(self).scratch(),
            (*r).body_in_scratch() == old(self).body_in_scratch(),
            *final(self) == *final(r),
    {
        let line = header.to_owned();
        self.headers.push(line);
        assert(lines_view(self.headers@) =~= lines_view(old(self).headers@).push(header@));
        self
    }

    /// Makes a static string the body.
    pub fn body(&mut self, s: &'static str)
        ensures
            final(self)@ == (ResponseView { body: s.spec_bytes(), ..old(self)@ }),
            final(self).scratch() == old(self).scratch(),
            !final(self).body_in_scratch(),
    {
        self.body = Body::Str(s);
    }

    /// Makes an owned byte sequence the body.
    pub fn body_vec(&mut self, v: Vec<u8>)
        ensures
            final(self)@ == (ResponseView { body: v@, ..old(self)@ }),
            final(self).scratch() == old(self).scratch(),
            !final(self).body_in_scratch(),
    {
        self.body = Body::Vec(v);
    }

    /// Moves the body into the scratch buffer and hands that buffer out, so
    /// that more body bytes can be appended in place.
    pub fn body_mut(&mut self) -> (r: &mut BytesMut)
        requires
            old(self).body_in_scratch() || old(self).scratch().len() + old(self)@.body.len()
                <= isize::MAX,
        ensures
            buf_bytes(*r) == (if old(self).body_in_scratch() {
                old(self).scratch()
            } else {
                old(self).scratch() + old(self)@.body
            }),
            old(self).body_in_scratch() || old(self).scratch().len() == 0 ==> buf_bytes(*r) == old(
                self,
            )@.body,
            final(self)@ == (ResponseView { body: buf_bytes(*final(r)), ..old(self)@ }),
            final(self).scratch() == buf_bytes(*final(r)),
            final(self).body_in_scratch(),
    {
        match &self.body {
            Body::Dummy => {},
            Body::Str(s) => {
                self.rsp_buf.extend_from_slice(s.as_bytes());
            },
            Body::Vec(v) => {
                self.rsp_buf.extend_from_slice(v.as_slice());
            },
        }
        self.body = Body::Dummy;
        &mut self.rsp_buf
    }

    /// The length of the body in bytes.
    pub fn body_len(&self) -> (r: usize)
        ensures
            r == self@.body.len(),
    {
        match &self.body {
            Body::Dummy => self.rsp_buf.len(),
            Body::Str(s) => s.as_bytes().len(),
            Body::Vec(v) => v.len(),
        }
    }

    /// A builder for a response.
    pub fn builder() -> (r: ResponseBuilder)
        ensures
            r@ == (BuilderView { status: 200, headers: Seq::empty() }),
    {
        ResponseBuilder::new()
    }

    /// The bytes of the body.
    pub fn get_body(&self) -> (r: &[u8])
        ensures
            r@ == self@.body,
    {
        match &self.body {
            Body::Dummy => buf_as_slice(&self.rsp_buf),
            Body::Vec(v) => v.as_slice(),
            Body::Str(s) => s.as_bytes(),
        }
    }
}

/// What a builder has collected so far.
pub struct BuilderView {
    pub status: usize,
    pub headers: Seq<(Seq<char>, Seq<char>)>,
}

/// The header line `name: value`.
pub open spec fn header_line(h: (Seq<char>, Seq<char>)) -> Seq<char> {
    h.0 + ": "@ + h.1
}

/// Collects a status and named headers, then turns into a `Response`.
pub struct ResponseBuilder {
    status: usize,
    headers: Vec<(&'static str, &'static str)>,
}

impl View for ResponseBuilder {
    type V = BuilderView;

    closed spec fn view(&self) -> BuilderView {
        BuilderView {
            status: self.status,
            headers: self.headers@.map_values(|h: (&'static str, &'static str)| (h.0@, h.1@)),
        }
    }
}

impl ResponseBuilder {
    /// Status 200 and no headers.
    pub fn new() -> (r: Self)
        ensures
            r@ == (BuilderView { status: 200, headers: Seq::empty() }),
    {
        let r = ResponseBuilder { status: 200, headers: Vec::new() };
        assert(r@.headers =~= Seq::<(Seq<char>, Seq<char>)>::empty());
        r
    }

    /// Sets the status code.
    pub fn status(self, code: usize) -> (r: Self)
        ensures
            r@ == (BuilderView { status: code, ..self@ }),
    {
        let mut b = self;
        b.status = code;
        b
    }

    /// Adds the header `key: value`.
    pub fn header(self, key: &'static str, value: &'static str) -> (r: Self)
        ensures
            r@ == (BuilderView { headers: self@.headers.push((key@, value@)), ..self@ }),
    {
        let mut b = self;
        b.headers.push((key, value));
        assert(b@.headers =~= self@.headers.push((key@, value@)));
        b
    }

    /// The response with the collected status, its standard reason phrase,
    /// one line `name: value` per header, and `body`.
    pub fn body(self, body: Vec<u8>) -> (r: Response)
        requires
            self@.headers.len() <= MAX_HEADERS,
        ensures
            r@ == (ResponseView {
                status: self@.status,
                reason: reason_phrase(self@.status),
                headers: self@.headers.map_values(|h: (Seq<char>, Seq<char>)| header_line(h)),
                body: body@,
            }),
            !r.body_in_scratch(),
    {
        let ghost want = self@.headers.map_values(|h: (Seq<char>, Seq<char>)| header_line(h));
        let mut response = Response::new(BytesMut::new());
        response.status_code(self.status, status_code_to_message(self.status));
        let mut i: usize = 0;
        while i < self.headers.len()
            invariant
                0 <= i <= self.headers@.len() <= MAX_HEADERS,
                response@.status == self@.status,
                response@.reason == reason_phrase(self@.status),
                response@.headers == want.subrange(0, i as int),
                want.len() == self@.headers.len(),
                forall|j: int| 0 <= j < want.len() ==> #[trigger] want[j] == header_line(
                    self@.headers[j],
                ),
            decreases self.headers@.len() - i,
        {
            let ghost old_headers = response.headers@;
            let (key, value) = self.headers[i];
            let mut line = String::from_str(key);
            line.append(": ");
            line.append(value);
            response.headers.push(line);
            proof {
                assert(self@.headers[i as int] == (key@, value@));
                assert(line@ == want[i as int]);
                assert(lines_view(response.headers@) =~= lines_view(old_headers).push(line@));
            }
            i = i + 1;
            assert(lines_view(response.headers@) =~= want.subrange(0, i as int));
        }
        assert(want.subrange(0, i as int) =~= want);
        response.body_vec(body);
        response
    }
}


/// Encoding one response with two dates gives the same bytes but for the
/// date: the same bytes before it, and the same bytes after it.
pub proof fn lemma_encoding_differs_only_in_date(r: ResponseView, d1: Seq<u8>, d2: Seq<u8>)
    ensures
        wire(r, d1).subrange(0, wire_head(r).len() as int) == wire(r, d2).subrange(
            0,
            wire_head(r).len() as int,
        ),
        wire(r, d1).subrange((wire_head(r).len() + d1.len()) as int, wire(r, d1).len() as int) == wire(
            r,
            d2,
        ).subrange((wire_head(r).len() + d2.len()) as int, wire(r, d2).len() as int),
        d1 == d2 ==> wire(r, d1) == wire(r, d2),
{
    let h = wire_head(r);
    let t = wire_tail(r);
    assert(wire(r, d1).subrange(0, h.len() as int) =~= h);
    assert(wire(r, d2).subrange(0, h.len() as int) =~= h);
    assert(wire(r, d1).subrange((h.len() + d1.len()) as int, wire(r, d1).len() as int) =~= t);
    assert(wire(r, d2).subrange((h.len() + d2.len()) as int, wire(r, d2).len() as int) =~= t);
}

/// The wire form ends with the blank line and then exactly the body.
pub proof fn lemma_wire_ends_with_body(r: ResponseView, date: Seq<u8>)
    ensures
        ({
            let w = wire(r, date);
            let tail = "\r\n\r\n".spec_bytes() + r.body;
            w.len() >= tail.len() && w.subrange(w.len() - tail.len(), w.len() as int) == tail
        }),
{
    let w = wire(r, date);
    let tail = "\r\n\r\n".spec_bytes() + r.body;
    assert(w.subrange(w.len() - tail.len(), w.len() as int) =~= tail);
}

} // verus!
