//! The codec contract, and the codec for HTTP/1.1: request heads in,
//! responses out.

use crate::buffer::{chunk, contents, extend_from_slice, is_empty, split_to};
use crate::error::{Error, ParseError};
use crate::message::{headers_view, Header, HeaderView, Request, RequestView, Response, Version};
use crate::wire::{
    blank_line_at, lemma_body_follows_first_blank_line, no_cr, render_response, response_wire,
};
use bytes::BytesMut;
use httparse::{Status, EMPTY_HEADER};
use std::time::{Duration, SystemTime, UNIX_EPOCH};
use vstd::prelude::*;

verus! {

/// The most header lines that a request may have.
pub const MAX_HEADERS: usize = 64;

/// The first second, counted from the start of 1970, that has no date text:
/// the start of the year 10000.
pub const DATE_END: u64 = 253402300800;

/// What a codec makes of the bytes at the head of a buffer.
pub enum Decoded<V> {
    /// The first `consumed` bytes are one frame.
    Frame { item: V, consumed: nat },
    /// The bytes may be the start of a frame: more are needed.
    Incomplete,
    /// The bytes are no frame, whatever follows.
    Invalid(Error),
}

/// The result of a decode call, with its frame taken by its view.
pub open spec fn item_view<T: View>(r: Result<Option<T>, Error>) -> Result<Option<T::V>, Error> {
    match r {
        Ok(Some(item)) => Ok(Some(item@)),
        Ok(None) => Ok(None),
        Err(e) => Err(e),
    }
}

/// The buffer and the result after one decode of `buf`: a frame leaves the
/// head of the buffer, anything else leaves the buffer as it was.
pub open spec fn after_decode<V>(d: Decoded<V>, buf: Seq<u8>) -> (Seq<u8>, Result<Option<V>, Error>) {
    match d {
        Decoded::Frame { item, consumed } => (buf.skip(consumed as int), Ok(Some(item))),
        Decoded::Incomplete => (buf, Ok(None)),
        Decoded::Invalid(e) => (buf, Err(e)),
    }
}

/// As `after_decode`, once the stream has ended: with no frame to be had an
/// empty buffer is a clean end, and bytes left over are an error.
pub open spec fn after_decode_eof<V>(d: Decoded<V>, buf: Seq<u8>) -> (
    Seq<u8>,
    Result<Option<V>, Error>,
) {
    match d {
        Decoded::Incomplete => if buf.len() == 0 {
            (buf, Ok(None))
        } else {
            (buf, Err(Error::TrailingBytes))
        },
        _ => after_decode(d, buf),
    }
}

/// Reads frames from the head of a buffer.
pub trait Decoder {
    type Item: View;

    /// What the codec makes of `src`.
    spec fn parse(src: Seq<u8>) -> Decoded<<Self::Item as View>::V>;

    /// Takes one frame from the head of `src` if a whole one is there.
    fn decode(&mut self, src: &mut BytesMut) -> (r: Result<Option<Self::Item>, Error>)
        ensures
            Self::parse(contents(*old(src))) matches Decoded::Frame { consumed, .. }
                ==> consumed <= contents(*old(src)).len(),
            (contents(*final(src)), item_view(r)) == after_decode(
                Self::parse(contents(*old(src))),
                contents(*old(src)),
            ),
    ;

    /// As `decode`, for a stream that has ended: a frame cut short is an
    /// error, never dropped.
    fn decode_eof(&mut self, src: &mut BytesMut) -> (r: Result<Option<Self::Item>, Error>)
        ensures
            Self::parse(contents(*old(src))) matches Decoded::Frame { consumed, .. }
                ==> consumed <= contents(*old(src)).len(),
            (contents(*final(src)), item_view(r)) == after_decode_eof(
                Self::parse(contents(*old(src))),
                contents(*old(src)),
            ),
    {
        match self.decode(src) {
            Ok(Some(frame)) => Ok(Some(frame)),
            Ok(None) => {
                if is_empty(src) {
                    Ok(None)
                } else {
                    Err(Error::TrailingBytes)
                }
            },
            Err(e) => Err(e),
        }
    }
}

/// Writes frames to the tail of a buffer.
pub trait Encoder<Item> {
    /// The error with which `item` is refused, if it is.
    spec fn refusal(item: Item) -> Option<Error>;

    /// Whether `out` is `item` on the wire.
    spec fn encodes(item: Item, out: Seq<u8>) -> bool;

    /// Whether `e` is an error that an item which is not refused may still
    /// meet, for a reason that lies outside the item.
    spec fn hindrance(e: Error) -> bool;

    /// Appends `item` to `dst`, or fails and leaves `dst` as it was. An
    /// item that is refused fails with the error of its refusal; any other
    /// is appended, unless a hindrance comes between.
    fn encode(&mut self, item: Item, dst: &mut BytesMut) -> (r: Result<(), Error>)
        ensures
            r is Err ==> contents(*final(dst)) == contents(*old(dst)),
            match Self::refusal(item) {
                Some(e) => r == Err::<(), Error>(e),
                None => match r {
                    Ok(_) => {
                        &&& contents(*old(dst)).is_prefix_of(contents(*final(dst)))
                        &&& Self::encodes(
                            item,
                            contents(*final(dst)).skip(contents(*old(dst)).len() as int),
                        )
                    },
                    Err(e) => Self::hindrance(e),
                },
            },
    ;
}

/// A request head as the parser found it.
pub struct Head {
    pub consumed: usize,
    pub method: Vec<u8>,
    pub target: Vec<u8>,
    pub minor_version: u8,
    pub headers: Vec<Header>,
}

pub struct HeadView {
    pub consumed: nat,
    pub method: Seq<u8>,
    pub target: Seq<u8>,
    pub minor_version: u8,
    pub headers: Seq<HeaderView>,
}

impl View for Head {
    type V = HeadView;

    open spec fn view(&self) -> HeadView {
        HeadView {
            consumed: self.consumed as nat,
            method: self.method@,
            target: self.target@,
            minor_version: self.minor_version,
            headers: headers_view(self.headers@),
        }
    }
}

/// What the parser says of a buffer.
pub enum Scan {
    /// The bytes may be the start of a head.
    Partial,
    /// A whole head stands at the start of the bytes.
    Complete(Head),
    /// The head has more header lines than there was room for.
    TooManyHeaders,
    /// The version on the request line is neither HTTP/1.0 nor HTTP/1.1.
    BadVersion,
    /// Some other byte is out of place.
    Malformed,
}

pub enum ScanView {
    Partial,
    Complete(HeadView),
    TooManyHeaders,
    BadVersion,
    Malformed,
}

impl View for Scan {
    type V = ScanView;

    open spec fn view(&self) -> ScanView {
        match self {
            Scan::Partial => ScanView::Partial,
            Scan::Complete(head) => ScanView::Complete(head@),
            Scan::TooManyHeaders => ScanView::TooManyHeaders,
            Scan::BadVersion => ScanView::BadVersion,
            Scan::Malformed => ScanView::Malformed,
        }
    }
}

/// What `httparse` makes of `src` as a request head, with room for
/// `max_headers` headers.
pub uninterp spec fn scanned(src: Seq<u8>, max_headers: nat) -> ScanView;

/// The reason phrase that `http` has for a status code, as bytes; none for a
/// code that it has no phrase for, or that is no status code at all.
pub uninterp spec fn canonical_reason(code: u16) -> Option<Seq<u8>>;

/// Whether `http` takes the bytes as a method.
pub uninterp spec fn method_accepted(method: Seq<u8>) -> bool;

/// The path of a request target as `http` reads it; none where `http`
/// does not take the target.
pub uninterp spec fn uri_path(target: Seq<u8>) -> Option<Seq<u8>>;

/// Whether `http` takes the bytes as a request target.
pub open spec fn target_accepted(target: Seq<u8>) -> bool {
    uri_path(target) is Some
}

/// Whether `http` takes the bytes as the name of a header.
pub uninterp spec fn header_name_accepted(name: Seq<u8>) -> bool;

/// Whether `http` takes the bytes as the value of a header: each is a tab,
/// or neither a control byte nor the delete byte.
pub open spec fn header_value_accepted(value: Seq<u8>) -> bool {
    forall|i: int|
        0 <= i < value.len() ==> ((#[trigger] value[i]) >= 32 && value[i] != 127) || value[i] == 9
}

/// The text that `httpdate` writes for the time `secs` seconds after the
/// start of 1970, as bytes.
pub uninterp spec fn http_date(secs: u64) -> Seq<u8>;

/// Trusted: `httparse::Request::parse` with `max_headers` header slots. The
/// result is a function of the bytes and of the number of slots alone and
/// goes by the name `scanned`; a complete head never counts more bytes than
/// it was given. Of its errors, those for too many headers and for the
/// version are kept apart; the others tell of bytes that are not well formed.
#[verifier::external_body]
fn scan_head(src: &[u8], max_headers: usize) -> (r: Scan)
    ensures
        r@ == scanned(src@, max_headers as nat),
        r matches Scan::Complete(head) ==> head.consumed <= src@.len(),
{
    let mut slots = vec![EMPTY_HEADER; max_headers];
    let mut req = httparse::Request::new(&mut slots);
    match req.parse(src) {
        Ok(Status::Partial) => Scan::Partial,
        Ok(Status::Complete(consumed)) => Scan::Complete(Head {
            consumed,
            method: req.method.unwrap_or_default().into(),
            target: req.path.unwrap_or_default().into(),
            minor_version: req.version.unwrap_or_default(),
            headers: req.headers.iter().map(|h| Header { name: h.name.into(), value: h.value.into() }).collect(),
        }),
        Err(httparse::Error::TooManyHeaders) => Scan::TooManyHeaders,
        Err(httparse::Error::Version) => Scan::BadVersion,
        Err(_) => Scan::Malformed,
    }
}

/// Trusted: `http::StatusCode::canonical_reason`, on the status code that
/// `StatusCode::from_u16` makes of `code`. The result is a function of the
/// code alone and goes by the name `canonical_reason`. Each phrase is one of
/// a fixed list, none of which holds a carriage return.
#[verifier::external_body]
fn reason_phrase(code: u16) -> (r: Option<Vec<u8>>)
    ensures
        match r {
            Some(phrase) => canonical_reason(code) == Some(phrase@) && no_cr(phrase@),
            None => canonical_reason(code) is None,
        },
{
    match http::StatusCode::from_u16(code) {
        Ok(status) => status.canonical_reason().map(|phrase| phrase.into()),
        Err(_) => None,
    }
}

/// Trusted: whether `http::Method::from_bytes` takes the bytes. The answer
/// is a function of the bytes alone and goes by the name `method_accepted`.
#[verifier::external_body]
fn accepts_method(method: &[u8]) -> (r: bool)
    ensures
        r == method_accepted(method@),
{
    http::Method::from_bytes(method).is_ok()
}

/// Trusted: whether `http::Uri::try_from` takes the bytes: it does where,
/// and only where, the target has a path by the name `uri_path`.
#[verifier::external_body]
fn accepts_target(target: &[u8]) -> (r: bool)
    ensures
        r == target_accepted(target@),
{
    http::Uri::try_from(target).is_ok()
}

/// Trusted: `http::Uri::path` of what `http::Uri::try_from` makes of the
/// bytes; none where it refuses them. The path is a function of the bytes
/// alone and goes by the name `uri_path`.
#[verifier::external_body]
pub(crate) fn target_path(target: &[u8]) -> (r: Option<Vec<u8>>)
    ensures
        match r {
            Some(path) => uri_path(target@) == Some(path@),
            None => uri_path(target@) is None,
        },
{
    match http::Uri::try_from(target) {
        Ok(uri) => Some(uri.path().into()),
        Err(_) => None,
    }
}

/// Trusted: whether `http::header::HeaderName::from_bytes` takes the bytes.
/// The answer is a function of the bytes alone and goes by the name
/// `header_name_accepted`.
#[verifier::external_body]
fn accepts_header_name(name: &[u8]) -> (r: bool)
    ensures
        r == header_name_accepted(name@),
{
    http::header::HeaderName::from_bytes(name).is_ok()
}

/// Trusted: whether `http::header::HeaderValue::from_bytes` takes the
/// bytes: it does where each byte is a tab, or neither a control byte nor
/// the delete byte.
#[verifier::external_body]
fn accepts_header_value(value: &[u8]) -> (r: bool)
    ensures
        r == header_value_accepted(value@),
{
    http::header::HeaderValue::from_bytes(value).is_ok()
}

/// Trusted: `SystemTime::now`, as whole seconds since the start of 1970;
/// none where the clock stands before that. Nothing is claimed of the
/// number, which differs from call to call.
#[verifier::external_body]
fn clock_secs() -> (secs: Option<u64>) {
    SystemTime::now().duration_since(UNIX_EPOCH).ok().map(|d| d.as_secs())
}

/// Trusted: `httpdate::fmt_http_date` on the time `secs` seconds after the
/// start of 1970. The text is a function of the seconds alone and goes by
/// the name `http_date`; it is made of letters, digits, spaces, a comma and
/// colons, so it holds no carriage return. The outside function panics from
/// the year 10000 on, which `requires` leaves out.
#[verifier::external_body]
fn date_text(secs: u64) -> (date: Vec<u8>)
    requires
        secs < DATE_END,
    ensures
        date@ == http_date(secs),
        no_cr(date@),
{
    httpdate::fmt_http_date(UNIX_EPOCH + Duration::from_secs(secs)).into_bytes()
}

/// The request that a complete head stands for.
pub open spec fn request_of(head: HeadView) -> RequestView {
    RequestView {
        method: head.method,
        target: head.target,
        version: Version::Http11,
        headers: head.headers,
    }
}

/// Whether every part of a head is one that `http` takes: the method, the
/// target, and the name and the value of each header.
pub open spec fn head_accepted(head: HeadView) -> bool {
    &&& method_accepted(head.method)
    &&& target_accepted(head.target)
    &&& forall|i: int|
        0 <= i < head.headers.len() ==> header_name_accepted((#[trigger] head.headers[i]).name)
            && header_value_accepted(head.headers[i].value)
}

/// What the HTTP/1.1 codec makes of the parser's answer, given whether the
/// parts of a complete head are accepted: a complete head is a frame only
/// with version 1.1 and with parts that are accepted. Any other version is
/// refused first.
pub open spec fn frame_given(scan: ScanView, accepted: bool) -> Decoded<RequestView> {
    match scan {
        ScanView::Partial => Decoded::Incomplete,
        ScanView::Complete(head) => if head.minor_version != 1 {
            Decoded::Invalid(Error::Parse(ParseError::UnsupportedVersion))
        } else if accepted {
            Decoded::Frame { item: request_of(head), consumed: head.consumed }
        } else {
            Decoded::Invalid(Error::Parse(ParseError::Malformed))
        },
        ScanView::TooManyHeaders => Decoded::Invalid(Error::Parse(ParseError::TooManyHeaders)),
        ScanView::BadVersion => Decoded::Invalid(Error::Parse(ParseError::UnsupportedVersion)),
        ScanView::Malformed => Decoded::Invalid(Error::Parse(ParseError::Malformed)),
    }
}

/// What the HTTP/1.1 codec makes of the parser's answer.
pub open spec fn frame_of(scan: ScanView) -> Decoded<RequestView> {
    match scan {
        ScanView::Complete(head) => frame_given(scan, head_accepted(head)),
        _ => frame_given(scan, true),
    }
}

/// The codec for HTTP/1.1. It keeps nothing between frames.
pub struct HttpCodec;

impl HttpCodec {
    /// Whether every part of a head is one that `http` takes.
    pub fn head_is_accepted(head: &Head) -> (r: bool)
        ensures
            r == head_accepted(head@),
    {
        if !accepts_method(head.method.as_slice()) || !accepts_target(head.target.as_slice()) {
            return false;
        }
        let mut i: usize = 0;
        while i < head.headers.len()
            invariant
                i <= head.headers.len(),
                forall|j: int|
                    0 <= j < i ==> header_name_accepted((#[trigger] head@.headers[j]).name)
                        && header_value_accepted(head@.headers[j].value),
            decreases head.headers.len() - i,
        {
            assert(head@.headers[i as int] == head.headers@[i as int]@);
            if !accepts_header_name(head.headers[i].name.as_slice()) || !accepts_header_value(
                head.headers[i].value.as_slice(),
            ) {
                return false;
            }
            i += 1;
        }
        true
    }

    /// The request in the parser's answer and the number of bytes it takes,
    /// or why there is none, given whether the parts of a complete head are
    /// accepted.
    pub fn frame_from_scan(scan: Scan, accepted: bool) -> (r: Result<
        Option<(Request, usize)>,
        Error,
    >)
        ensures
            match frame_given(scan@, accepted) {
                Decoded::Frame { item, consumed } => r matches Ok(Some(found)) && found.0@ == item
                    && found.1 == consumed,
                Decoded::Incomplete => r matches Ok(None),
                Decoded::Invalid(e) => r == Err::<Option<(Request, usize)>, Error>(e),
            },
    {
        match scan {
            Scan::Partial => Ok(None),
            Scan::Complete(head) => {
                if head.minor_version != 1 {
                    return Err(Error::Parse(ParseError::UnsupportedVersion));
                }
                if !accepted {
                    return Err(Error::Parse(ParseError::Malformed));
                }
                let request = Request {
                    method: head.method,
                    target: head.target,
                    version: Version::Http11,
                    headers: head.headers,
                };
                Ok(Some((request, head.consumed)))
            },
            Scan::TooManyHeaders => Err(Error::Parse(ParseError::TooManyHeaders)),
            Scan::BadVersion => Err(Error::Parse(ParseError::UnsupportedVersion)),
            Scan::Malformed => Err(Error::Parse(ParseError::Malformed)),
        }
    }

    /// Appends `item` to `dst` with the given reason phrase and date, or
    /// refuses it where its status has no reason phrase.
    pub fn encode_with(
        item: Response,
        reason: Option<Vec<u8>>,
        date: &Vec<u8>,
        dst: &mut BytesMut,
    ) -> (r: Result<(), Error>)
        ensures
            match reason {
                Some(phrase) => r is Ok && contents(*final(dst)) == contents(*old(dst))
                    + response_wire(item@, phrase@, date@),
                None => r == Err::<(), Error>(Error::UnknownStatus) && contents(*final(dst))
                    == contents(*old(dst)),
            },
    {
        match reason {
            Some(phrase) => {
                let out = render_response(&item, &phrase, date);
                extend_from_slice(dst, out.as_slice());
                Ok(())
            },
            None => Err(Error::UnknownStatus),
        }
    }
}

/// What encoding comes to, given the reason phrase of the status and the
/// seconds on the clock: the bytes to append, or the error. A status
/// without a phrase is refused first; then a clock that gives no second
/// with a date text.
pub open spec fn encoded_at(item: Response, reason: Option<Seq<u8>>, clock: Option<u64>) -> Result<
    Seq<u8>,
    Error,
> {
    match (reason, clock) {
        (None, _) => Err(Error::UnknownStatus),
        (Some(phrase), Some(secs)) => if secs < DATE_END {
            Ok(response_wire(item@, phrase, http_date(secs)))
        } else {
            Err(Error::DateUnavailable)
        },
        (Some(_), None) => Err(Error::DateUnavailable),
    }
}

/// A reason phrase by its view.
pub open spec fn phrase_view(reason: Option<Vec<u8>>) -> Option<Seq<u8>> {
    match reason {
        Some(phrase) => Some(phrase@),
        None => None,
    }
}

impl HttpCodec {
    /// Appends `item` to `dst` as it is written with the given reason
    /// phrase at the given second, or fails and leaves `dst` as it was.
    pub fn encode_at(
        item: Response,
        reason: Option<Vec<u8>>,
        clock: Option<u64>,
        dst: &mut BytesMut,
    ) -> (r: Result<(), Error>)
        ensures
            match encoded_at(item, phrase_view(reason), clock) {
                Ok(wire) => r is Ok && contents(*final(dst)) == contents(*old(dst)) + wire,
                Err(e) => r == Err::<(), Error>(e) && contents(*final(dst)) == contents(
                    *old(dst),
                ),
            },
            r is Ok ==> (clock matches Some(secs) && no_cr(http_date(secs))),
    {
        if reason.is_none() {
            return Err(Error::UnknownStatus);
        }
        match clock {
            Some(secs) => {
                if secs < DATE_END {
                    let date = date_text(secs);
                    HttpCodec::encode_with(item, reason, &date, dst)
                } else {
                    Err(Error::DateUnavailable)
                }
            },
            None => Err(Error::DateUnavailable),
        }
    }
}

impl Decoder for HttpCodec {
    type Item = Request;

    open spec fn parse(src: Seq<u8>) -> Decoded<RequestView> {
        frame_of(scanned(src, MAX_HEADERS as nat))
    }

    fn decode(&mut self, src: &mut BytesMut) -> (r: Result<Option<Request>, Error>) {
        let scan = scan_head(chunk(src), MAX_HEADERS);
        let accepted = match &scan {
            Scan::Complete(head) => HttpCodec::head_is_accepted(head),
            _ => true,
        };
        match HttpCodec::frame_from_scan(scan, accepted) {
            Ok(Some((request, consumed))) => {
                let _ = split_to(src, consumed);
                Ok(Some(request))
            },
            Ok(None) => Ok(None),
            Err(e) => Err(e),
        }
    }
}

impl Encoder<Response> for HttpCodec {
    open spec fn refusal(item: Response) -> Option<Error> {
        if canonical_reason(item.status) is None {
            Some(Error::UnknownStatus)
        } else {
            None
        }
    }

    open spec fn encodes(item: Response, out: Seq<u8>) -> bool {
        exists|secs: u64|
            {
                &&& secs < DATE_END
                &&& no_cr(#[trigger] http_date(secs))
                &&& canonical_reason(item.status) matches Some(reason)
                &&& no_cr(reason)
                &&& out == response_wire(item@, reason, http_date(secs))
            }
    }

    open spec fn hindrance(e: Error) -> bool {
        e == Error::DateUnavailable
    }

    fn encode(&mut self, item: Response, dst: &mut BytesMut) -> (r: Result<(), Error>) {
        let reason = reason_phrase(item.status);
        let clock = clock_secs();
        let r = HttpCodec::encode_at(item, reason, clock, dst);
        proof {
            if let Ok(wire) = encoded_at(item, phrase_view(reason), clock) {
                let before = contents(*old(dst));
                assert(contents(*dst) == before + wire);
                assert((before + wire).skip(before.len() as int) =~= wire);
                assert((before + wire).subrange(0, before.len() as int) =~= before);
                assert(wire == response_wire(
                    item@,
                    canonical_reason(item.status).unwrap(),
                    http_date(clock.unwrap()),
                ));
                assert(Self::encodes(item, wire));
            }
        }
        r
    }
}

/// What the codec writes for a response whose header names hold no
/// carriage return has its first blank line right before the body: no blank
/// line stands earlier, and what follows it is the body, byte for byte, and
/// nothing more.
pub proof fn lemma_encoded_body_follows_first_blank_line(item: Response, out: Seq<u8>)
    requires
        <HttpCodec as Encoder<Response>>::encodes(item, out),
        forall|i: int| 0 <= i < item@.headers.len() ==> no_cr(#[trigger] item@.headers[i].name),
    ensures
        ({
            let at = out.len() - item@.body.len() - 4;
            &&& blank_line_at(out, at)
            &&& forall|k: int| 0 <= k < at ==> !blank_line_at(out, k)
            &&& out.skip(at + 4) == item@.body
        }),
{
    let secs = choose|secs: u64|
        {
            &&& secs < DATE_END
            &&& no_cr(#[trigger] http_date(secs))
            &&& canonical_reason(item.status) matches Some(reason)
            &&& no_cr(reason)
            &&& out == response_wire(item@, reason, http_date(secs))
        };
    lemma_body_follows_first_blank_line(
        item@,
        canonical_reason(item.status).unwrap(),
        http_date(secs),
    );
}

} // verus!
