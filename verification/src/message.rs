//! The values that travel over a connection: requests as they were read, and
//! responses as the handler built them.

use vstd::prelude::*;

verus! {

/// One header line: a name and the bytes of its value.
#[derive(Clone, Debug, PartialEq, Eq)]
pub struct Header {
    pub name: Vec<u8>,
    pub value: Vec<u8>,
}

pub struct HeaderView {
    pub name: Seq<u8>,
    pub value: Seq<u8>,
}

impl View for Header {
    type V = HeaderView;

    open spec fn view(&self) -> HeaderView {
        HeaderView { name: self.name@, value: self.value@ }
    }
}

/// The headers of a message in their order, each by its view.
pub open spec fn headers_view(headers: Seq<Header>) -> Seq<HeaderView> {
    headers.map_values(|h: Header| h@)
}

/// The protocol version of a request. Only HTTP/1.1 is ever produced.
#[derive(Clone, Copy, Debug, PartialEq, Eq)]
pub enum Version {
    Http11,
}

/// A request head as it was read: no body is ever attached.
#[derive(Clone, Debug, PartialEq, Eq)]
pub struct Request {
    pub method: Vec<u8>,
    pub target: Vec<u8>,
    pub version: Version,
    pub headers: Vec<Header>,
}

pub struct RequestView {
    pub method: Seq<u8>,
    pub target: Seq<u8>,
    pub version: Version,
    pub headers: Seq<HeaderView>,
}

impl View for Request {
    type V = RequestView;

    open spec fn view(&self) -> RequestView {
        RequestView {
            method: self.method@,
            target: self.target@,
            version: self.version,
            headers: headers_view(self.headers@),
        }
    }
}

/// A response: status code, headers in the order they are to be written, and
/// the body.
#[derive(Clone, Debug, PartialEq, Eq)]
pub struct Response {
    pub status: u16,
    pub headers: Vec<Header>,
    pub body: Vec<u8>,
}

pub struct ResponseView {
    pub status: u16,
    pub headers: Seq<HeaderView>,
    pub body: Seq<u8>,
}

impl View for Response {
    type V = ResponseView;

    open spec fn view(&self) -> ResponseView {
        ResponseView {
            status: self.status,
            headers: headers_view(self.headers@),
            body: self.body@,
        }
    }
}

impl Response {
    /// A response with the given status and body and no header of its own.
    pub fn new(status: u16, body: Vec<u8>) -> (r: Response)
        ensures
            r@ == (ResponseView { status, headers: Seq::<HeaderView>::empty(), body: body@ }),
    {
        let r = Response { status, headers: Vec::new(), body };
        assert(headers_view(r.headers@) =~= Seq::<HeaderView>::empty());
        r
    }

    /// Adds one header after those already there.
    pub fn header(self, name: Vec<u8>, value: Vec<u8>) -> (r: Response)
        ensures
            r@ == (ResponseView {
                headers: self@.headers.push(HeaderView { name: name@, value: value@ }),
                ..self@
            }),
    {
        let mut r = self;
        let ghost before = r.headers@;
        r.headers.push(Header { name, value });
        assert(headers_view(r.headers@) =~= headers_view(before).push(
            HeaderView { name: name@, value: value@ },
        ));
        r
    }
}

} // verus!
