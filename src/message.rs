//! Requests, responses and the ways a connection ends.
use vstd::prelude::*;

verus! {

/// One header line: a name and a value, both as raw bytes.
#[derive(Clone, Debug, PartialEq, Eq)]
pub struct Header {
    pub name: Vec<u8>,
    pub value: Vec<u8>,
}

/// The name and value bytes of each header, in order.
pub open spec fn header_pairs(hs: Seq<Header>) -> Seq<(Seq<u8>, Seq<u8>)> {
    hs.map_values(|h: Header| (h.name@, h.value@))
}

/// A request as assembled from the wire. The protocol version is always HTTP/1.1.
#[derive(Clone, Debug, PartialEq, Eq)]
pub struct Request {
    pub method: String,
    pub path: String,
    /// Headers in the order received, names as received, duplicates kept.
    pub headers: Vec<Header>,
    /// Every byte that followed the head in the buffer.
    pub body: Vec<u8>,
}

/// The mathematical value of a [`Request`].
pub struct RequestView {
    pub method: Seq<char>,
    pub path: Seq<char>,
    pub headers: Seq<(Seq<u8>, Seq<u8>)>,
    pub body: Seq<u8>,
}

impl View for Request {
    type V = RequestView;

    open spec fn view(&self) -> RequestView {
        RequestView {
            method: self.method@,
            path: self.path@,
            headers: header_pairs(self.headers@),
            body: self.body@,
        }
    }
}

/// A response produced by a handler.
#[derive(Clone, Debug, PartialEq, Eq)]
pub struct Response {
    pub status: u16,
    pub headers: Vec<Header>,
    pub body: Vec<u8>,
}

/// The mathematical value of a [`Response`].
pub struct ResponseView {
    pub status: u16,
    pub headers: Seq<(Seq<u8>, Seq<u8>)>,
    pub body: Seq<u8>,
}

impl View for Response {
    type V = ResponseView;

    open spec fn view(&self) -> ResponseView {
        ResponseView { status: self.status, headers: header_pairs(self.headers@), body: self.body@ }
    }
}

/// Why a connection ended.
#[derive(Debug, PartialEq, Eq)]
pub enum ConnError {
    /// The peer closed the stream.
    ConnectionClosed,
    /// The inbound bytes do not form a valid request; carries a diagnostic.
    MalformedRequest(String),
    /// A response header cannot be written as header text.
    MalformedResponse,
    /// Writing or flushing the response failed.
    WriteFailed,
    /// The handler reported an error.
    HandlerFailed,
}

/// The mathematical value of a [`ConnError`].
pub enum Failure {
    ConnectionClosed,
    MalformedRequest(Seq<char>),
    MalformedResponse,
    WriteFailed,
    HandlerFailed,
}

impl View for ConnError {
    type V = Failure;

    open spec fn view(&self) -> Failure {
        match self {
            ConnError::ConnectionClosed => Failure::ConnectionClosed,
            ConnError::MalformedRequest(t) => Failure::MalformedRequest(t@),
            ConnError::MalformedResponse => Failure::MalformedResponse,
            ConnError::WriteFailed => Failure::WriteFailed,
            ConnError::HandlerFailed => Failure::HandlerFailed,
        }
    }
}

} // verus!
