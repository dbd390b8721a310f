//! The tokenized head of a request, as the incremental parser reports it.
use vstd::prelude::*;
use crate::message::{Header, header_pairs};

verus! {

/// A complete request head: where it ends, and its parts as tokenized.
pub struct ParsedHead {
    /// The number of buffer bytes that the head takes, blank line included.
    pub offset: usize,
    pub method: Option<String>,
    pub path: Option<String>,
    pub headers: Vec<Header>,
}

/// What the parser makes of the bytes buffered so far.
pub enum HeadParse {
    /// More bytes are needed.
    Incomplete,
    Complete(ParsedHead),
    /// The bytes cannot start a request; carries the parser's diagnostic.
    Malformed(String),
}

/// The mathematical value of a [`ParsedHead`].
pub struct ParsedHeadView {
    pub offset: nat,
    pub method: Option<Seq<char>>,
    pub path: Option<Seq<char>>,
    pub headers: Seq<(Seq<u8>, Seq<u8>)>,
}

/// The mathematical value of a [`HeadParse`].
pub enum HeadStatus {
    Incomplete,
    Complete(ParsedHeadView),
    Malformed(Seq<char>),
}

/// The characters of an optional string.
pub open spec fn opt_chars(o: Option<String>) -> Option<Seq<char>> {
    match o {
        Some(s) => Some(s@),
        None => None,
    }
}

impl View for ParsedHead {
    type V = ParsedHeadView;

    open spec fn view(&self) -> ParsedHeadView {
        ParsedHeadView {
            offset: self.offset as nat,
            method: opt_chars(self.method),
            path: opt_chars(self.path),
            headers: header_pairs(self.headers@),
        }
    }
}

impl View for HeadParse {
    type V = HeadStatus;

    open spec fn view(&self) -> HeadStatus {
        match self {
            HeadParse::Incomplete => HeadStatus::Incomplete,
            HeadParse::Complete(h) => HeadStatus::Complete(h@),
            HeadParse::Malformed(t) => HeadStatus::Malformed(t@),
        }
    }
}

/// What the request-head parser reports for the bytes `buf`.
pub uninterp spec fn head_of(buf: Seq<u8>) -> HeadStatus;

/// Relies on httparse::Request::parse, with room for 16 headers: a result
/// that depends on the bytes alone, and for a complete head the number of
/// bytes it took, at most the buffer's length.
#[verifier::external_body]
pub(crate) fn parse_head(buf: &[u8]) -> (r: HeadParse)
    ensures
        r@ == head_of(buf@),
        r matches HeadParse::Complete(h) ==> h.offset <= buf@.len(),
{
    let mut slots = [httparse::EMPTY_HEADER; 16];
    let mut req = httparse::Request::new(&mut slots);
    match req.parse(buf) {
        Ok(httparse::Status::Complete(offset)) => HeadParse::Complete(ParsedHead {
            offset,
            method: req.method.map(|m| m.to_string()),
            path: req.path.map(|p| p.to_string()),
            headers: req.headers.iter().map(|h| Header { name: h.name.as_bytes().to_vec(), value: h.value.to_vec() }).collect(),
        }),
        Ok(httparse::Status::Partial) => HeadParse::Incomplete,
        Err(e) => HeadParse::Malformed(e.to_string()),
    }
}

} // verus!
