//! Building a request from a parsed head and the buffered bytes.
use vstd::prelude::*;
use crate::grammar::{header_name_ok, header_value_ok, is_valid_header_name, is_valid_header_value};
use crate::head::{HeadParse, HeadStatus, ParsedHead, ParsedHeadView};
use crate::message::{ConnError, Failure, Request, RequestView};
use crate::wire::copy_from;

verus! {

/// Every header has a valid name and a valid value.
pub open spec fn headers_acceptable(hs: Seq<(Seq<u8>, Seq<u8>)>) -> bool {
    forall|i: int| 0 <= i < hs.len() ==> header_name_ok(#[trigger] hs[i].0) && header_value_ok(hs[i].1)
}

/// The request that a complete head and the buffer it was parsed from make,
/// if method and path are present and every header is valid. The body is
/// everything in the buffer after the head.
pub open spec fn assembled(h: ParsedHeadView, buf: Seq<u8>) -> Option<RequestView> {
    match (h.method, h.path) {
        (Some(m), Some(p)) => if headers_acceptable(h.headers) {
            Some(RequestView { method: m, path: p, headers: h.headers, body: buf.subrange(h.offset as int, buf.len() as int) })
        } else {
            None
        },
        _ => None,
    }
}

/// The diagnostic given when a complete head makes no request.
pub open spec fn assembly_error(h: ParsedHeadView) -> Seq<char> {
    if h.method is None {
        "request has no method"@
    } else if h.path is None {
        "request has no path"@
    } else {
        "request has an invalid header"@
    }
}

/// Builds the request from a complete head and the buffer it was parsed from.
/// Fails with `MalformedRequest` when the method or path is missing or a
/// header name or value is invalid.
pub fn assemble(head: ParsedHead, buf: &[u8]) -> (r: Result<Request, ConnError>)
    requires
        head.offset <= buf@.len(),
    ensures
        match r {
            Ok(req) => assembled(head@, buf@) == Some(req@),
            Err(e) => assembled(head@, buf@) is None && e@ == Failure::MalformedRequest(assembly_error(head@)),
        },
{
    let ghost hv = head@;
    let ParsedHead { offset, method, path, headers } = head;
    let method = match method {
        Some(m) => m,
        None => return Err(ConnError::MalformedRequest(String::from_str("request has no method"))),
    };
    let path = match path {
        Some(p) => p,
        None => return Err(ConnError::MalformedRequest(String::from_str("request has no path"))),
    };
    assert(hv.method == Some(method@) && hv.path == Some(path@));
    let ghost pairs = hv.headers;
    let mut i: usize = 0;
    while i < headers.len()
        invariant
            i <= headers@.len(),
            pairs == crate::message::header_pairs(headers@),
            pairs == hv.headers,
            hv.method == Some(method@),
            hv.path == Some(path@),
            hv.offset == offset,
            hv == head@,
            headers_acceptable(pairs.take(i as int)),
        decreases headers@.len() - i,
    {
        let h = &headers[i];
        assert(h.name@ == pairs[i as int].0 && h.value@ == pairs[i as int].1);
        let name_ok = is_valid_header_name(h.name.as_slice());
        let value_ok = is_valid_header_value(h.value.as_slice());
        if !name_ok || !value_ok {
            assert(!headers_acceptable(pairs));
            return Err(ConnError::MalformedRequest(String::from_str("request has an invalid header")));
        }
        assert(pairs.take(i + 1) =~= pairs.take(i as int).push(pairs[i as int]));
        i = i + 1;
    }
    assert(pairs.take(i as int) =~= pairs);
    let body = copy_from(buf, offset);
    Ok(Request { method, path, headers, body })
}

/// What reading yields once bytes are buffered.
pub enum ReadOutcome {
    /// The head is not complete yet.
    NeedMore,
    Ready(Request),
    Failed(ConnError),
}

/// The mathematical value of a [`ReadOutcome`].
pub enum ReadView {
    NeedMore,
    Ready(RequestView),
    Failed(Failure),
}

impl View for ReadOutcome {
    type V = ReadView;

    open spec fn view(&self) -> ReadView {
        match self {
            ReadOutcome::NeedMore => ReadView::NeedMore,
            ReadOutcome::Ready(r) => ReadView::Ready(r@),
            ReadOutcome::Failed(e) => ReadView::Failed(e@),
        }
    }
}

/// What the buffer `buf`, with parser report `h`, yields.
pub open spec fn read_decision(h: HeadStatus, buf: Seq<u8>) -> ReadView {
    match h {
        HeadStatus::Incomplete => ReadView::NeedMore,
        HeadStatus::Malformed(t) => ReadView::Failed(Failure::MalformedRequest(t)),
        HeadStatus::Complete(p) => match assembled(p, buf) {
            Some(req) => ReadView::Ready(req),
            None => ReadView::Failed(Failure::MalformedRequest(assembly_error(p))),
        },
    }
}

/// Decides what the buffered bytes yield, given the parser's report on them.
pub fn decide(parsed: HeadParse, buf: &[u8]) -> (r: ReadOutcome)
    requires
        parsed matches HeadParse::Complete(h) ==> h.offset <= buf@.len(),
    ensures
        r@ == read_decision(parsed@, buf@),
{
    match parsed {
        HeadParse::Incomplete => ReadOutcome::NeedMore,
        HeadParse::Malformed(t) => ReadOutcome::Failed(ConnError::MalformedRequest(t)),
        HeadParse::Complete(h) => match assemble(h, buf) {
            Ok(req) => ReadOutcome::Ready(req),
            Err(e) => ReadOutcome::Failed(e),
        },
    }
}

} // verus!
