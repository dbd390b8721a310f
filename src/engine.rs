//! The decisions of one connection's loop: read a request, hand it to the
//! handler, write the response, and close on the first failure.
//!
//! The engine performs no I/O. Its driver reads from the socket, calls the
//! handler and writes, and reports each result back as an event; the engine
//! answers with the next action.
use vstd::prelude::*;
use crate::assemble::{ReadOutcome, ReadView, decide, read_decision};
use crate::head::{head_of, parse_head};
use crate::message::{ConnError, Failure, Request, RequestView, Response, ResponseView};
use crate::serialize::{canonical_reason_of, headers_writable, reason_text, response_wire, serialize};
use crate::wire::append;

verus! {

/// Where a connection stands in its cycle.
#[derive(Clone, Copy, Debug, PartialEq, Eq, Structural)]
pub enum Phase {
    /// Waiting for bytes of the next request.
    Reading,
    /// A request was handed to the handler.
    Dispatching,
    /// A response is being written.
    Writing,
    /// The connection is over.
    Closed,
}

/// What the driver is to do next.
pub enum Action {
    /// Read more bytes from the socket.
    ReadMore,
    /// Call the handler with this request.
    Dispatch(Request),
    /// Write these bytes to the socket and flush.
    Write(Vec<u8>),
    /// End the connection, for this reason. Nothing is written.
    Close(ConnError),
}

/// The mathematical value of an [`Action`].
pub enum ActionView {
    ReadMore,
    Dispatch(RequestView),
    Write(Seq<u8>),
    Close(Failure),
}

impl View for Action {
    type V = ActionView;

    open spec fn view(&self) -> ActionView {
        match self {
            Action::ReadMore => ActionView::ReadMore,
            Action::Dispatch(r) => ActionView::Dispatch(r@),
            Action::Write(w) => ActionView::Write(w@),
            Action::Close(e) => ActionView::Close(e@),
        }
    }
}

/// What the bytes buffered so far, `buf`, and a read that returned `chunk`
/// yield: an empty read is the peer closing the stream.
pub open spec fn read_step(buf: Seq<u8>, chunk: Seq<u8>) -> ReadView {
    if chunk.len() == 0 {
        ReadView::Failed(Failure::ConnectionClosed)
    } else {
        read_decision(head_of(buf + chunk), buf + chunk)
    }
}

/// The action that follows a read step.
pub open spec fn read_action(v: ReadView) -> ActionView {
    match v {
        ReadView::NeedMore => ActionView::ReadMore,
        ReadView::Ready(r) => ActionView::Dispatch(r),
        ReadView::Failed(f) => ActionView::Close(f),
    }
}

/// The phase that follows a read step.
pub open spec fn read_phase(v: ReadView) -> Phase {
    match v {
        ReadView::NeedMore => Phase::Reading,
        ReadView::Ready(_) => Phase::Dispatching,
        ReadView::Failed(_) => Phase::Closed,
    }
}

/// The action that follows the handler's result (`None`: it failed).
pub open spec fn handler_action(resp: Option<ResponseView>) -> ActionView {
    match resp {
        None => ActionView::Close(Failure::HandlerFailed),
        Some(r) => if headers_writable(r.headers) {
            ActionView::Write(response_wire(r.status, reason_text(canonical_reason_of(r.status)), r.headers, r.body))
        } else {
            ActionView::Close(Failure::MalformedResponse)
        },
    }
}

/// The action that follows a write that succeeded (`true`) or failed.
pub open spec fn write_action(ok: bool) -> ActionView {
    if ok {
        ActionView::ReadMore
    } else {
        ActionView::Close(Failure::WriteFailed)
    }
}

/// The state of one connection: its phase and the bytes of the request
/// being read.
pub struct Engine {
    buffer: Vec<u8>,
    phase: Phase,
}

impl Engine {
    /// The bytes read since the current request began.
    pub closed spec fn buffered(&self) -> Seq<u8> {
        self.buffer@
    }

    /// The current phase.
    pub closed spec fn stage(&self) -> Phase {
        self.phase
    }

    /// A fresh connection, waiting for its first request.
    pub fn new() -> (r: Engine)
        ensures
            r.stage() == Phase::Reading,
            r.buffered() == Seq::<u8>::empty(),
    {
        Engine { buffer: Vec::with_capacity(4096), phase: Phase::Reading }
    }

    /// The current phase.
    pub fn phase(&self) -> (r: Phase)
        ensures
            r == self.stage(),
    {
        self.phase
    }

    /// The bytes read since the current request began.
    pub fn buffer(&self) -> (r: &[u8])
        ensures
            r@ == self.buffered(),
    {
        self.buffer.as_slice()
    }

    /// Takes the bytes of one socket read. An empty read closes the
    /// connection with `ConnectionClosed`; otherwise the bytes are added to
    /// the buffer, which is parsed as a request head: an incomplete head asks
    /// for more bytes, a complete one that makes a request dispatches it, and
    /// anything else closes the connection with `MalformedRequest`.
    pub fn on_bytes(&mut self, chunk: &[u8]) -> (r: Action)
        requires
            old(self).stage() == Phase::Reading,
        ensures
            r@ == read_action(read_step(old(self).buffered(), chunk@)),
            final(self).stage() == read_phase(read_step(old(self).buffered(), chunk@)),
            final(self).buffered() == if chunk@.len() == 0 {
                old(self).buffered()
            } else {
                old(self).buffered() + chunk@
            },
    {
        if chunk.len() == 0 {
            self.phase = Phase::Closed;
            return Action::Close(ConnError::ConnectionClosed);
        }
        append(&mut self.buffer, chunk);
        let parsed = parse_head(self.buffer.as_slice());
        match decide(parsed, self.buffer.as_slice()) {
            ReadOutcome::NeedMore => Action::ReadMore,
            ReadOutcome::Ready(req) => {
                self.phase = Phase::Dispatching;
                Action::Dispatch(req)
            },
            ReadOutcome::Failed(e) => {
                self.phase = Phase::Closed;
                Action::Close(e)
            },
        }
    }

    /// Takes the handler's result (`None`: the handler failed). A failure
    /// closes the connection with `HandlerFailed`; a response is serialized
    /// and handed out for writing, or closes the connection with
    /// `MalformedResponse` when a header cannot be written.
    pub fn on_handler(&mut self, resp: Option<Response>) -> (r: Action)
        requires
            old(self).stage() == Phase::Dispatching,
        ensures
            r@ == handler_action(
                match resp {
                    Some(x) => Some(x@),
                    None => None,
                },
            ),
            final(self).stage() == if r is Write {
                Phase::Writing
            } else {
                Phase::Closed
            },
            final(self).buffered() == old(self).buffered(),
    {
        match resp {
            None => {
                self.phase = Phase::Closed;
                Action::Close(ConnError::HandlerFailed)
            },
            Some(x) => match serialize(&x) {
                Ok(w) => {
                    self.phase = Phase::Writing;
                    Action::Write(w)
                },
                Err(e) => {
                    self.phase = Phase::Closed;
                    Action::Close(e)
                },
            },
        }
    }

    /// Takes the outcome of writing and flushing the response. A failure
    /// closes the connection with `WriteFailed`; success clears the buffer
    /// and starts reading the next request.
    pub fn on_written(&mut self, ok: bool) -> (r: Action)
        requires
            old(self).stage() == Phase::Writing,
        ensures
            r@ == write_action(ok),
            final(self).stage() == if ok {
                Phase::Reading
            } else {
                Phase::Closed
            },
            final(self).buffered() == if ok {
                Seq::<u8>::empty()
            } else {
                old(self).buffered()
            },
    {
        if ok {
            self.buffer.clear();
            self.phase = Phase::Reading;
            Action::ReadMore
        } else {
            self.phase = Phase::Closed;
            Action::Close(ConnError::WriteFailed)
        }
    }
}

/// The bytes of `chunks` one after another.
pub open spec fn joined(chunks: Seq<Seq<u8>>) -> Seq<u8>
    decreases chunks.len(),
{
    if chunks.len() == 0 {
        Seq::empty()
    } else {
        joined(chunks.drop_last()) + chunks.last()
    }
}

/// The buffer and the last read step after the reads `chunks`, taken one by
/// one from an empty buffer as [`Engine::on_bytes`] takes them, up to the
/// first step that asks for no more bytes.
pub open spec fn feed(chunks: Seq<Seq<u8>>) -> (Seq<u8>, ReadView)
    decreases chunks.len(),
{
    if chunks.len() == 0 {
        (Seq::empty(), ReadView::NeedMore)
    } else {
        let (buf, v) = feed(chunks.drop_last());
        if v is NeedMore {
            let next = if chunks.last().len() == 0 {
                buf
            } else {
                buf + chunks.last()
            };
            (next, read_step(buf, chunks.last()))
        } else {
            (buf, v)
        }
    }
}

/// Reads that are all non-empty and of which no earlier one completes the
/// head of the request.
pub open spec fn incremental_reads(chunks: Seq<Seq<u8>>) -> bool {
    &&& chunks.len() > 0
    &&& forall|i: int| 0 <= i < chunks.len() ==> (#[trigger] chunks[i]).len() > 0
    &&& forall|k: int| 1 <= k < chunks.len() ==> head_of(joined(#[trigger] chunks.take(k))) is Incomplete
}

proof fn lemma_feed_accumulates(chunks: Seq<Seq<u8>>)
    requires
        incremental_reads(chunks),
    ensures
        feed(chunks) == (joined(chunks), read_decision(head_of(joined(chunks)), joined(chunks))),
    decreases chunks.len(),
{
    let init = chunks.drop_last();
    if chunks.len() == 1 {
        assert(joined(init) == Seq::<u8>::empty());
        assert(joined(chunks) =~= chunks.last());
        assert(chunks.last() == chunks[0]);
    } else {
        assert forall|k: int| 1 <= k < init.len() implies head_of(joined(#[trigger] init.take(k))) is Incomplete by {
            assert(init.take(k) =~= chunks.take(k));
        }
        assert forall|i: int| 0 <= i < init.len() implies (#[trigger] init[i]).len() > 0 by {
            assert(init[i] == chunks[i]);
        }
        lemma_feed_accumulates(init);
        assert(chunks.take(init.len() as int) =~= init);
        assert(head_of(joined(chunks.take(init.len() as int))) is Incomplete);
        assert(feed(init).1 is NeedMore);
        assert(chunks.last() == chunks[chunks.len() - 1]);
        assert(chunks.last().len() > 0);
        assert(joined(chunks) == joined(init) + chunks.last());
    }
}

/// However a request's bytes are split across socket reads, the engine
/// reaches the same outcome: the one that the bytes make when read at once.
/// The reads are non-empty, and no earlier read already completes the head.
pub proof fn split_reads_agree(a: Seq<Seq<u8>>, b: Seq<Seq<u8>>)
    requires
        incremental_reads(a),
        incremental_reads(b),
        joined(a) == joined(b),
    ensures
        feed(a).1 == feed(b).1,
        feed(a).1 == read_step(Seq::empty(), joined(a)),
{
    lemma_feed_accumulates(a);
    lemma_feed_accumulates(b);
    assert(Seq::<u8>::empty() + joined(a) =~= joined(a));
    assert(joined(a).len() > 0) by {
        assert(a.last() == a[a.len() - 1]);
    }
}

/// Bytes that the parser reports as malformed end the connection with
/// `MalformedRequest`, carrying the parser's diagnostic; nothing is written.
pub proof fn malformed_head_closes(buf: Seq<u8>, chunk: Seq<u8>)
    requires
        chunk.len() > 0,
        head_of(buf + chunk) is Malformed,
    ensures
        read_action(read_step(buf, chunk)) == ActionView::Close(
            Failure::MalformedRequest(head_of(buf + chunk)->Malformed_0),
        ),
        read_phase(read_step(buf, chunk)) == Phase::Closed,
{
}

/// A handler failure ends the connection with `HandlerFailed`; nothing is
/// written.
pub proof fn handler_failure_closes()
    ensures
        handler_action(None) == ActionView::Close(Failure::HandlerFailed),
{
}

/// A read of zero bytes, the peer closing the stream, ends the connection
/// with `ConnectionClosed`; nothing is written.
pub proof fn empty_read_closes(buf: Seq<u8>)
    ensures
        read_action(read_step(buf, Seq::empty())) == ActionView::Close(Failure::ConnectionClosed),
        read_phase(read_step(buf, Seq::empty())) == Phase::Closed,
{
}

} // verus!
