//! The scheduler's two tasks as one state machine over a hand-off queue.
//!
//! The acceptor task enqueues each accepted peer at the back of the queue.
//! The reader task takes the connection at the front, serves at most one line
//! from it, and puts it back at the back unless the peer has gone. A driver
//! does the socket work between the calls: one non-blocking `accept` before
//! [`DiscardServer::accept_step`], and one non-blocking `read` whenever
//! [`DiscardServer::reader_poll`] asks for it.

use crate::line::{after_line, has_newline, line_text, line_wire_len, take_line};
use crate::peer::PeerAddr;
use std::collections::VecDeque;
use vstd::prelude::*;

verus! {

/// One accepted peer with the bytes received from it that no line has used yet.
struct Connection {
    peer: PeerAddr,
    pending: Vec<u8>,
}

/// What a queue entry stands for: the peer and its buffered bytes.
pub struct ConnModel {
    pub peer: PeerAddr,
    pub pending: Seq<u8>,
}

/// The server's state: the queue from front to back, and the connection the
/// reader task holds while the driver reads its socket.
pub struct ServerModel {
    pub queue: Seq<ConnModel>,
    pub reading: Option<ConnModel>,
}

/// A complete line handed to the line sink.
#[derive(Clone, Debug, PartialEq, Eq)]
pub struct Line {
    /// The peer that sent it.
    pub peer: PeerAddr,
    /// The line's bytes without trailing whitespace. Assumed, not checked, to be UTF-8.
    pub text: Vec<u8>,
    /// Bytes the line took on the wire, newline included.
    pub wire_len: usize,
}

/// A line as contracts see it.
pub struct LineModel {
    pub peer: PeerAddr,
    pub text: Seq<u8>,
    pub wire_len: nat,
}

impl View for Line {
    type V = LineModel;

    open spec fn view(&self) -> LineModel {
        LineModel { peer: self.peer, text: self.text@, wire_len: self.wire_len as nat }
    }
}

/// What one non-blocking `accept` gave.
#[derive(Clone, Copy, Debug, PartialEq, Eq, Structural)]
pub enum AcceptOutcome {
    /// A peer connected.
    Accepted(PeerAddr),
    /// No connection is waiting.
    WouldBlock,
    /// Any other error.
    Fault,
}

/// What the acceptor task did with an outcome.
#[derive(Clone, Copy, Debug, PartialEq, Eq, Structural)]
pub enum AcceptReport {
    /// The peer's connection now stands at the back of the queue.
    Enqueued(PeerAddr),
    /// Nothing was waiting; nothing changed.
    Idle,
    /// The listening socket failed; nothing changed. The driver decides whether to stop.
    Fatal,
}

/// What one non-blocking `read` gave.
#[derive(Clone, Debug, PartialEq, Eq)]
pub enum ReadOutcome {
    /// The bytes read. No bytes at all means that the peer closed the stream.
    Data(Vec<u8>),
    /// No bytes are available yet.
    WouldBlock,
    /// Any other error.
    Fault,
}

/// A read's outcome as contracts see it.
pub enum ReadModel {
    Data(Seq<u8>),
    WouldBlock,
    Fault,
}

impl View for ReadOutcome {
    type V = ReadModel;

    open spec fn view(&self) -> ReadModel {
        match self {
            ReadOutcome::Data(d) => ReadModel::Data(d@),
            ReadOutcome::WouldBlock => ReadModel::WouldBlock,
            ReadOutcome::Fault => ReadModel::Fault,
        }
    }
}

/// What the reader task did, or asks the driver to do.
#[derive(Clone, Debug, PartialEq, Eq)]
pub enum ReaderStep {
    /// No connection to serve: the task yields.
    Idle,
    /// The connection at the front has no complete line buffered: the driver
    /// reads this peer's socket once and calls `reader_finish`.
    Read(PeerAddr),
    /// One complete line goes to the line sink; its connection is back in the queue.
    Dispatched(Line),
    /// No complete line yet; the connection is back in the queue.
    Waiting(PeerAddr),
    /// The peer closed the stream; its connection is gone.
    Closed(PeerAddr),
    /// The peer's socket failed; its connection is gone. The driver decides whether to stop.
    Fatal(PeerAddr),
}

/// A step of the reader task as contracts see it.
pub enum StepModel {
    Idle,
    Read(PeerAddr),
    Dispatched(LineModel),
    Waiting(PeerAddr),
    Closed(PeerAddr),
    Fatal(PeerAddr),
}

impl View for ReaderStep {
    type V = StepModel;

    open spec fn view(&self) -> StepModel {
        match self {
            ReaderStep::Idle => StepModel::Idle,
            ReaderStep::Read(p) => StepModel::Read(*p),
            ReaderStep::Dispatched(l) => StepModel::Dispatched(l@),
            ReaderStep::Waiting(p) => StepModel::Waiting(*p),
            ReaderStep::Closed(p) => StepModel::Closed(*p),
            ReaderStep::Fatal(p) => StepModel::Fatal(*p),
        }
    }
}

/// The state with no connection at all.
pub open spec fn idle_server() -> ServerModel {
    ServerModel { queue: Seq::empty(), reading: None }
}

/// The first line of `buf` as `peer` sent it.
pub open spec fn first_line(peer: PeerAddr, buf: Seq<u8>) -> LineModel {
    LineModel { peer, text: line_text(buf), wire_len: line_wire_len(buf) }
}

/// State after the connection of `peer` has gone to the back with `pending` as its buffer.
pub open spec fn requeue(s: ServerModel, peer: PeerAddr, pending: Seq<u8>) -> ServerModel {
    ServerModel { queue: s.queue.push(ConnModel { peer, pending }), reading: None }
}

/// State after one activation of the acceptor task.
pub open spec fn accept_next(s: ServerModel, outcome: AcceptOutcome) -> ServerModel {
    match outcome {
        AcceptOutcome::Accepted(peer) => ServerModel {
            queue: s.queue.push(ConnModel { peer, pending: Seq::empty() }),
            reading: s.reading,
        },
        _ => s,
    }
}

/// What the acceptor task reports for an outcome.
pub open spec fn accept_report(outcome: AcceptOutcome) -> AcceptReport {
    match outcome {
        AcceptOutcome::Accepted(peer) => AcceptReport::Enqueued(peer),
        AcceptOutcome::WouldBlock => AcceptReport::Idle,
        AcceptOutcome::Fault => AcceptReport::Fatal,
    }
}

/// State after the reader task has taken up the front of the queue.
pub open spec fn poll_next(s: ServerModel) -> ServerModel {
    if s.reading is Some || s.queue.len() == 0 {
        s
    } else {
        let c = s.queue[0];
        let rest = ServerModel { queue: s.queue.drop_first(), reading: None };
        if has_newline(c.pending) {
            requeue(rest, c.peer, after_line(c.pending))
        } else {
            ServerModel { queue: rest.queue, reading: Some(c) }
        }
    }
}

/// What the reader task answers when it takes up the front of the queue.
pub open spec fn poll_step(s: ServerModel) -> StepModel {
    match s.reading {
        Some(c) => StepModel::Read(c.peer),
        None => if s.queue.len() == 0 {
            StepModel::Idle
        } else {
            let c = s.queue[0];
            if has_newline(c.pending) {
                StepModel::Dispatched(first_line(c.peer, c.pending))
            } else {
                StepModel::Read(c.peer)
            }
        },
    }
}

/// State after the reader task has been given the outcome of the read it asked for.
pub open spec fn finish_next(s: ServerModel, outcome: ReadModel) -> ServerModel {
    match s.reading {
        None => s,
        Some(c) => {
            let gone = ServerModel { queue: s.queue, reading: None };
            match outcome {
                ReadModel::Data(d) => if d.len() == 0 {
                    gone
                } else if has_newline(c.pending + d) {
                    requeue(gone, c.peer, after_line(c.pending + d))
                } else {
                    requeue(gone, c.peer, c.pending + d)
                },
                ReadModel::WouldBlock => requeue(gone, c.peer, c.pending),
                ReadModel::Fault => gone,
            }
        },
    }
}

/// What the reader task reports for the outcome of the read it asked for.
pub open spec fn finish_step(s: ServerModel, outcome: ReadModel) -> StepModel {
    match s.reading {
        None => StepModel::Idle,
        Some(c) => match outcome {
            ReadModel::Data(d) => if d.len() == 0 {
                StepModel::Closed(c.peer)
            } else if has_newline(c.pending + d) {
                StepModel::Dispatched(first_line(c.peer, c.pending + d))
            } else {
                StepModel::Waiting(c.peer)
            },
            ReadModel::WouldBlock => StepModel::Waiting(c.peer),
            ReadModel::Fault => StepModel::Fatal(c.peer),
        },
    }
}

/// The cooperative core of the discard service.
pub struct DiscardServer {
    queue: VecDeque<Connection>,
    held: Option<Connection>,
}

impl Connection {
    spec fn model(self) -> ConnModel {
        ConnModel { peer: self.peer, pending: self.pending@ }
    }
}

spec fn models(q: Seq<Connection>) -> Seq<ConnModel> {
    q.map_values(|c: Connection| c.model())
}

impl View for DiscardServer {
    type V = ServerModel;

    closed spec fn view(&self) -> ServerModel {
        ServerModel {
            queue: models(self.queue@),
            reading: match self.held {
                Some(c) => Some(c.model()),
                None => None,
            },
        }
    }
}

impl DiscardServer {
    /// A server with an empty queue.
    pub fn new() -> (server: Self)
        ensures
            server@ == idle_server(),
    {
        let server = DiscardServer { queue: VecDeque::new(), held: None };
        assert(models(server.queue@) =~= Seq::empty());
        server
    }

    /// Number of connections waiting in the queue.
    pub fn queue_len(&self) -> (n: usize)
        ensures
            n == self@.queue.len(),
    {
        self.queue.len()
    }

    /// Whether the reader task holds a connection whose socket the driver is to read.
    pub fn is_reading(&self) -> (b: bool)
        ensures
            b == (self@.reading is Some),
    {
        self.held.is_some()
    }

    /// The peer of the connection that the reader task holds, if it holds one.
    pub fn reading_peer(&self) -> (peer: Option<PeerAddr>)
        ensures
            peer == match self@.reading {
                Some(c) => Some(c.peer),
                None => None,
            },
    {
        match &self.held {
            Some(c) => Some(c.peer),
            None => None,
        }
    }

    fn enqueue(&mut self, conn: Connection)
        ensures
            final(self)@.queue == old(self)@.queue.push(conn.model()),
            final(self)@.reading == old(self)@.reading,
    {
        self.queue.push_back(conn);
        assert(models(self.queue@) =~= models(old(self).queue@).push(conn.model()));
    }

    /// One activation of the acceptor task, given what its one `accept` returned.
    ///
    /// An accepted peer goes to the back of the queue with an empty buffer.
    /// Any other outcome leaves the state as it was.
    pub fn accept_step(&mut self, outcome: AcceptOutcome) -> (report: AcceptReport)
        ensures
            final(self)@ == accept_next(old(self)@, outcome),
            report == accept_report(outcome),
    {
        match outcome {
            AcceptOutcome::Accepted(peer) => {
                self.enqueue(Connection { peer, pending: Vec::new() });
                AcceptReport::Enqueued(peer)
            },
            AcceptOutcome::WouldBlock => AcceptReport::Idle,
            AcceptOutcome::Fault => AcceptReport::Fatal,
        }
    }

    /// First half of one activation of the reader task.
    ///
    /// Takes the connection at the front of the queue, if there is one. A
    /// complete line already buffered is dispatched at once and the connection
    /// goes to the back. Otherwise the connection is held and the driver is
    /// asked to read its socket. While a connection is held, the answer is the
    /// same request again and nothing changes.
    pub fn reader_poll(&mut self) -> (step: ReaderStep)
        ensures
            final(self)@ == poll_next(old(self)@),
            step@ == poll_step(old(self)@),
    {
        match &self.held {
            Some(c) => {
                return ReaderStep::Read(c.peer);
            },
            None => {},
        }
        match self.queue.pop_front() {
            None => ReaderStep::Idle,
            Some(conn) => {
                assert(models(self.queue@) =~= models(old(self).queue@).drop_first());
                assert(models(old(self).queue@)[0] == conn.model());
                let mut conn = conn;
                let peer = conn.peer;
                match take_line(&mut conn.pending) {
                    Some((text, wire_len)) => {
                        self.enqueue(conn);
                        ReaderStep::Dispatched(Line { peer, text, wire_len })
                    },
                    None => {
                        self.held = Some(conn);
                        ReaderStep::Read(peer)
                    },
                }
            },
        }
    }

    /// Second half of one activation of the reader task, given what the read
    /// that `reader_poll` asked for returned.
    ///
    /// The bytes join the connection's buffer. No bytes at all, or a fault,
    /// ends the connection: it is not enqueued again, and whatever it had
    /// buffered without a newline is never dispatched. Otherwise the
    /// connection goes to the back of the queue, and the first complete line
    /// of its buffer, if there is one now, is dispatched. Where no connection
    /// is held, nothing changes.
    pub fn reader_finish(&mut self, outcome: ReadOutcome) -> (step: ReaderStep)
        ensures
            final(self)@ == finish_next(old(self)@, outcome@),
            step@ == finish_step(old(self)@, outcome@),
    {
        match self.held.take() {
            None => ReaderStep::Idle,
            Some(conn) => {
                let mut conn = conn;
                let peer = conn.peer;
                match outcome {
                    ReadOutcome::Data(data) => {
                        let mut data = data;
                        if data.len() == 0 {
                            ReaderStep::Closed(peer)
                        } else {
                            conn.pending.append(&mut data);
                            match take_line(&mut conn.pending) {
                                Some((text, wire_len)) => {
                                    self.enqueue(conn);
                                    ReaderStep::Dispatched(Line { peer, text, wire_len })
                                },
                                None => {
                                    self.enqueue(conn);
                                    ReaderStep::Waiting(peer)
                                },
                            }
                        }
                    },
                    ReadOutcome::WouldBlock => {
                        self.enqueue(conn);
                        ReaderStep::Waiting(peer)
                    },
                    ReadOutcome::Fault => ReaderStep::Fatal(peer),
                }
            },
        }
    }
}

} // verus!
