//! The run loop: each tick activates the acceptor task, then the reader task.
//!
//! [`DiscardServer::advance`] is the schedule itself: it takes what the
//! driver's last socket call gave, runs the tasks as far as they go without
//! another socket call, and says which call comes next. A live driver needs
//! nothing else. [`DiscardServer::tick`] and [`DiscardServer::run`] follow the
//! same schedule over recorded outcomes, so that a whole exchange can be
//! replayed without a network.

use crate::peer::PeerAddr;
use crate::server::{
    accept_next, finish_next, finish_step, poll_next, poll_step, AcceptOutcome, AcceptReport,
    DiscardServer, Line, LineModel, ReadModel, ReadOutcome, ReaderStep, ServerModel, StepModel,
};
use vstd::prelude::*;

verus! {

/// Which socket failed.
#[derive(Clone, Copy, Debug, PartialEq, Eq, Structural)]
pub enum Fault {
    /// The listening socket.
    Accept,
    /// The socket of this peer.
    Read(PeerAddr),
}

/// The socket call that the schedule asks for next.
#[derive(Clone, Copy, Debug, PartialEq, Eq, Structural)]
pub enum Action {
    /// One non-blocking `accept` on the listening socket: a new tick begins.
    Accept,
    /// One non-blocking `read` on this peer's socket.
    Read(PeerAddr),
}

/// What the socket call that the schedule asked for gave.
#[derive(Clone, Debug, PartialEq, Eq)]
pub enum Event {
    /// The outcome of the `accept`.
    Accept(AcceptOutcome),
    /// The outcome of the read.
    Read(ReadOutcome),
}

/// An event as contracts see it.
pub enum EventModel {
    Accept(AcceptOutcome),
    Read(ReadModel),
}

impl View for Event {
    type V = EventModel;

    open spec fn view(&self) -> EventModel {
        match self {
            Event::Accept(o) => EventModel::Accept(*o),
            Event::Read(o) => EventModel::Read(o@),
        }
    }
}

/// What one step of the schedule did, and what the driver is to do next.
#[derive(Clone, Debug, PartialEq, Eq)]
pub struct Progress {
    /// The peer whose connection was enqueued.
    pub accepted: Option<PeerAddr>,
    /// The line for the line sink.
    pub line: Option<Line>,
    /// The peer whose connection is gone: the driver releases its socket.
    pub closed: Option<PeerAddr>,
    /// The socket that failed.
    pub fault: Option<Fault>,
    /// The next socket call.
    pub next: Action,
}

/// A step's report as contracts see it.
pub struct ProgressModel {
    pub accepted: Option<PeerAddr>,
    pub line: Option<LineModel>,
    pub closed: Option<PeerAddr>,
    pub fault: Option<Fault>,
    pub next: Action,
}

impl View for Progress {
    type V = ProgressModel;

    open spec fn view(&self) -> ProgressModel {
        ProgressModel {
            accepted: self.accepted,
            line: line_view(self.line),
            closed: self.closed,
            fault: self.fault,
            next: self.next,
        }
    }
}

/// State and report after one step of the schedule.
pub struct AdvanceResult {
    pub state: ServerModel,
    pub progress: ProgressModel,
}

/// The outcomes that one tick consumes: that of its `accept`, and that of the
/// read on whichever connection the reader task takes up. The second is
/// ignored where the reader task asks for no read.
#[derive(Clone, Debug, PartialEq, Eq)]
pub struct Tick {
    pub accept: AcceptOutcome,
    pub read: ReadOutcome,
}

/// A tick's outcomes as contracts see them.
pub struct TickModel {
    pub accept: AcceptOutcome,
    pub read: ReadModel,
}

impl View for Tick {
    type V = TickModel;

    open spec fn view(&self) -> TickModel {
        TickModel { accept: self.accept, read: self.read@ }
    }
}

/// What one tick produced.
#[derive(Clone, Debug, PartialEq, Eq)]
pub struct TickReport {
    /// The line for the line sink, if the reader task dispatched one.
    pub line: Option<Line>,
    /// The fault that ended the tick, if there was one.
    pub fault: Option<Fault>,
}

/// What a run produced.
#[derive(Clone, Debug, PartialEq, Eq)]
pub struct RunLog {
    /// Every line dispatched, in order.
    pub lines: Vec<Line>,
    /// The fault that stopped the run, if one did.
    pub fault: Option<Fault>,
}

/// State, line and fault after one tick.
pub struct TickResult {
    pub state: ServerModel,
    pub line: Option<LineModel>,
    pub fault: Option<Fault>,
}

/// State, lines and fault after a run.
pub struct RunResult {
    pub state: ServerModel,
    pub lines: Seq<LineModel>,
    pub fault: Option<Fault>,
}

/// The line of a report as contracts see it.
pub open spec fn line_view(line: Option<Line>) -> Option<LineModel> {
    match line {
        Some(l) => Some(l@),
        None => None,
    }
}

/// The lines of a log as contracts see them.
pub open spec fn line_views(lines: Seq<Line>) -> Seq<LineModel> {
    lines.map_values(|l: Line| l@)
}

/// The line that a step of the reader task dispatched, if it did.
pub open spec fn step_line(step: StepModel) -> Option<LineModel> {
    match step {
        StepModel::Dispatched(l) => Some(l),
        _ => None,
    }
}

/// The fault that a step of the reader task met, if it did.
pub open spec fn step_fault(step: StepModel) -> Option<Fault> {
    match step {
        StepModel::Fatal(peer) => Some(Fault::Read(peer)),
        _ => None,
    }
}

/// The peer whose connection a step of the reader task ended, if it did.
pub open spec fn step_closed(step: StepModel) -> Option<PeerAddr> {
    match step {
        StepModel::Closed(peer) => Some(peer),
        StepModel::Fatal(peer) => Some(peer),
        _ => None,
    }
}

/// The socket call that is due in state `s`: the read that the reader task
/// waits for, else the `accept` that opens the next tick.
pub open spec fn next_action(s: ServerModel) -> Action {
    match s.reading {
        Some(c) => Action::Read(c.peer),
        None => Action::Accept,
    }
}

/// One step of the schedule.
///
/// The outcome of an `accept` activates the acceptor task and then the reader
/// task, up to the read that the reader task may ask for; a fault on the
/// listening socket ends the step before the reader task runs. The outcome of
/// a read completes the reader task's activation.
pub open spec fn advance_result(s: ServerModel, e: EventModel) -> AdvanceResult {
    match e {
        EventModel::Accept(outcome) => if outcome == AcceptOutcome::Fault {
            AdvanceResult {
                state: s,
                progress: ProgressModel {
                    accepted: None,
                    line: None,
                    closed: None,
                    fault: Some(Fault::Accept),
                    next: next_action(s),
                },
            }
        } else {
            let accepted = accept_next(s, outcome);
            AdvanceResult {
                state: poll_next(accepted),
                progress: ProgressModel {
                    accepted: match outcome {
                        AcceptOutcome::Accepted(peer) => Some(peer),
                        _ => None,
                    },
                    line: step_line(poll_step(accepted)),
                    closed: None,
                    fault: None,
                    next: next_action(poll_next(accepted)),
                },
            }
        },
        EventModel::Read(outcome) => AdvanceResult {
            state: finish_next(s, outcome),
            progress: ProgressModel {
                accepted: None,
                line: step_line(finish_step(s, outcome)),
                closed: step_closed(finish_step(s, outcome)),
                fault: step_fault(finish_step(s, outcome)),
                next: next_action(finish_next(s, outcome)),
            },
        },
    }
}

/// One tick: the step that an `accept` opens, and the step of the read that
/// it asks for, if it asks for one.
pub open spec fn tick_result(s: ServerModel, t: TickModel) -> TickResult {
    let opened = advance_result(s, EventModel::Accept(t.accept));
    if opened.progress.fault is None && opened.progress.next is Read {
        let read = advance_result(opened.state, EventModel::Read(t.read));
        TickResult { state: read.state, line: read.progress.line, fault: read.progress.fault }
    } else {
        TickResult {
            state: opened.state,
            line: opened.progress.line,
            fault: opened.progress.fault,
        }
    }
}

/// The lines that one step hands to the line sink: one or none.
pub open spec fn emitted(line: Option<LineModel>) -> Seq<LineModel> {
    match line {
        Some(l) => seq![l],
        None => Seq::empty(),
    }
}

/// The ticks of `script` in order, up to and including the first that faults.
pub open spec fn run_result(s: ServerModel, script: Seq<TickModel>) -> RunResult
    decreases script.len(),
{
    if script.len() == 0 {
        RunResult { state: s, lines: Seq::empty(), fault: None }
    } else {
        let t = tick_result(s, script[0]);
        if t.fault is Some {
            RunResult { state: t.state, lines: emitted(t.line), fault: t.fault }
        } else {
            let rest = run_result(t.state, script.drop_first());
            RunResult { state: rest.state, lines: emitted(t.line) + rest.lines, fault: rest.fault }
        }
    }
}

/// A script as contracts see it.
pub open spec fn tick_views(script: Seq<Tick>) -> Seq<TickModel> {
    script.map_values(|t: Tick| t@)
}

impl ReadOutcome {
    /// A copy of this outcome.
    pub fn duplicate(&self) -> (copy: ReadOutcome)
        ensures
            copy@ == self@,
    {
        match self {
            ReadOutcome::Data(data) => {
                let mut bytes: Vec<u8> = Vec::new();
                let mut i: usize = 0;
                while i < data.len()
                    invariant
                        i <= data.len(),
                        bytes@ == data@.subrange(0, i as int),
                    decreases data.len() - i,
                {
                    bytes.push(data[i]);
                    i += 1;
                    assert(bytes@ =~= data@.subrange(0, i as int));
                }
                assert(bytes@ =~= data@);
                ReadOutcome::Data(bytes)
            },
            ReadOutcome::WouldBlock => ReadOutcome::WouldBlock,
            ReadOutcome::Fault => ReadOutcome::Fault,
        }
    }
}

impl DiscardServer {
    /// The socket call that is due: the first thing a driver asks, and after
    /// every step the same as that step's `next`.
    pub fn next_action(&self) -> (action: Action)
        ensures
            action == next_action(self@),
    {
        match self.reading_peer() {
            Some(peer) => Action::Read(peer),
            None => Action::Accept,
        }
    }

    /// One step of the schedule, given what the socket call that was due gave.
    ///
    /// An event that was not due is taken all the same: an `accept` outcome
    /// while a read is awaited activates the acceptor task and leaves the
    /// read awaited; a read outcome while none is awaited changes nothing.
    pub fn advance(&mut self, event: Event) -> (progress: Progress)
        ensures
            final(self)@ == advance_result(old(self)@, event@).state,
            progress@ == advance_result(old(self)@, event@).progress,
    {
        match event {
            Event::Accept(outcome) => match self.accept_step(outcome) {
                AcceptReport::Fatal => Progress {
                    accepted: None,
                    line: None,
                    closed: None,
                    fault: Some(Fault::Accept),
                    next: self.next_action(),
                },
                report => {
                    let accepted = match report {
                        AcceptReport::Enqueued(peer) => Some(peer),
                        _ => None,
                    };
                    let line = match self.reader_poll() {
                        ReaderStep::Dispatched(line) => Some(line),
                        _ => None,
                    };
                    Progress { accepted, line, closed: None, fault: None, next: self.next_action() }
                },
            },
            Event::Read(outcome) => {
                let step = self.reader_finish(outcome);
                let next = self.next_action();
                match step {
                    ReaderStep::Dispatched(line) => Progress {
                        accepted: None,
                        line: Some(line),
                        closed: None,
                        fault: None,
                        next,
                    },
                    ReaderStep::Closed(peer) => Progress {
                        accepted: None,
                        line: None,
                        closed: Some(peer),
                        fault: None,
                        next,
                    },
                    ReaderStep::Fatal(peer) => Progress {
                        accepted: None,
                        line: None,
                        closed: Some(peer),
                        fault: Some(Fault::Read(peer)),
                        next,
                    },
                    _ => Progress { accepted: None, line: None, closed: None, fault: None, next },
                }
            },
        }
    }

    /// One scheduler tick over recorded outcomes: the acceptor task's
    /// activation, then the reader task's.
    pub fn tick(&mut self, accept: AcceptOutcome, read: ReadOutcome) -> (report: TickReport)
        ensures
            final(self)@ == tick_result(old(self)@, TickModel { accept, read: read@ }).state,
            line_view(report.line) == tick_result(
                old(self)@,
                TickModel { accept, read: read@ },
            ).line,
            report.fault == tick_result(old(self)@, TickModel { accept, read: read@ }).fault,
    {
        let opened = self.advance(Event::Accept(accept));
        if opened.fault.is_none() {
            match opened.next {
                Action::Read(_) => {
                    let read = self.advance(Event::Read(read));
                    return TickReport { line: read.line, fault: read.fault };
                },
                Action::Accept => {},
            }
        }
        TickReport { line: opened.line, fault: opened.fault }
    }

    /// Runs the scheduler over `script`, one tick per entry, and stops behind
    /// the first tick that faults.
    pub fn run(&mut self, script: &Vec<Tick>) -> (log: RunLog)
        ensures
            final(self)@ == run_result(old(self)@, tick_views(script@)).state,
            line_views(log.lines@) == run_result(old(self)@, tick_views(script@)).lines,
            log.fault == run_result(old(self)@, tick_views(script@)).fault,
    {
        let ghost ticks = tick_views(script@);
        let mut lines: Vec<Line> = Vec::new();
        let mut i: usize = 0;
        assert(ticks.skip(0) =~= ticks);
        assert(line_views(lines@) =~= Seq::empty());
        while i < script.len()
            invariant
                i <= script.len(),
                ticks == tick_views(script@),
                run_result(old(self)@, ticks).state == run_result(self@, ticks.skip(i as int)).state,
                run_result(old(self)@, ticks).lines == line_views(lines@) + run_result(
                    self@,
                    ticks.skip(i as int),
                ).lines,
                run_result(old(self)@, ticks).fault == run_result(self@, ticks.skip(i as int)).fault,
            decreases script.len() - i,
        {
            let ghost before = self@;
            let ghost so_far = line_views(lines@);
            let ghost rest = ticks.skip(i as int);
            assert(rest[0] == script@[i as int]@);
            assert(rest.drop_first() =~= ticks.skip(i + 1));
            let report = self.tick(script[i].accept, script[i].read.duplicate());
            assert(TickModel { accept: script@[i as int].accept, read: script@[i as int].read@ }
                == rest[0]);
            let ghost t = tick_result(before, rest[0]);
            match report.line {
                Some(line) => {
                    lines.push(line);
                    assert(line_views(lines@) =~= so_far + emitted(t.line));
                },
                None => {
                    assert(line_views(lines@) =~= so_far + emitted(t.line));
                },
            }
            if report.fault.is_some() {
                return RunLog { lines, fault: report.fault };
            }
            assert(so_far + (emitted(t.line) + run_result(self@, ticks.skip(i + 1)).lines) =~= (
                so_far + emitted(t.line)) + run_result(self@, ticks.skip(i + 1)).lines);
            i += 1;
        }
        assert(line_views(lines@) + Seq::<LineModel>::empty() =~= line_views(lines@));
        RunLog { lines, fault: None }
    }
}

} // verus!
