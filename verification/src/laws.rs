//! What holds of the framing and of the scheduler for every input.

use crate::line::{
    after_line, complete_lines, has_newline, is_space, lemma_newline_pos, lemma_newline_pos_is,
    lemma_trim_end, line_text, newline_pos, trim_end, unfinished, NEWLINE,
};
use crate::peer::PeerAddr;
use crate::scheduler::{
    advance_result, emitted, next_action, run_result, step_line, tick_result, Action, EventModel,
    Fault, TickModel,
};
use crate::server::{
    accept_next, finish_next, finish_step, idle_server, poll_next, poll_step, AcceptOutcome,
    ConnModel, LineModel, ReadModel, ServerModel, StepModel,
};
use vstd::prelude::*;

verus! {

/// The texts of the lines in `lines`.
pub open spec fn texts(lines: Seq<LineModel>) -> Seq<Seq<u8>> {
    lines.map_values(|l: LineModel| l.text)
}

/// Number of connections the server knows: those queued and the one being read.
pub open spec fn live(s: ServerModel) -> nat {
    s.queue.len() + if s.reading is Some { 1nat } else { 0nat }
}

/// A first line of `a` is the first line of `a + b` too, and `b` joins what follows it.
pub proof fn lemma_first_line_of_prefix(a: Seq<u8>, b: Seq<u8>)
    requires
        has_newline(a),
    ensures
        has_newline(a + b),
        newline_pos(a + b) == newline_pos(a),
        line_text(a + b) == line_text(a),
        after_line(a + b) == after_line(a) + b,
{
    lemma_newline_pos(a);
    let p = newline_pos(a) as int;
    assert((a + b)[p] == a[p]);
    assert forall|i: int| 0 <= i < p implies (a + b)[i] != NEWLINE by {
        assert((a + b)[i] == a[i]);
    }
    lemma_newline_pos_is(a + b, p);
    assert((a + b).subrange(0, p + 1) =~= a.subrange(0, p + 1));
    assert(after_line(a + b) =~= after_line(a) + b);
}

/// A line's text is what stands before its newline, without the whitespace
/// at the end of that. It holds no newline and does not end in whitespace.
pub proof fn lemma_line_text(s: Seq<u8>)
    requires
        has_newline(s),
    ensures
        line_text(s) == trim_end(s.subrange(0, newline_pos(s) as int)),
        line_text(s).len() <= newline_pos(s),
        line_text(s) == s.subrange(0, line_text(s).len() as int),
        forall|i: int| 0 <= i < line_text(s).len() ==> line_text(s)[i] != NEWLINE,
        line_text(s).len() > 0 ==> !is_space(line_text(s).last()),
{
    lemma_newline_pos(s);
    let p = newline_pos(s) as int;
    let whole = s.subrange(0, p + 1);
    let body = s.subrange(0, p);
    assert(whole.last() == NEWLINE);
    assert(whole.drop_last() =~= body);
    lemma_trim_end(body);
    let n = trim_end(body).len() as int;
    assert(body.subrange(0, n) =~= s.subrange(0, n));
}

/// How a byte stream is cut into reads does not change its lines: the lines
/// of `a` followed by `b` are those of `a`, then those of `b` behind what `a`
/// left unfinished. Bytes without a newline give no line until the newline
/// arrives, and then they are part of that line.
pub proof fn lemma_lines_survive_chunking(a: Seq<u8>, b: Seq<u8>)
    ensures
        complete_lines(a + b) == complete_lines(a) + complete_lines(unfinished(a) + b),
        unfinished(a + b) == unfinished(unfinished(a) + b),
        !has_newline(a) ==> complete_lines(a).len() == 0 && unfinished(a) == a,
    decreases a.len(),
{
    if has_newline(a) {
        lemma_first_line_of_prefix(a, b);
        lemma_newline_pos(a);
        lemma_lines_survive_chunking(after_line(a), b);
        assert(seq![line_text(a)] + (complete_lines(after_line(a)) + complete_lines(
            unfinished(a) + b,
        )) =~= (seq![line_text(a)] + complete_lines(after_line(a))) + complete_lines(
            unfinished(a) + b,
        ));
    } else {
        assert(complete_lines(a) + complete_lines(a + b) =~= complete_lines(a + b));
    }
}

/// Serving a connection neither loses nor repeats a line: when the reader
/// task is given bytes for the connection it holds, the line it dispatches,
/// followed by the lines of the buffer it keeps, are exactly the lines of the
/// old buffer followed by the new bytes. The line carries the connection's
/// peer, and the rest of the queue is untouched.
pub proof fn lemma_read_conserves_lines(s: ServerModel, c: ConnModel, data: Seq<u8>)
    requires
        s.reading == Some(c),
        data.len() > 0,
    ensures
        finish_next(s, ReadModel::Data(data)).reading is None,
        finish_next(s, ReadModel::Data(data)).queue.drop_last() == s.queue,
        finish_next(s, ReadModel::Data(data)).queue.last().peer == c.peer,
        texts(emitted(step_line(finish_step(s, ReadModel::Data(data)))))
            + complete_lines(finish_next(s, ReadModel::Data(data)).queue.last().pending)
            == complete_lines(c.pending + data),
        match finish_step(s, ReadModel::Data(data)) {
            StepModel::Dispatched(l) => l.peer == c.peer,
            StepModel::Waiting(p) => p == c.peer,
            _ => false,
        },
{
    let step = finish_step(s, ReadModel::Data(data));
    let next = finish_next(s, ReadModel::Data(data));
    let buf = c.pending + data;
    assert(next.queue.drop_last() =~= s.queue);
    let out = texts(emitted(step_line(step)));
    if has_newline(buf) {
        assert(out =~= seq![line_text(buf)]);
    } else {
        assert(out =~= Seq::empty());
        assert(out + complete_lines(buf) =~= complete_lines(buf));
    }
}

/// The books of one connection are in order: the lines of everything it has
/// `received` are those `dispatched` so far followed by those still in its
/// buffer, and the line it is still receiving is the one its buffer ends in.
pub open spec fn accounted(received: Seq<u8>, dispatched: Seq<Seq<u8>>, pending: Seq<u8>) -> bool {
    &&& complete_lines(received) == dispatched + complete_lines(pending)
    &&& unfinished(received) == unfinished(pending)
}

/// A new connection's books are in order.
pub proof fn lemma_accounted_at_accept()
    ensures
        accounted(Seq::empty(), Seq::empty(), Seq::empty()),
{
    let none = Seq::<Seq<u8>>::empty();
    assert(none + complete_lines(Seq::<u8>::empty()) =~= complete_lines(Seq::<u8>::empty()));
    assert(newline_pos(Seq::<u8>::empty()) == 0);
}

/// A read keeps a connection's books in order, over any number of reads and
/// however the peer's bytes are cut: every line that was received whole is
/// dispatched once or still buffered, in the order it was sent, and nothing
/// else is dispatched.
pub proof fn lemma_read_keeps_account(
    s: ServerModel,
    c: ConnModel,
    data: Seq<u8>,
    received: Seq<u8>,
    dispatched: Seq<Seq<u8>>,
)
    requires
        s.reading == Some(c),
        data.len() > 0,
        accounted(received, dispatched, c.pending),
    ensures
        accounted(
            received + data,
            dispatched + texts(emitted(step_line(finish_step(s, ReadModel::Data(data))))),
            finish_next(s, ReadModel::Data(data)).queue.last().pending,
        ),
{
    let buf = c.pending + data;
    let out = texts(emitted(step_line(finish_step(s, ReadModel::Data(data)))));
    let kept = finish_next(s, ReadModel::Data(data)).queue.last().pending;
    lemma_read_conserves_lines(s, c, data);
    lemma_lines_survive_chunking(received, data);
    lemma_lines_survive_chunking(c.pending, data);
    let tail = complete_lines(unfinished(c.pending) + data);
    assert((dispatched + complete_lines(c.pending)) + tail =~= dispatched + (complete_lines(
        c.pending,
    ) + tail));
    assert(dispatched + (out + complete_lines(kept)) =~= (dispatched + out) + complete_lines(
        kept,
    ));
    assert(unfinished(kept) == unfinished(buf));
}

/// Dispatching a buffered line keeps a connection's books in order.
pub proof fn lemma_poll_keeps_account(s: ServerModel, received: Seq<u8>, dispatched: Seq<Seq<u8>>)
    requires
        s.reading is None,
        s.queue.len() > 0,
        accounted(received, dispatched, s.queue[0].pending),
    ensures
        match poll_step(s) {
            StepModel::Dispatched(l) => accounted(
                received,
                dispatched.push(l.text),
                poll_next(s).queue.last().pending,
            ),
            _ => poll_next(s).reading == Some(s.queue[0]),
        },
{
    let c = s.queue[0];
    if has_newline(c.pending) {
        let kept = after_line(c.pending);
        assert(dispatched.push(line_text(c.pending)) + complete_lines(kept) =~= dispatched + (
            seq![line_text(c.pending)] + complete_lines(kept)));
    }
}

/// Taking up the front of the queue neither loses nor repeats a line: either
/// the connection is held as it was, or its first buffered line is dispatched
/// under its peer and the connection goes to the back with the rest.
pub proof fn lemma_poll_conserves_lines(s: ServerModel)
    requires
        s.reading is None,
        s.queue.len() > 0,
    ensures
        match poll_step(s) {
            StepModel::Read(p) => {
                &&& p == s.queue[0].peer
                &&& poll_next(s).reading == Some(s.queue[0])
                &&& poll_next(s).queue == s.queue.drop_first()
                &&& complete_lines(s.queue[0].pending).len() == 0
            },
            StepModel::Dispatched(l) => {
                &&& l.peer == s.queue[0].peer
                &&& poll_next(s).reading is None
                &&& poll_next(s).queue.drop_last() == s.queue.drop_first()
                &&& poll_next(s).queue.last().peer == s.queue[0].peer
                &&& seq![l.text] + complete_lines(poll_next(s).queue.last().pending)
                    == complete_lines(s.queue[0].pending)
            },
            _ => false,
        },
{
    let c = s.queue[0];
    if has_newline(c.pending) {
        assert(poll_next(s).queue.drop_last() =~= s.queue.drop_first());
    }
}

/// A connection that sends one line and then closes gives exactly one line,
/// under its own peer, and is gone afterwards: the read that brings the line
/// dispatches it and leaves the buffer empty, the next turn finds nothing
/// buffered and asks for a read, and the read that finds the stream closed
/// dispatches nothing and does not enqueue the connection again.
pub proof fn lemma_one_line_then_close(s: ServerModel, peer: PeerAddr, sent: Seq<u8>)
    requires
        s.reading == Some(ConnModel { peer, pending: Seq::empty() }),
        sent.len() > 0,
        newline_pos(sent) == sent.len() - 1,
    ensures
        finish_step(s, ReadModel::Data(sent)) == StepModel::Dispatched(
            LineModel { peer, text: trim_end(sent), wire_len: sent.len() },
        ),
        finish_next(s, ReadModel::Data(sent)) == (ServerModel {
            queue: s.queue.push(ConnModel { peer, pending: Seq::empty() }),
            reading: None,
        }),
        poll_step(
            ServerModel { queue: seq![ConnModel { peer, pending: Seq::empty() }], reading: None },
        ) == StepModel::Read(peer),
        finish_step(s, ReadModel::Data(Seq::empty())) == StepModel::Closed(peer),
        finish_next(s, ReadModel::Data(Seq::empty())) == (ServerModel {
            queue: s.queue,
            reading: None,
        }),
{
    let buf = Seq::<u8>::empty() + sent;
    assert(buf =~= sent);
    assert(sent.subrange(0, sent.len() as int) =~= sent);
    assert(after_line(sent) =~= Seq::<u8>::empty());
    assert(newline_pos(Seq::<u8>::empty()) == 0);
}

/// A peer that closes its stream leaves nothing behind: no line is
/// dispatched, not even from bytes it had sent without a newline, and its
/// connection is not enqueued again.
pub proof fn lemma_close_leaves_nothing(s: ServerModel, c: ConnModel)
    requires
        s.reading == Some(c),
    ensures
        finish_step(s, ReadModel::Data(Seq::empty())) == StepModel::Closed(c.peer),
        finish_next(s, ReadModel::Data(Seq::empty())).queue == s.queue,
        finish_next(s, ReadModel::Data(Seq::empty())).reading is None,
        live(finish_next(s, ReadModel::Data(Seq::empty()))) == live(s) - 1,
{
}

/// A connection that is accepted and closes before it sends a line takes the
/// server back to where it was: one tick on an idle server, no line, no fault.
pub proof fn lemma_clean_teardown(peer: PeerAddr)
    ensures
        tick_result(
            idle_server(),
            TickModel { accept: AcceptOutcome::Accepted(peer), read: ReadModel::Data(Seq::empty()) },
        ).state == idle_server(),
        tick_result(
            idle_server(),
            TickModel { accept: AcceptOutcome::Accepted(peer), read: ReadModel::Data(Seq::empty()) },
        ).line is None,
        tick_result(
            idle_server(),
            TickModel { accept: AcceptOutcome::Accepted(peer), read: ReadModel::Data(Seq::empty()) },
        ).fault is None,
{
    let t = TickModel {
        accept: AcceptOutcome::Accepted(peer),
        read: ReadModel::Data(Seq::empty()),
    };
    let accepted = accept_next(idle_server(), t.accept);
    assert(accepted.queue[0].pending.len() == 0);
    assert(newline_pos(accepted.queue[0].pending) == 0);
    assert(accepted.queue.drop_first() =~= Seq::empty());
    assert(tick_result(idle_server(), t).state.queue =~= Seq::empty());
}

/// The reader task never starves the acceptor: in every state, whatever the
/// reader task holds or finds, a tick whose `accept` succeeds takes the new
/// connection in. Where others were waiting it stands behind all of them but
/// the one just served.
pub proof fn lemma_accept_is_never_starved(s: ServerModel, t: TickModel, peer: PeerAddr)
    requires
        t.accept == AcceptOutcome::Accepted(peer),
    ensures
        accept_next(s, t.accept).queue == s.queue.push(
            ConnModel { peer, pending: Seq::empty() },
        ),
        tick_result(s, t).fault != Some(Fault::Accept),
        s.reading is None && s.queue.len() > 0 ==> tick_result(s, t).state.queue[s.queue.len()
            - 1] == (ConnModel { peer, pending: Seq::empty() }),
{
}

/// The schedule keeps both tasks in turn. The step that takes the outcome of
/// a read is always followed by an `accept`, so of any two steps in a row at
/// least one activates the acceptor task. The step that takes the outcome of
/// an `accept` always activates the reader task as well: where connections
/// wait, it either dispatches a buffered line of the one at the front or asks
/// for a read on it.
pub proof fn lemma_schedule_alternates(s: ServerModel, e: EventModel)
    ensures
        advance_result(s, e).progress.next == next_action(advance_result(s, e).state),
        e is Read ==> advance_result(s, e).progress.next == Action::Accept,
        e is Accept && advance_result(s, e).progress.fault is None && s.reading is None
            && s.queue.len() > 0 ==> {
            ||| advance_result(s, e).progress.next == Action::Read(s.queue[0].peer)
            ||| (advance_result(s, e).progress.line matches Some(l) && l.peer == s.queue[0].peer)
        },
{
}

/// The acceptor never starves the reader task, and no connection waits
/// forever: in a tick without a fault on the listening socket, every
/// connection behind the front moves one place forward, whatever the
/// outcomes are. One at place `k` is served within `k + 1` ticks.
pub proof fn lemma_queue_advances(s: ServerModel, t: TickModel, k: int)
    requires
        s.reading is None,
        t.accept != AcceptOutcome::Fault,
        0 < k < s.queue.len(),
    ensures
        tick_result(s, t).state.queue.len() >= s.queue.len() - 1,
        tick_result(s, t).state.queue[k - 1] == s.queue[k],
        tick_result(s, t).state.reading is None,
{
}

/// A tick serves the front of the queue and nothing else: the line it
/// dispatches, if any, is from the peer that stood at the front.
pub proof fn lemma_front_is_served(s: ServerModel, t: TickModel)
    requires
        s.reading is None,
        s.queue.len() > 0,
    ensures
        match tick_result(s, t).line {
            Some(l) => l.peer == s.queue[0].peer,
            None => true,
        },
        match tick_result(s, t).fault {
            Some(Fault::Read(p)) => p == s.queue[0].peer,
            Some(Fault::Accept) => t.accept == AcceptOutcome::Fault,
            None => true,
        },
{
}

/// A tick changes the number of connections by what it accepted and what it
/// closed, and by nothing else: none is lost and none is served twice.
pub proof fn lemma_tick_counts_connections(s: ServerModel, t: TickModel)
    ensures
        live(tick_result(s, t).state) == live(s) + (if t.accept is Accepted {
            1int
        } else {
            0int
        }) - (if tick_closes(s, t) {
            1int
        } else {
            0int
        }),
{
}

/// Whether the tick ends a connection: the reader task asked for a read, and
/// the read found the stream closed or failed.
pub open spec fn tick_closes(s: ServerModel, t: TickModel) -> bool {
    &&& t.accept != AcceptOutcome::Fault
    &&& poll_step(accept_next(s, t.accept)) is Read
    &&& (t.read == ReadModel::Fault || (t.read matches ReadModel::Data(d) && d.len() == 0))
}

/// A tick serves at most one line, so a run dispatches no more lines than it
/// has ticks.
pub proof fn lemma_one_line_per_tick(s: ServerModel, script: Seq<TickModel>)
    ensures
        script.len() > 0 ==> emitted(tick_result(s, script[0]).line).len() <= 1,
        run_result(s, script).lines.len() <= script.len(),
    decreases script.len(),
{
    if script.len() > 0 {
        let t = tick_result(s, script[0]);
        if t.fault is None {
            lemma_one_line_per_tick(t.state, script.drop_first());
        }
    }
}

/// Running two scripts one after the other is running their concatenation,
/// as long as the first ends without a fault.
pub proof fn lemma_run_concat(s: ServerModel, a: Seq<TickModel>, b: Seq<TickModel>)
    requires
        run_result(s, a).fault is None,
    ensures
        run_result(s, a + b).state == run_result(run_result(s, a).state, b).state,
        run_result(s, a + b).lines == run_result(s, a).lines + run_result(
            run_result(s, a).state,
            b,
        ).lines,
        run_result(s, a + b).fault == run_result(run_result(s, a).state, b).fault,
    decreases a.len(),
{
    if a.len() == 0 {
        assert(a + b =~= b);
        assert(run_result(s, a).lines + run_result(s, b).lines =~= run_result(s, b).lines);
    } else {
        let t = tick_result(s, a[0]);
        assert((a + b)[0] == a[0]);
        assert((a + b).drop_first() =~= a.drop_first() + b);
        lemma_run_concat(t.state, a.drop_first(), b);
        let mid = run_result(t.state, a.drop_first());
        let end = run_result(mid.state, b);
        assert(emitted(t.line) + (mid.lines + end.lines) =~= (emitted(t.line) + mid.lines)
            + end.lines);
    }
}

} // verus!
