//! Lifecycle and routing decisions for the one supervised subprocess: the
//! single-instance invariant, request registration, per-line routing of the
//! output stream, shutdown resolution of outstanding requests, and the exit
//! watcher's two-state step.

use vstd::prelude::*;
use crate::codec::json_parses;
use crate::codec::json_id_of;
use crate::codec::json_compact_of;
use crate::codec::decode_json_line;
use crate::correlator::Correlator;
use crate::is_blank;
use crate::is_blank_text;

verus! {

/// An event forwarded to the external sink, independent of any caller's
/// operation: an unsolicited server message, one line of diagnostic text,
/// or the subprocess's termination.
pub enum Event {
    Rpc { message: String },
    Diagnostic { line: String },
    Exit { code: Option<i32>, signal: Option<i32> },
}

/// Shapes one line read from the subprocess's standard error as the
/// diagnostic event the sink receives: the line verbatim, no parsing.
pub fn route_stderr_line(line: String) -> (e: Event)
    ensures
        e == (Event::Diagnostic { line }),
{
    Event::Diagnostic { line }
}

/// The identifier under which a line resolves an outstanding request, if
/// any: the line must be non-blank, well-formed, carry an identifier, and
/// that identifier must be registered.
pub open spec fn resolved_id<W>(m: Map<Seq<char>, W>, line: Seq<char>) -> Option<Seq<char>> {
    if !is_blank_text(line) && json_parses(line) {
        match json_id_of(line) {
            Some(i) => if m.contains_key(i) {
                Some(i)
            } else {
                None
            },
            None => None,
        }
    } else {
        None
    }
}

/// The table of outstanding requests after one line is routed: the resolved
/// entry is removed; every other line leaves the table as it was.
pub open spec fn pending_after<W>(m: Map<Seq<char>, W>, line: Seq<char>) -> Map<Seq<char>, W> {
    match resolved_id(m, line) {
        Some(i) => m.remove(i),
        None => m,
    }
}

/// The table of outstanding requests after a stretch of output has been
/// routed line by line, in order.
pub open spec fn pending_after_all<W>(m: Map<Seq<char>, W>, lines: Seq<Seq<char>>) -> Map<
    Seq<char>,
    W,
>
    decreases lines.len(),
{
    if lines.len() == 0 {
        m
    } else {
        pending_after_all(pending_after(m, lines[0]), lines.drop_first())
    }
}

/// Law: correlation is exact. A request registered under identifier `i`
/// survives the routing of any stretch of output in which no line's
/// identifier canonicalizes to `i`, with its waiter untouched — and a
/// well-formed line whose identifier does canonicalize to `i` then
/// resolves exactly that request.
pub proof fn lemma_correlation_exact<W>(
    m: Map<Seq<char>, W>,
    lines: Seq<Seq<char>>,
    i: Seq<char>,
    line: Seq<char>,
)
    requires
        m.contains_key(i),
        forall|j: int| 0 <= j < lines.len() ==> json_id_of(#[trigger] lines[j]) != Some(i),
        !is_blank_text(line),
        json_parses(line),
        json_id_of(line) == Some(i),
    ensures
        pending_after_all(m, lines).contains_key(i),
        pending_after_all(m, lines)[i] == m[i],
        resolved_id(pending_after_all(m, lines), line) == Some(i),
    decreases lines.len(),
{
    if lines.len() > 0 {
        let m1 = pending_after(m, lines[0]);
        assert(resolved_id(m, lines[0]) != Some(i));
        assert(m1.contains_key(i) && m1[i] == m[i]);
        assert(forall|j: int| 0 <= j < lines.drop_first().len() ==> json_id_of(
            #[trigger] lines.drop_first()[j],
        ) != Some(i));
        lemma_correlation_exact(m1, lines.drop_first(), i, line);
    }
}

/// Two stretches of output routed one after the other end where the
/// concatenated stretch ends.
pub proof fn lemma_pending_after_all_concat<W>(
    m: Map<Seq<char>, W>,
    a: Seq<Seq<char>>,
    b: Seq<Seq<char>>,
)
    ensures
        pending_after_all(m, a + b) == pending_after_all(pending_after_all(m, a), b),
    decreases a.len(),
{
    if a.len() == 0 {
        assert(a + b =~= b);
    } else {
        assert((a + b)[0] == a[0]);
        assert((a + b).drop_first() =~= a.drop_first() + b);
        lemma_pending_after_all_concat(pending_after(m, a[0]), a.drop_first(), b);
    }
}

/// Law: a line that fails to parse is inert. Routing it resolves nothing
/// and removes nothing, so a stream in which one malformed line appears
/// routes exactly as the stream without it: the bad line costs a
/// diagnostic, never the rest of the stream.
pub proof fn lemma_malformed_line_inert<W>(
    m: Map<Seq<char>, W>,
    before: Seq<Seq<char>>,
    bad: Seq<char>,
    after: Seq<Seq<char>>,
)
    requires
        !json_parses(bad),
    ensures
        pending_after(pending_after_all(m, before), bad) == pending_after_all(m, before),
        pending_after_all(m, before + seq![bad] + after) == pending_after_all(m, before + after),
{
    lemma_pending_after_all_concat(m, before, after);
    lemma_pending_after_all_concat(m, before + seq![bad], after);
    lemma_pending_after_all_concat(m, before, seq![bad]);
    let x = pending_after_all(m, before);
    assert(resolved_id(x, bad) is None);
    assert(pending_after(x, bad) == x);
    assert(seq![bad].len() == 1 && seq![bad][0] == bad);
    assert(seq![bad].drop_first() =~= Seq::<Seq<char>>::empty());
    assert(pending_after_all(x, seq![bad]) == pending_after_all(
        pending_after(x, bad),
        seq![bad].drop_first(),
    ));
    assert(pending_after_all(x, seq![bad]) == x);
}

/// What the output router does with one line of the subprocess's output.
pub enum Routed<W> {
    /// The line was whitespace only and is skipped.
    Blank,
    /// The line was not well-formed JSON; `error` describes the failure, to
    /// be forwarded as a diagnostic beside the offending line. Routing
    /// itself is unaffected.
    Malformed { error: String },
    /// The line resolves the outstanding request registered under its
    /// identifier: deliver `message` to `waiter`, and to nobody else.
    Respond { waiter: W, message: String },
    /// The line answers no outstanding request: forward `message` to the
    /// sink as an unsolicited server event.
    Forward { message: String },
}

/// What `stop` found and did.
pub enum StopOutcome<W> {
    /// Nothing was running: the call is a no-op.
    WasIdle,
    /// The subprocess was running: it is to be terminated, and every waiter
    /// handed back here must be resolved with the synthetic stop error.
    Stopping { waiters: Vec<(String, W)> },
}

/// What the exit watcher's liveness poll reported.
pub enum ExitPoll {
    StillAlive,
    /// The poll itself failed; liveness stays unknown.
    PollError,
    Exited { code: Option<i32>, signal: Option<i32> },
}

/// The exit watcher's next move after one poll.
pub enum WatchStep<W> {
    /// Still watching: poll again after the fixed interval.
    KeepWatching,
    /// The process slot was already cleared by a stop: end without
    /// emitting anything.
    Finished,
    /// Termination observed first: the slot is now cleared, the exit event
    /// is to be emitted exactly once, and the waiters handed back are to be
    /// released.
    EmitExit { code: Option<i32>, signal: Option<i32>, waiters: Vec<(String, W)> },
}

/// The supervisor's shared state: whether a subprocess instance exists, and
/// the correlation table of its outstanding requests. The waiter type `W`
/// stands for whatever one-shot resolution handle the surrounding runtime
/// uses; the supervisor only stores and hands back such handles.
pub struct Supervisor<W> {
    running: bool,
    pending: Correlator<W>,
}

impl<W> Supervisor<W> {
    /// Whether a subprocess instance exists.
    pub closed spec fn running_state(&self) -> bool {
        self.running
    }

    /// The outstanding requests: identifier, in canonical text form, to
    /// waiter.
    pub closed spec fn pending_map(&self) -> Map<Seq<char>, W> {
        self.pending@
    }

    /// The correlation table's own well-formedness.
    pub closed spec fn table_wf(&self) -> bool {
        self.pending.wf()
    }

    /// The supervisor's invariant: the correlation table is well formed,
    /// and no request is outstanding while nothing is running.
    pub open spec fn wf(&self) -> bool {
        &&& self.table_wf()
        &&& (!self.running_state() ==> self.pending_map() == Map::<Seq<char>, W>::empty())
    }

    /// A supervisor with nothing running.
    pub fn new() -> (s: Self)
        ensures
            s.wf(),
            !s.running_state(),
    {
        Supervisor { running: false, pending: Correlator::new() }
    }

    /// Whether a subprocess instance exists right now.
    pub fn is_running(&self) -> (r: bool)
        ensures
            r == self.running_state(),
    {
        self.running
    }

    /// Claims the single process slot for a newly spawned subprocess.
    /// While an instance exists the claim is refused and the existing
    /// instance is left untouched; otherwise the slot is taken, with no
    /// request outstanding yet.
    pub fn mark_started(&mut self) -> (r: bool)
        requires
            old(self).wf(),
        ensures
            final(self).wf(),
            old(self).running_state() ==> !r && *final(self) == *old(self),
            !old(self).running_state() ==> r && final(self).running_state()
                && final(self).pending_map() == Map::<Seq<char>, W>::empty(),
    {
        if self.running {
            false
        } else {
            self.running = true;
            true
        }
    }

    /// Registers a waiter for the response to the request sent under `id`.
    /// With nothing running the waiter is handed straight back; otherwise
    /// it is entered into the table, evicting (and handing back) any waiter
    /// already registered under the same identifier.
    pub fn register(&mut self, id: String, waiter: W) -> (r: Option<W>)
        requires
            old(self).wf(),
            old(self).running_state(),
        ensures
            final(self).wf(),
            final(self).running_state(),
            final(self).pending_map() == old(self).pending_map().insert(id@, waiter),
            r matches Some(w) ==> old(self).pending_map().contains_key(id@)
                && old(self).pending_map()[id@] == w,
            (r is None) <==> !old(self).pending_map().contains_key(id@),
    {
        self.pending.insert(id, waiter)
    }

    /// Routes one line of the subprocess's output. A blank line is skipped
    /// and a malformed one reported, neither touching any state; a line
    /// whose identifier matches an outstanding request resolves exactly
    /// that request, removing it from the table; every other well-formed
    /// line is forwarded as an unsolicited event. The delivered message is
    /// the line's canonical compact rendering.
    pub fn route_line(&mut self, line: &str) -> (r: Routed<W>)
        requires
            old(self).wf(),
        ensures
            final(self).wf(),
            final(self).running_state() == old(self).running_state(),
            final(self).pending_map() == pending_after(old(self).pending_map(), line@),
            (r is Blank) <==> is_blank_text(line@),
            (r is Malformed) <==> (!is_blank_text(line@) && !json_parses(line@)),
            (r is Respond) <==> (resolved_id(old(self).pending_map(), line@) is Some),
            resolved_id(old(self).pending_map(), line@) matches Some(i) ==> (r matches
                Routed::Respond { waiter, message } && waiter == old(self).pending_map()[i]
                && message@ == json_compact_of(line@)),
            r matches Routed::Forward { message } ==> message@ == json_compact_of(line@),
    {
        if is_blank(line) {
            return Routed::Blank;
        }
        match decode_json_line(line) {
            Err(error) => Routed::Malformed { error },
            Ok(d) => match d.id {
                Some(id) => match self.pending.remove(&id) {
                    Some(waiter) => Routed::Respond { waiter, message: d.compact },
                    None => Routed::Forward { message: d.compact },
                },
                None => Routed::Forward { message: d.compact },
            },
        }
    }

    /// Stops the supervised subprocess, as far as shared state is
    /// concerned. Idempotent: with nothing running it is a no-op. Otherwise
    /// the slot is cleared and every outstanding request is handed back for
    /// resolution with the synthetic stop error, so that no caller is left
    /// waiting: no entry is kept, none is invented, and each registered
    /// identifier appears exactly once among the waiters.
    pub fn on_stop(&mut self) -> (r: StopOutcome<W>)
        requires
            old(self).wf(),
        ensures
            final(self).wf(),
            !final(self).running_state(),
            final(self).pending_map() == Map::<Seq<char>, W>::empty(),
            !old(self).running_state() ==> *final(self) == *old(self) && r is WasIdle,
            old(self).running_state() ==> (r matches StopOutcome::Stopping { waiters }
                && crate::correlator::keys_distinct(waiters@)
                && (forall|j: int| 0 <= j < waiters@.len()
                    ==> old(self).pending_map().contains_key((#[trigger] waiters@[j]).0@)
                        && old(self).pending_map()[waiters@[j].0@] == waiters@[j].1)
                && (forall|k: Seq<char>| old(self).pending_map().contains_key(k)
                    ==> exists|j: int| 0 <= j < waiters@.len() && (#[trigger] waiters@[j]).0@
                        == k)),
    {
        if !self.running {
            StopOutcome::WasIdle
        } else {
            self.running = false;
            let waiters = self.pending.drain();
            StopOutcome::Stopping { waiters }
        }
    }

    /// The exit watcher's step, given one liveness poll. While the process
    /// lives (or the poll failed) it keeps watching. When termination is
    /// observed and the slot still holds the instance, the slot is cleared
    /// and the exit event emitted — once: a later step finds the slot
    /// cleared and ends without an event, as it does when a stop cleared
    /// the slot first.
    pub fn exit_watch_step(&mut self, poll: ExitPoll) -> (r: WatchStep<W>)
        requires
            old(self).wf(),
        ensures
            final(self).wf(),
            (poll is StillAlive || poll is PollError) ==> *final(self) == *old(self) && r
                is KeepWatching,
            poll is Exited && !old(self).running_state() ==> *final(self) == *old(self) && r
                is Finished,
            poll is Exited && old(self).running_state() ==> !final(self).running_state()
                && final(self).pending_map() == Map::<Seq<char>, W>::empty()
                && r is EmitExit && r->EmitExit_code == poll->code
                && r->EmitExit_signal == poll->signal,
            poll is Exited && old(self).running_state() ==> crate::correlator::keys_distinct(
                r->EmitExit_waiters@,
            ),
            poll is Exited && old(self).running_state() ==> (forall|j: int|
                0 <= j < r->EmitExit_waiters@.len()
                    ==> old(self).pending_map().contains_key(
                    (#[trigger] r->EmitExit_waiters@[j]).0@,
                ) && old(self).pending_map()[r->EmitExit_waiters@[j].0@]
                    == r->EmitExit_waiters@[j].1),
            poll is Exited && old(self).running_state() ==> (forall|k: Seq<char>|
                old(self).pending_map().contains_key(k) ==> exists|j: int|
                    0 <= j < r->EmitExit_waiters@.len() && (
                    #[trigger] r->EmitExit_waiters@[j]).0@ == k),
    {
        match poll {
            ExitPoll::StillAlive => WatchStep::KeepWatching,
            ExitPoll::PollError => WatchStep::KeepWatching,
            ExitPoll::Exited { code, signal } => {
                if !self.running {
                    WatchStep::Finished
                } else {
                    self.running = false;
                    let ghost pre = old(self).pending_map();
                    let waiters = self.pending.drain();
                    let step = WatchStep::EmitExit { code, signal, waiters };
                    proof {
                        assert forall|k: Seq<char>| pre.contains_key(k) implies exists|j: int|
                            0 <= j < step->EmitExit_waiters@.len() && (
                            #[trigger] step->EmitExit_waiters@[j]).0@ == k by {
                            let w = step->EmitExit_waiters;
                            let j = choose|j: int|
                                0 <= j < w@.len() && (#[trigger] w@[j]).0@ == k;
                            assert((step->EmitExit_waiters@[j]).0@ == k);
                        }
                    }
                    step
                }
            },
        }
    }
}

} // verus!
