//! The server's lifecycle: the shared shutdown flag, the accept loop's
//! state machine, and the constructor's bounded readiness probe.

use vstd::prelude::*;

verus! {

/// Greatest number of readiness-probe connection attempts the constructor
/// makes before giving up and returning anyway (best effort).
pub const MAX_PROBE_ATTEMPTS: u16 = 19;

/// The caller's handle on a running server: the OS-assigned port, and the
/// shutdown flag shared with the accept loop, as the handle last wrote it.
pub struct TestServer {
    pub port: u16,
    pub done: bool,
}

impl TestServer {
    /// A fresh handle for a listener bound on `port`: the shutdown flag
    /// starts unset, so the accept loop keeps running.
    pub fn new(port: u16) -> (s: Self)
        ensures
            s.port == port,
            !s.done,
    {
        TestServer { port, done: false }
    }

    /// Disposal: signal shutdown by setting the shared flag, exactly once.
    /// The caller must then open one unblocking connection to `port`, since
    /// the accept loop only observes the flag after its next accept.
    pub fn shutdown(&mut self)
        requires
            !old(self).done,
        ensures
            final(self).done,
            final(self).port == old(self).port,
    {
        self.done = true;
    }
}

/// Whether the accept loop still waits for connections, or has observed the
/// shutdown flag and exited.
#[derive(Clone, Copy, Debug, PartialEq, Eq, Structural)]
pub enum LoopState {
    Running,
    Exited,
}

/// The accept loop's state: how many connections it has dispatched to
/// handler threads so far, and whether it still runs.
#[derive(Clone, Copy, Debug, PartialEq, Eq, Structural)]
pub struct AcceptLoop {
    pub dispatched: u64,
    pub state: LoopState,
}

/// One iteration of the accept loop: the freshly accepted connection is
/// dispatched to a handler thread, then the shutdown flag (`done`, as read
/// at that moment) decides whether the loop exits.
pub open spec fn loop_step(l: AcceptLoop, done: bool) -> AcceptLoop {
    AcceptLoop {
        dispatched: (l.dispatched + 1) as u64,
        state: if done {
            LoopState::Exited
        } else {
            LoopState::Running
        },
    }
}

/// The loop state after accepting one connection per entry of `flags`, the
/// shutdown flag reading at each, in order; once the loop has exited it
/// accepts nothing further.
pub open spec fn loop_run(l: AcceptLoop, flags: Seq<bool>) -> AcceptLoop
    decreases flags.len(),
{
    if flags.len() == 0 || l.state == LoopState::Exited {
        l
    } else {
        loop_run(loop_step(l, flags[0]), flags.drop_first())
    }
}

/// What the accept-loop thread's world can produce, in order: a connection
/// is accepted while the shutdown flag reads `done`, or the handler thread
/// of some earlier connection finishes with result `ok`.
pub enum ServerEvent {
    Accepted { done: bool },
    HandlerFinished { ok: bool },
}

/// The loop state after the events of `events`. A finished handler leaves
/// the loop untouched: handler results are discarded, never waited on.
pub open spec fn run_events(l: AcceptLoop, events: Seq<ServerEvent>) -> AcceptLoop
    decreases events.len(),
{
    if events.len() == 0 || l.state == LoopState::Exited {
        l
    } else {
        let next = match events[0] {
            ServerEvent::Accepted { done } => loop_step(l, done),
            ServerEvent::HandlerFinished { .. } => l,
        };
        run_events(next, events.drop_first())
    }
}

/// The shutdown-flag readings of the accepted connections among `events`,
/// in order, with handler completions left out.
pub open spec fn accept_flags(events: Seq<ServerEvent>) -> Seq<bool>
    decreases events.len(),
{
    if events.len() == 0 {
        Seq::empty()
    } else {
        match events[0] {
            ServerEvent::Accepted { done } => seq![done] + accept_flags(events.drop_first()),
            ServerEvent::HandlerFinished { .. } => accept_flags(events.drop_first()),
        }
    }
}

impl AcceptLoop {
    /// The accept loop as freshly spawned: running, nothing dispatched.
    pub fn new() -> (l: Self)
        ensures
            l == (AcceptLoop { dispatched: 0, state: LoopState::Running }),
    {
        AcceptLoop { dispatched: 0, state: LoopState::Running }
    }

    /// One accepted connection: dispatch it to a handler thread
    /// (fire-and-forget — the loop never waits on the handler), then exit
    /// if the shutdown flag read true. Returns whether the connection was
    /// dispatched: always, the unblocking shutdown connection included.
    pub fn on_accept(&mut self, done: bool) -> (dispatch: bool)
        requires
            old(self).state == LoopState::Running,
            old(self).dispatched < u64::MAX,
        ensures
            dispatch,
            *final(self) == loop_step(*old(self), done),
    {
        self.dispatched = self.dispatched + 1;
        self.state = if done {
            LoopState::Exited
        } else {
            LoopState::Running
        };
        true
    }

    /// Whether the loop still accepts connections.
    pub fn is_running(&self) -> (r: bool)
        ensures
            r == (self.state == LoopState::Running),
    {
        self.state == LoopState::Running
    }
}

/// The constructor's readiness probe: bounded retries of a loopback
/// connection to the fresh listener, so that a caller's first real
/// connection cannot race the listener coming up.
#[derive(Clone, Copy, Debug, PartialEq, Eq, Structural)]
pub struct ReadinessProbe {
    pub attempts: u16,
    pub connected: bool,
}

/// One probe connection attempt and its outcome.
pub open spec fn probe_step(p: ReadinessProbe, success: bool) -> ReadinessProbe {
    ReadinessProbe { attempts: (p.attempts + 1) as u16, connected: success }
}

/// The probe state after attempts with the outcomes of `outcomes`, in
/// order, stopping at the first success or once the retry budget is spent.
pub open spec fn probe_run(p: ReadinessProbe, outcomes: Seq<bool>) -> ReadinessProbe
    decreases outcomes.len(),
{
    if outcomes.len() == 0 || p.connected || p.attempts >= MAX_PROBE_ATTEMPTS {
        p
    } else {
        probe_run(probe_step(p, outcomes[0]), outcomes.drop_first())
    }
}

impl ReadinessProbe {
    /// A fresh probe: no attempt made, no connection seen.
    pub fn new() -> (p: Self)
        ensures
            p == (ReadinessProbe { attempts: 0, connected: false }),
    {
        ReadinessProbe { attempts: 0, connected: false }
    }

    /// Whether another probe connection should be attempted: none has
    /// succeeded yet and the retry budget is not spent.
    pub fn should_retry(&self) -> (r: bool)
        ensures
            r == (!self.connected && self.attempts < MAX_PROBE_ATTEMPTS),
    {
        !self.connected && self.attempts < MAX_PROBE_ATTEMPTS
    }

    /// Record one probe connection attempt and its outcome.
    pub fn record_attempt(&mut self, success: bool)
        requires
            !old(self).connected,
            old(self).attempts < MAX_PROBE_ATTEMPTS,
        ensures
            *final(self) == probe_step(*old(self), success),
    {
        self.attempts = self.attempts + 1;
        self.connected = success;
    }
}

/// Every connection is dispatched, none dropped and none twice: while the
/// shutdown flag stays unset, accepting any number of connections
/// dispatches exactly one handler per connection, and the loop keeps
/// running.
pub proof fn lemma_all_dispatched(l: AcceptLoop, flags: Seq<bool>)
    requires
        l.state == LoopState::Running,
        l.dispatched + flags.len() <= u64::MAX,
        forall|i: int| 0 <= i < flags.len() ==> !flags[i],
    ensures
        loop_run(l, flags).dispatched == l.dispatched + flags.len(),
        loop_run(l, flags).state == LoopState::Running,
    decreases flags.len(),
{
    if flags.len() > 0 {
        lemma_all_dispatched(loop_step(l, flags[0]), flags.drop_first());
    }
}

/// Disposal terminates the accept loop: once the shutdown flag is set and
/// stays set, the next connection — the unblocking self-connection — is the
/// last one dispatched, and the loop exits. The server is inert afterwards:
/// however many further connections arrive, none is dispatched.
pub proof fn lemma_inert_after_shutdown(l: AcceptLoop, flags: Seq<bool>)
    requires
        l.state == LoopState::Running,
        l.dispatched < u64::MAX,
        flags.len() >= 1,
        forall|i: int| 0 <= i < flags.len() ==> flags[i],
    ensures
        loop_run(l, flags).state == LoopState::Exited,
        loop_run(l, flags).dispatched == l.dispatched + 1,
    decreases flags.len(),
{
    let next = loop_step(l, flags[0]);
    assert(next.state == LoopState::Exited);
    lemma_run_from_exited(next, flags.drop_first());
}

/// An exited loop stays exactly as it is, whatever arrives.
pub proof fn lemma_run_from_exited(l: AcceptLoop, flags: Seq<bool>)
    requires
        l.state == LoopState::Exited,
    ensures
        loop_run(l, flags) == l,
{
}

/// Dispatch isolation: what the accept loop does is a function of the
/// accepted connections and the shutdown flag alone. The results of the
/// handler threads, success or failure on their own connections, never
/// reach the loop, so a failing handler cannot keep any later connection
/// from being dispatched.
pub proof fn lemma_handler_results_ignored(l: AcceptLoop, events: Seq<ServerEvent>)
    ensures
        run_events(l, events) == loop_run(l, accept_flags(events)),
    decreases events.len(),
{
    if events.len() == 0 || l.state == LoopState::Exited {
        lemma_run_from_exited_or_empty(l, accept_flags(events));
    } else {
        match events[0] {
            ServerEvent::Accepted { done } => {
                lemma_handler_results_ignored(loop_step(l, done), events.drop_first());
                let af = accept_flags(events);
                assert(af == seq![done] + accept_flags(events.drop_first()));
                assert(af[0] == done);
                assert(af.drop_first() =~= accept_flags(events.drop_first()));
            },
            ServerEvent::HandlerFinished { .. } => {
                lemma_handler_results_ignored(l, events.drop_first());
            },
        }
    }
}

/// A run over no connections, or from an exited loop, changes nothing.
proof fn lemma_run_from_exited_or_empty(l: AcceptLoop, flags: Seq<bool>)
    requires
        flags.len() == 0 || l.state == LoopState::Exited,
    ensures
        loop_run(l, flags) == l,
{
}

/// Bounded wait: however the probe connections turn out, the readiness
/// probe never makes more than `MAX_PROBE_ATTEMPTS` attempts — the
/// constructor returns after a bounded wait, it never blocks indefinitely.
pub proof fn lemma_probe_bounded(p: ReadinessProbe, outcomes: Seq<bool>)
    requires
        p.attempts <= MAX_PROBE_ATTEMPTS,
    ensures
        probe_run(p, outcomes).attempts <= MAX_PROBE_ATTEMPTS,
    decreases outcomes.len(),
{
    if !(outcomes.len() == 0 || p.connected || p.attempts >= MAX_PROBE_ATTEMPTS) {
        lemma_probe_bounded(probe_step(p, outcomes[0]), outcomes.drop_first());
    }
}

/// The probe reports a connection exactly when one of the attempts within
/// its remaining retry budget succeeded: readiness is confirmed whenever
/// the listener came up in time, and never reported otherwise.
pub proof fn lemma_probe_connected_iff(p: ReadinessProbe, outcomes: Seq<bool>)
    requires
        !p.connected,
    ensures
        probe_run(p, outcomes).connected <==> exists|i: int|
            0 <= i < outcomes.len() && i < MAX_PROBE_ATTEMPTS - p.attempts && outcomes[i],
    decreases outcomes.len(),
{
    if outcomes.len() == 0 || p.attempts >= MAX_PROBE_ATTEMPTS {
    } else {
        let q = probe_step(p, outcomes[0]);
        if outcomes[0] {
            assert(probe_run(q, outcomes.drop_first()) == q);
            assert(0 <= 0 < outcomes.len() && 0 < MAX_PROBE_ATTEMPTS - p.attempts
                && outcomes[0]);
        } else {
            lemma_probe_connected_iff(q, outcomes.drop_first());
            let rest = outcomes.drop_first();
            assert forall|i: int|
                0 <= i < rest.len() && i < MAX_PROBE_ATTEMPTS - q.attempts && rest[i]
                    implies (0 <= i + 1 < outcomes.len() && i + 1 < MAX_PROBE_ATTEMPTS
                    - p.attempts && outcomes[i + 1]) by {
                assert(rest[i] == outcomes[i + 1]);
            }
            assert forall|i: int|
                0 <= i < outcomes.len() && i < MAX_PROBE_ATTEMPTS - p.attempts && outcomes[i]
                    implies exists|k: int|
                    0 <= k < rest.len() && k < MAX_PROBE_ATTEMPTS - q.attempts && rest[k] by {
                assert(i != 0);
                assert(rest[i - 1] == outcomes[i]);
            }
        }
    }
}

} // verus!
