//! The watchdog of one connection.
//!
//! Beside every connection runs a supervisor with a timer.  A keep-alive
//! from the client starts the timer anew; when the timer runs out, the
//! supervisor tells the connection once and ends; when the connection goes
//! away first, the supervisor ends quietly.  The timer itself belongs to
//! whoever runs the supervisor: this module decides what follows from what.

use vstd::prelude::*;

verus! {

/// Whether the supervisor still watches.
#[derive(Clone, Copy, Debug, PartialEq, Eq, Structural)]
pub enum SupervisorState {
    Running,
    Done,
}

/// What the supervisor is woken by.
#[derive(Clone, Copy, Debug, PartialEq, Eq, Structural)]
pub enum SupervisorEvent {
    /// The timer ran out.
    TimerElapsed,
    /// The connection passed a keep-alive on.
    Ping,
    /// The connection is gone: its end of the channel was dropped.
    ChannelClosed,
}

/// What the supervisor does when woken.
#[derive(Clone, Copy, Debug, PartialEq, Eq, Structural)]
pub enum SupervisorAction {
    /// Start the timer anew, to run for this many seconds.
    ResetTimer(u64),
    /// Tell the connection that it timed out, and end.
    SignalTimeout,
    /// End without a word.
    Exit,
    /// Nothing: the supervisor has ended.
    Nothing,
}

/// The state after an event, and what the supervisor does.
pub open spec fn supervise(state: SupervisorState, timeout: u64, event: SupervisorEvent) -> (
    SupervisorState,
    SupervisorAction,
) {
    match (state, event) {
        (SupervisorState::Running, SupervisorEvent::TimerElapsed) => (
            SupervisorState::Done,
            SupervisorAction::SignalTimeout,
        ),
        (SupervisorState::Running, SupervisorEvent::Ping) => (
            SupervisorState::Running,
            SupervisorAction::ResetTimer(timeout),
        ),
        (SupervisorState::Running, SupervisorEvent::ChannelClosed) => (
            SupervisorState::Done,
            SupervisorAction::Exit,
        ),
        (SupervisorState::Done, _) => (SupervisorState::Done, SupervisorAction::Nothing),
    }
}

/// The state after a run of events.
pub open spec fn state_after(state: SupervisorState, timeout: u64, events: Seq<SupervisorEvent>)
    -> SupervisorState
    decreases events.len(),
{
    if events.len() == 0 {
        state
    } else {
        supervise(state_after(state, timeout, events.drop_last()), timeout, events.last()).0
    }
}

/// What the supervisor does at each event of a run.
pub open spec fn actions_of(state: SupervisorState, timeout: u64, events: Seq<SupervisorEvent>)
    -> Seq<SupervisorAction> {
    Seq::new(
        events.len(),
        |i: int| supervise(state_after(state, timeout, events.take(i)), timeout, events[i]).1,
    )
}

/// The supervisor of one connection.
pub struct TimeoutSupervisor {
    timeout: u64,
    state: SupervisorState,
}

impl TimeoutSupervisor {
    /// A supervisor whose timer runs for `timeout` seconds.
    pub fn new(timeout: u64) -> (r: Self)
        ensures
            r.timeout() == timeout,
            r.state() == SupervisorState::Running,
    {
        TimeoutSupervisor { timeout, state: SupervisorState::Running }
    }

    /// The seconds that the timer runs for.
    pub closed spec fn timeout(&self) -> u64 {
        self.timeout
    }

    /// Whether the supervisor still watches.
    pub closed spec fn state(&self) -> SupervisorState {
        self.state
    }

    /// The seconds that the timer is to run for at first.
    pub fn initial_timer(&self) -> (r: u64)
        ensures
            r == self.timeout(),
    {
        self.timeout
    }

    /// Whether the supervisor still watches.
    pub fn is_running(&self) -> (r: bool)
        ensures
            r == (self.state() == SupervisorState::Running),
    {
        match self.state {
            SupervisorState::Running => true,
            SupervisorState::Done => false,
        }
    }

    /// Takes an event and says what to do.
    pub fn on_event(&mut self, event: SupervisorEvent) -> (r: SupervisorAction)
        ensures
            final(self).timeout() == old(self).timeout(),
            final(self).state() == supervise(old(self).state(), old(self).timeout(), event).0,
            r == supervise(old(self).state(), old(self).timeout(), event).1,
    {
        let (next, action) = match (self.state, event) {
            (SupervisorState::Running, SupervisorEvent::TimerElapsed) => (
                SupervisorState::Done,
                SupervisorAction::SignalTimeout,
            ),
            (SupervisorState::Running, SupervisorEvent::Ping) => (
                SupervisorState::Running,
                SupervisorAction::ResetTimer(self.timeout),
            ),
            (SupervisorState::Running, SupervisorEvent::ChannelClosed) => (
                SupervisorState::Done,
                SupervisorAction::Exit,
            ),
            (SupervisorState::Done, _) => (SupervisorState::Done, SupervisorAction::Nothing),
        };
        self.state = next;
        action
    }
}

/// As long as nothing but keep-alives arrive, the supervisor keeps watching,
/// and starts the timer anew at each, to run for the whole timeout.
pub proof fn lemma_pings_keep_running(timeout: u64, events: Seq<SupervisorEvent>)
    requires
        forall|i: int| 0 <= i < events.len() ==> events[i] == SupervisorEvent::Ping,
    ensures
        state_after(SupervisorState::Running, timeout, events) == SupervisorState::Running,
        forall|i: int|
            0 <= i < events.len() ==> #[trigger] actions_of(
                SupervisorState::Running,
                timeout,
                events,
            )[i] == SupervisorAction::ResetTimer(timeout),
    decreases events.len(),
{
    if events.len() > 0 {
        lemma_pings_keep_running(timeout, events.drop_last());
        assert forall|i: int| 0 <= i < events.len() implies #[trigger] actions_of(
            SupervisorState::Running,
            timeout,
            events,
        )[i] == SupervisorAction::ResetTimer(timeout) by {
            let upto = events.take(i);
            assert forall|j: int| 0 <= j < upto.len() implies upto[j] == SupervisorEvent::Ping by {
                assert(upto[j] == events[j]);
            }
            lemma_pings_keep_running(timeout, upto);
        }
    }
}

/// Once the supervisor has ended it stays so, whatever arrives.
pub proof fn lemma_done_stays_done(timeout: u64, events: Seq<SupervisorEvent>)
    ensures
        state_after(SupervisorState::Done, timeout, events) == SupervisorState::Done,
    decreases events.len(),
{
    if events.len() > 0 {
        lemma_done_stays_done(timeout, events.drop_last());
    }
}

/// The supervisor tells the connection at most once: of any two events of a
/// run, not both are answered with the signal.
pub proof fn lemma_signal_once(timeout: u64, events: Seq<SupervisorEvent>, i: int, j: int)
    requires
        0 <= i < j < events.len(),
    ensures
        !(actions_of(SupervisorState::Running, timeout, events)[i]
            == SupervisorAction::SignalTimeout && actions_of(
            SupervisorState::Running,
            timeout,
            events,
        )[j] == SupervisorAction::SignalTimeout),
{
    let start = SupervisorState::Running;
    if actions_of(start, timeout, events)[i] == SupervisorAction::SignalTimeout {
        let upto = events.take(i + 1);
        assert(upto.drop_last() =~= events.take(i));
        assert(upto.last() == events[i]);
        assert(state_after(start, timeout, upto) == SupervisorState::Done);
        lemma_state_after_split(start, timeout, events.take(j), i + 1);
        assert(events.take(j).take(i + 1) =~= upto);
        lemma_done_stays_done(timeout, events.take(j).skip(i + 1));
    }
}

/// A run of events is its first `k` events and then the rest.
pub proof fn lemma_state_after_split(
    state: SupervisorState,
    timeout: u64,
    events: Seq<SupervisorEvent>,
    k: int,
)
    requires
        0 <= k <= events.len(),
    ensures
        state_after(state, timeout, events) == state_after(
            state_after(state, timeout, events.take(k)),
            timeout,
            events.skip(k),
        ),
    decreases events.len(),
{
    if k == events.len() {
        assert(events.take(k) =~= events);
        assert(events.skip(k) =~= Seq::<SupervisorEvent>::empty());
    } else {
        let front = events.drop_last();
        lemma_state_after_split(state, timeout, front, k);
        assert(front.take(k) =~= events.take(k));
        assert(events.skip(k).drop_last() =~= front.skip(k));
        assert(events.skip(k).last() == events.last());
    }
}

// ---------------------------------------------------------------------------
// Time
// ---------------------------------------------------------------------------

/// An event with the time at which it happens, in seconds.
pub ghost struct Timed {
    pub at: nat,
    pub event: SupervisorEvent,
}

/// The events of a timed run.
pub open spec fn events_of(run: Seq<Timed>) -> Seq<SupervisorEvent> {
    Seq::new(run.len(), |i: int| run[i].event)
}

/// When the timer runs out after a run that began at `start`: `timeout`
/// seconds after the last keep-alive, or after the start where there was
/// none.
pub open spec fn deadline(start: nat, timeout: nat, run: Seq<Timed>) -> nat
    decreases run.len(),
{
    if run.len() == 0 {
        start + timeout
    } else if run.last().event == SupervisorEvent::Ping {
        run.last().at + timeout
    } else {
        deadline(start, timeout, run.drop_last())
    }
}

/// A run that a timer allows: time does not go back, and the timer does
/// not run out before its deadline.
pub open spec fn possible(start: nat, timeout: nat, run: Seq<Timed>) -> bool {
    &&& forall|i: int, j: int| 0 <= i <= j < run.len() ==> run[i].at <= run[j].at
    &&& forall|i: int|
        0 <= i < run.len() && (#[trigger] run[i]).event == SupervisorEvent::TimerElapsed
            ==> run[i].at >= deadline(start, timeout, run.take(i))
}

/// Every keep-alive of the run comes before the timer would run out.
pub open spec fn kept_alive(start: nat, timeout: nat, run: Seq<Timed>) -> bool {
    forall|i: int|
        0 <= i < run.len() && (#[trigger] run[i]).event == SupervisorEvent::Ping ==> run[i].at
            < deadline(start, timeout, run.take(i))
}

/// Without a keep-alive the deadline stays where it was at the start.
pub proof fn lemma_deadline_without_ping(start: nat, timeout: nat, run: Seq<Timed>)
    requires
        forall|i: int| 0 <= i < run.len() ==> (#[trigger] run[i]).event != SupervisorEvent::Ping,
    ensures
        deadline(start, timeout, run) == start + timeout,
    decreases run.len(),
{
    if run.len() > 0 {
        assert(run.last() == run[run.len() - 1]);
        assert forall|i: int| 0 <= i < run.drop_last().len() implies (#[trigger] run.drop_last()[
            i
        ]).event != SupervisorEvent::Ping by {
            assert(run.drop_last()[i] == run[i]);
        }
        lemma_deadline_without_ping(start, timeout, run.drop_last());
    }
}

/// Without any keep-alive, the timer does not run out before `timeout`
/// seconds have passed since the start: the connection is not told any
/// earlier that it timed out.
pub proof fn lemma_no_early_timeout(start: nat, timeout: nat, run: Seq<Timed>, i: int)
    requires
        possible(start, timeout, run),
        forall|k: int| 0 <= k < run.len() ==> (#[trigger] run[k]).event != SupervisorEvent::Ping,
        0 <= i < run.len(),
        run[i].event == SupervisorEvent::TimerElapsed,
    ensures
        run[i].at >= start + timeout,
{
    let before = run.take(i);
    assert forall|k: int| 0 <= k < before.len() implies (#[trigger] before[k]).event
        != SupervisorEvent::Ping by {
        assert(before[k] == run[k]);
    }
    lemma_deadline_without_ping(start, timeout, before);
}

/// A connection that never sends a keep-alive is told that it timed out
/// exactly once: when the timer runs out for the first time, which is not
/// before the timeout has passed.  After that the supervisor has ended, and
/// whatever the timer does then leads to nothing.
pub proof fn lemma_timeout_without_ping(start: nat, timeout: u64, run: Seq<Timed>)
    requires
        possible(start, timeout as nat, run),
        run.len() > 0,
        forall|k: int|
            0 <= k < run.len() ==> (#[trigger] run[k]).event == SupervisorEvent::TimerElapsed,
    ensures
        run[0].at >= start + timeout,
        actions_of(SupervisorState::Running, timeout, events_of(run))[0]
            == SupervisorAction::SignalTimeout,
        forall|j: int|
            1 <= j < run.len() ==> #[trigger] actions_of(
                SupervisorState::Running,
                timeout,
                events_of(run),
            )[j] == SupervisorAction::Nothing,
        state_after(SupervisorState::Running, timeout, events_of(run)) == SupervisorState::Done,
{
    let start_state = SupervisorState::Running;
    let events = events_of(run);
    assert(run[0].event == SupervisorEvent::TimerElapsed);
    lemma_no_early_timeout(start, timeout as nat, run, 0);
    assert(events.take(0) =~= Seq::<SupervisorEvent>::empty());
    assert(events[0] == SupervisorEvent::TimerElapsed);
    assert forall|j: int| 1 <= j <= run.len() implies state_after(
        start_state,
        timeout,
        #[trigger] events.take(j),
    ) == SupervisorState::Done by {
        let upto = events.take(j);
        let first = upto.take(1);
        assert(first.drop_last() =~= Seq::<SupervisorEvent>::empty());
        assert(first.last() == events[0]);
        assert(state_after(start_state, timeout, first) == SupervisorState::Done);
        lemma_state_after_split(start_state, timeout, upto, 1);
        lemma_done_stays_done(timeout, upto.skip(1));
    }
    assert(events.take(run.len() as int) =~= events);
    assert forall|j: int| 1 <= j < run.len() implies #[trigger] actions_of(
        start_state,
        timeout,
        events,
    )[j] == SupervisorAction::Nothing by {
        assert(state_after(start_state, timeout, events.take(j)) == SupervisorState::Done);
    }
}

/// Events that are no keep-alives leave the deadline where it was.
pub proof fn lemma_deadline_stays(start: nat, timeout: nat, run: Seq<Timed>, i: int, j: int)
    requires
        0 <= i <= j <= run.len(),
        forall|k: int| i <= k < j ==> (#[trigger] run[k]).event != SupervisorEvent::Ping,
    ensures
        deadline(start, timeout, run.take(j)) == deadline(start, timeout, run.take(i)),
    decreases j - i,
{
    if i < j {
        let upto = run.take(j);
        assert(upto.last() == run[j - 1]);
        assert(upto.drop_last() =~= run.take(j - 1));
        lemma_deadline_stays(start, timeout, run, i, j - 1);
    }
}

/// Where every keep-alive comes in time, the timer does not run out before
/// a keep-alive: no keep-alive follows an event at which it ran out.
pub proof fn lemma_no_timeout_before_ping(
    start: nat,
    timeout: nat,
    run: Seq<Timed>,
    i: int,
    j: int,
)
    requires
        possible(start, timeout, run),
        kept_alive(start, timeout, run),
        0 <= i < j < run.len(),
        run[j].event == SupervisorEvent::Ping,
    ensures
        run[i].event != SupervisorEvent::TimerElapsed,
    decreases j - i,
{
    if run[i].event == SupervisorEvent::TimerElapsed {
        if exists|k: int| i < k < j && (#[trigger] run[k]).event == SupervisorEvent::Ping {
            let k = choose|k: int| i < k < j && (#[trigger] run[k]).event == SupervisorEvent::Ping;
            lemma_no_timeout_before_ping(start, timeout, run, i, k);
        } else {
            lemma_deadline_stays(start, timeout, run, i, j);
            assert(run[i].at >= deadline(start, timeout, run.take(i)));
            assert(run[j].at < deadline(start, timeout, run.take(j)));
            assert(run[i].at <= run[j].at);
        }
    }
}

/// Keep-alives that come in time keep the connection alive: in a run that a
/// timer allows, that ends with a keep-alive, in which every keep-alive
/// comes before the timer would run out and the connection does not go away,
/// the supervisor still watches at the end and has not told the connection
/// that it timed out.
pub proof fn lemma_kept_alive(start: nat, timeout: u64, run: Seq<Timed>)
    requires
        possible(start, timeout as nat, run),
        kept_alive(start, timeout as nat, run),
        run.len() > 0,
        run.last().event == SupervisorEvent::Ping,
        forall|i: int|
            0 <= i < run.len() ==> (#[trigger] run[i]).event != SupervisorEvent::ChannelClosed,
    ensures
        state_after(SupervisorState::Running, timeout, events_of(run)) == SupervisorState::Running,
        forall|i: int|
            0 <= i < run.len() ==> #[trigger] actions_of(
                SupervisorState::Running,
                timeout,
                events_of(run),
            )[i] == SupervisorAction::ResetTimer(timeout),
{
    let events = events_of(run);
    assert forall|i: int| 0 <= i < events.len() implies events[i] == SupervisorEvent::Ping by {
        assert(run[i].event != SupervisorEvent::ChannelClosed);
        if i < run.len() - 1 {
            lemma_no_timeout_before_ping(start, timeout as nat, run, i, run.len() - 1);
        }
    }
    lemma_pings_keep_running(timeout, events);
}

} // verus!
