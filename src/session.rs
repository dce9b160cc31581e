//! The decisions of the session supervisor.
//!
//! A session opens the serial source and the broker connection, then runs two
//! lanes: ingestion (telegrams to messages) and the drain of the client's
//! background events. Whichever lane ends first ends the session; the fault is
//! reported, the handles are closed, and after a fixed delay a new session
//! opens. The caller performs each action and hands back what happened.
use vstd::prelude::*;

verus! {

/// Why a session ended.
#[derive(Clone, Copy, Debug, PartialEq, Eq, Structural)]
pub enum SessionFault {
    /// Opening, configuring or reading the serial source failed.
    Source,
    /// The telegram decoder rejected a telegram.
    Decode,
    /// Connecting, publishing or disconnecting on the broker failed.
    Transport,
    /// The telegram stream ended without a fault.
    StreamExhausted,
}

/// The two concurrent lanes of a session.
#[derive(Clone, Copy, Debug, PartialEq, Eq, Structural)]
pub enum Lane {
    /// Reads and decodes telegrams and publishes their messages.
    Ingestion,
    /// Receives the broker client's background events.
    EventDrain,
}

/// Where the supervisor stands.
#[derive(Clone, Copy, Debug, PartialEq, Eq, Structural)]
pub enum SessionState {
    /// No session is open.
    Disconnected,
    /// A session is open and its lanes run.
    Streaming,
    /// The session ended; its handles are being closed.
    TearingDown,
}

/// What happened, as the caller reports it.
#[derive(Clone, Copy, Debug, PartialEq, Eq, Structural)]
pub enum SessionEvent {
    /// The supervisor may open a session.
    Start,
    /// The ingestion lane published all messages of one telegram.
    TelegramPublished,
    /// A lane failed or returned, which ends the session.
    LaneEnded(Lane, SessionFault),
    /// The best-effort close of the handles is done.
    HandlesClosed,
}

/// What the caller is to do next.
#[derive(Clone, Copy, Debug, PartialEq, Eq, Structural)]
pub enum SessionAction {
    /// Open the serial source and the broker connection and start both lanes.
    OpenSession,
    /// Let the lanes run on.
    KeepStreaming,
    /// Report the fault, drop the other lane and close both handles.
    ReportAndClose(SessionFault),
    /// Wait this many seconds, then hand back `Start`.
    WaitBackoff(u64),
    /// Nothing: the event does not concern the current state.
    Nothing,
}

/// One step of the supervisor: the next state and the action for an event.
/// Events that do not concern the current state change nothing; in
/// particular a lane that ends after the session already ended is not
/// reported again.
pub open spec fn next(s: SessionState, e: SessionEvent, backoff: u64) -> (SessionState, SessionAction) {
    match (s, e) {
        (SessionState::Disconnected, SessionEvent::Start) => (
            SessionState::Streaming,
            SessionAction::OpenSession,
        ),
        (SessionState::Streaming, SessionEvent::TelegramPublished) => (
            SessionState::Streaming,
            SessionAction::KeepStreaming,
        ),
        (SessionState::Streaming, SessionEvent::LaneEnded(_, f)) => (
            SessionState::TearingDown,
            SessionAction::ReportAndClose(f),
        ),
        (SessionState::TearingDown, SessionEvent::HandlesClosed) => (
            SessionState::Disconnected,
            SessionAction::WaitBackoff(backoff),
        ),
        _ => (s, SessionAction::Nothing),
    }
}

/// The state after a sequence of events.
pub open spec fn state_after(s: SessionState, events: Seq<SessionEvent>, backoff: u64) -> SessionState
    decreases events.len(),
{
    if events.len() == 0 {
        s
    } else {
        next(state_after(s, events.drop_last(), backoff), events.last(), backoff).0
    }
}

/// The actions for a sequence of events, one per event.
pub open spec fn actions_after(s: SessionState, events: Seq<SessionEvent>, backoff: u64) -> Seq<
    SessionAction,
>
    decreases events.len(),
{
    if events.len() == 0 {
        Seq::empty()
    } else {
        actions_after(s, events.drop_last(), backoff).push(
            next(state_after(s, events.drop_last(), backoff), events.last(), backoff).1,
        )
    }
}

/// How many sessions the actions open.
pub open spec fn opened(acts: Seq<SessionAction>) -> nat
    decreases acts.len(),
{
    if acts.len() == 0 {
        0
    } else {
        opened(acts.drop_last()) + if acts.last() == SessionAction::OpenSession {
            1nat
        } else {
            0nat
        }
    }
}

/// How many faults the actions report.
pub open spec fn reported(acts: Seq<SessionAction>) -> nat
    decreases acts.len(),
{
    if acts.len() == 0 {
        0
    } else {
        reported(acts.drop_last()) + if acts.last() is ReportAndClose {
            1nat
        } else {
            0nat
        }
    }
}

/// The session supervisor: its state and the fixed delay between sessions.
pub struct Supervisor {
    pub state: SessionState,
    pub backoff_secs: u64,
}

impl Supervisor {
    /// A supervisor with no session open.
    pub fn new(backoff_secs: u64) -> (r: Supervisor)
        ensures
            r.state == SessionState::Disconnected,
            r.backoff_secs == backoff_secs,
    {
        Supervisor { state: SessionState::Disconnected, backoff_secs }
    }

    /// Takes one event and says what to do.
    pub fn step(&mut self, event: SessionEvent) -> (r: SessionAction)
        ensures
            (final(self).state, r) == next(old(self).state, event, old(self).backoff_secs),
            final(self).backoff_secs == old(self).backoff_secs,
    {
        let (state, action) = match (self.state, event) {
            (SessionState::Disconnected, SessionEvent::Start) => (
                SessionState::Streaming,
                SessionAction::OpenSession,
            ),
            (SessionState::Streaming, SessionEvent::TelegramPublished) => (
                SessionState::Streaming,
                SessionAction::KeepStreaming,
            ),
            (SessionState::Streaming, SessionEvent::LaneEnded(_, f)) => (
                SessionState::TearingDown,
                SessionAction::ReportAndClose(f),
            ),
            (SessionState::TearingDown, SessionEvent::HandlesClosed) => (
                SessionState::Disconnected,
                SessionAction::WaitBackoff(self.backoff_secs),
            ),
            _ => (self.state, SessionAction::Nothing),
        };
        self.state = state;
        action
    }
}

/// Every session that was opened and is no longer streaming had its fault
/// reported exactly once: from a supervisor with no session open, the number
/// of sessions opened equals the number of faults reported, plus one while a
/// session is streaming.
pub proof fn lemma_each_session_reported_once(events: Seq<SessionEvent>, backoff: u64)
    ensures
        opened(actions_after(SessionState::Disconnected, events, backoff)) == reported(
            actions_after(SessionState::Disconnected, events, backoff),
        ) + if state_after(SessionState::Disconnected, events, backoff)
            == SessionState::Streaming {
            1nat
        } else {
            0nat
        },
    decreases events.len(),
{
    if events.len() > 0 {
        lemma_each_session_reported_once(events.drop_last(), backoff);
        let acts = actions_after(SessionState::Disconnected, events, backoff);
        assert(acts.drop_last() == actions_after(
            SessionState::Disconnected,
            events.drop_last(),
            backoff,
        ));
    }
}

proof fn lemma_after_push(s: SessionState, events: Seq<SessionEvent>, e: SessionEvent, backoff: u64)
    ensures
        state_after(s, events.push(e), backoff) == next(state_after(s, events, backoff), e, backoff).0,
        actions_after(s, events.push(e), backoff) == actions_after(s, events, backoff).push(
            next(state_after(s, events, backoff), e, backoff).1,
        ),
{
    assert(events.push(e).drop_last() == events);
}

/// A fault in the middle of a session, from either lane, tears the session
/// down: the fault is reported, the handles are closed, the supervisor waits
/// the backoff, and then opens a new session.
pub proof fn lemma_fault_restarts_session(lane: Lane, fault: SessionFault, backoff: u64)
    ensures
        ({
            let events = seq![
                SessionEvent::LaneEnded(lane, fault),
                SessionEvent::HandlesClosed,
                SessionEvent::Start,
            ];
            &&& actions_after(SessionState::Streaming, events, backoff) == seq![
                SessionAction::ReportAndClose(fault),
                SessionAction::WaitBackoff(backoff),
                SessionAction::OpenSession,
            ]
            &&& state_after(SessionState::Streaming, events, backoff) == SessionState::Streaming
        }),
{
    let s = SessionState::Streaming;
    let e0 = Seq::<SessionEvent>::empty();
    let e1 = e0.push(SessionEvent::LaneEnded(lane, fault));
    let e2 = e1.push(SessionEvent::HandlesClosed);
    let e3 = e2.push(SessionEvent::Start);
    lemma_after_push(s, e0, SessionEvent::LaneEnded(lane, fault), backoff);
    lemma_after_push(s, e1, SessionEvent::HandlesClosed, backoff);
    lemma_after_push(s, e2, SessionEvent::Start, backoff);
    assert(e3 =~= seq![
        SessionEvent::LaneEnded(lane, fault),
        SessionEvent::HandlesClosed,
        SessionEvent::Start,
    ]);
    assert(actions_after(s, e3, backoff) =~= seq![
        SessionAction::ReportAndClose(fault),
        SessionAction::WaitBackoff(backoff),
        SessionAction::OpenSession,
    ]);
}

/// The event-drain lane ending ends the session even before any telegram
/// arrived: right after a session opens, its end tears the session down and
/// its fault is reported.
pub proof fn lemma_drain_lane_ends_session(fault: SessionFault, backoff: u64)
    ensures
        ({
            let events = seq![
                SessionEvent::Start,
                SessionEvent::LaneEnded(Lane::EventDrain, fault),
            ];
            &&& actions_after(SessionState::Disconnected, events, backoff) == seq![
                SessionAction::OpenSession,
                SessionAction::ReportAndClose(fault),
            ]
            &&& state_after(SessionState::Disconnected, events, backoff)
                == SessionState::TearingDown
        }),
{
    let s = SessionState::Disconnected;
    let e0 = Seq::<SessionEvent>::empty();
    let e1 = e0.push(SessionEvent::Start);
    let e2 = e1.push(SessionEvent::LaneEnded(Lane::EventDrain, fault));
    lemma_after_push(s, e0, SessionEvent::Start, backoff);
    lemma_after_push(s, e1, SessionEvent::LaneEnded(Lane::EventDrain, fault), backoff);
    assert(e2 =~= seq![SessionEvent::Start, SessionEvent::LaneEnded(Lane::EventDrain, fault)]);
    assert(actions_after(s, e2, backoff) =~= seq![
        SessionAction::OpenSession,
        SessionAction::ReportAndClose(fault),
    ]);
}

/// No state is final: from every state a few events lead to a new session.
pub proof fn lemma_no_terminal_state(s: SessionState, backoff: u64)
    ensures
        exists|events: Seq<SessionEvent>|
            #![trigger state_after(s, events, backoff)]
            events.len() > 0 && actions_after(s, events, backoff).last()
                == SessionAction::OpenSession && state_after(s, events, backoff)
                == SessionState::Streaming,
{
    let e0 = Seq::<SessionEvent>::empty();
    match s {
        SessionState::Disconnected => {
            lemma_after_push(s, e0, SessionEvent::Start, backoff);
            assert(state_after(s, e0.push(SessionEvent::Start), backoff) == SessionState::Streaming);
        },
        SessionState::Streaming => {
            let e1 = e0.push(SessionEvent::LaneEnded(Lane::Ingestion, SessionFault::StreamExhausted));
            let e2 = e1.push(SessionEvent::HandlesClosed);
            lemma_after_push(s, e0, SessionEvent::LaneEnded(Lane::Ingestion, SessionFault::StreamExhausted), backoff);
            lemma_after_push(s, e1, SessionEvent::HandlesClosed, backoff);
            lemma_after_push(s, e2, SessionEvent::Start, backoff);
            assert(state_after(s, e2.push(SessionEvent::Start), backoff) == SessionState::Streaming);
        },
        SessionState::TearingDown => {
            let e1 = e0.push(SessionEvent::HandlesClosed);
            lemma_after_push(s, e0, SessionEvent::HandlesClosed, backoff);
            lemma_after_push(s, e1, SessionEvent::Start, backoff);
            assert(state_after(s, e1.push(SessionEvent::Start), backoff) == SessionState::Streaming);
        },
    }
}

} // verus!
