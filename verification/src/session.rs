//! The streaming transcription session, as a state machine.
//!
//! One session runs per trigger press. The orchestration loop around it
//! performs the network work (connect, send, receive, timers) and feeds
//! every observation into [`Session::on_input`]; the machine decides what
//! happens — which callback fires, when the grace timer is armed, when the
//! credential must be invalidated — and those decisions are verified here
//! for every possible input.

use vstd::prelude::*;

verus! {

/// Lifecycle states of one session.
#[derive(Debug, Clone, Copy, PartialEq, Eq, Structural)]
pub enum SessionState {
    Idle,
    Connecting,
    Streaming,
    Finalizing,
    Closed,
}

/// A recognized inbound wire event.
#[derive(Debug, Clone, PartialEq)]
pub enum TranscriptEvent {
    /// An in-progress transcript; overwrites, never appends to, the last one.
    Partial(String),
    /// The service's explicit finish acknowledgment.
    Final(String),
    /// A service-side failure carrying a non-zero code.
    ServiceError(i64, String),
}

/// Everything the orchestration loop can observe and feed to the machine.
#[derive(Debug, Clone, PartialEq)]
pub enum SessionInput {
    /// A recognized inbound event.
    Inbound(TranscriptEvent),
    /// A frame that did not parse: logged and skipped, never fatal.
    Malformed,
    /// The stop signal was observed.
    Stop,
    /// The grace timer armed at stop expired with no finish event.
    GraceExpired,
    /// The connection closed or failed before a finish event.
    Disconnected,
}

/// What the orchestration loop must do after a step.
#[derive(Debug, Clone, PartialEq)]
pub enum SessionAction {
    /// Nothing to do.
    Nothing,
    /// Deliver `on_partial` with this text.
    EmitPartial(String),
    /// Deliver `on_final` with this text; the session closed successfully.
    FinishWith(String),
    /// The session closed successfully but no transcript ever arrived, so
    /// `on_final` is not delivered.
    FinishSilent,
    /// Invalidate the cached credential and report the error; `on_final` is
    /// not delivered.
    FailInvalidate(i64, String),
    /// Arm the bounded grace timer.
    ArmGrace,
}

/// How a closed session ended.
#[derive(Debug, Clone, PartialEq)]
pub enum SessionOutcome {
    /// Finished normally; `on_final` fired exactly when a transcript existed.
    Success,
    /// Credential acquisition or the handshake failed; nothing was streamed.
    ConnectFailed(String),
    /// The service reported a non-zero code; the credential was invalidated.
    ServiceFailed(i64, String),
}

/// One transcription session.
#[derive(Debug, Clone, PartialEq)]
pub struct Session {
    /// Where the lifecycle stands.
    pub state: SessionState,
    /// The current best-known transcript; empty while none has arrived.
    pub partial: String,
    /// Set exactly when the session reaches `Closed`.
    pub outcome: Option<SessionOutcome>,
}

/// Whether the machine is in one of the two states that react to inputs.
pub open spec fn is_active(s: Session) -> bool {
    s.state == SessionState::Streaming || s.state == SessionState::Finalizing
}

/// The session that `s` closes into, with the given outcome.
pub open spec fn closed_with(s: Session, outcome: SessionOutcome) -> Session {
    Session { state: SessionState::Closed, partial: s.partial, outcome: Some(outcome) }
}

/// The action a successful close performs: deliver the current transcript
/// if one exists, otherwise stay silent.
pub open spec fn finish_action(s: Session) -> SessionAction {
    if s.partial@.len() > 0 {
        SessionAction::FinishWith(s.partial)
    } else {
        SessionAction::FinishSilent
    }
}

/// The transition relation: given a session and one observation, the next
/// session and the action the loop must take. Inputs reaching a session
/// that is not actively streaming or finalizing — in particular a closed
/// one — do nothing, so no callback ever fires after `Closed`.
pub open spec fn spec_step(s: Session, input: SessionInput) -> (Session, SessionAction) {
    if !is_active(s) {
        (s, SessionAction::Nothing)
    } else {
        match input {
            SessionInput::Inbound(TranscriptEvent::Partial(t)) => {
                if t@.len() > 0 {
                    (
                        Session { state: s.state, partial: t, outcome: s.outcome },
                        SessionAction::EmitPartial(t),
                    )
                } else {
                    (s, SessionAction::Nothing)
                }
            },
            SessionInput::Inbound(TranscriptEvent::Final(_)) => {
                (closed_with(s, SessionOutcome::Success), finish_action(s))
            },
            SessionInput::Inbound(TranscriptEvent::ServiceError(code, msg)) => {
                (
                    closed_with(s, SessionOutcome::ServiceFailed(code, msg)),
                    SessionAction::FailInvalidate(code, msg),
                )
            },
            SessionInput::Malformed => (s, SessionAction::Nothing),
            SessionInput::Stop => {
                if s.state == SessionState::Streaming {
                    (
                        Session {
                            state: SessionState::Finalizing,
                            partial: s.partial,
                            outcome: s.outcome,
                        },
                        SessionAction::ArmGrace,
                    )
                } else {
                    (s, SessionAction::Nothing)
                }
            },
            SessionInput::GraceExpired => {
                if s.state == SessionState::Finalizing {
                    (closed_with(s, SessionOutcome::Success), finish_action(s))
                } else {
                    (s, SessionAction::Nothing)
                }
            },
            SessionInput::Disconnected => {
                (closed_with(s, SessionOutcome::Success), finish_action(s))
            },
        }
    }
}

impl Session {
    /// The outcome exists exactly when the session has closed.
    pub open spec fn wf(self) -> bool {
        (self.state == SessionState::Closed) <==> self.outcome.is_some()
    }

    /// A fresh session, before any connection attempt.
    pub fn new() -> (r: Session)
        ensures
            r.wf(),
            r.state == SessionState::Idle,
            r.partial@.len() == 0,
            r.outcome.is_none(),
    {
        Session { state: SessionState::Idle, partial: String::new(), outcome: None }
    }

    /// A credential snapshot is in hand and the handshake is starting.
    pub fn begin_connect(&mut self)
        requires
            old(self).state == SessionState::Idle,
        ensures
            *final(self) == (Session {
                state: SessionState::Connecting,
                partial: old(self).partial,
                outcome: old(self).outcome,
            }),
    {
        self.state = SessionState::Connecting;
    }

    /// The duplex connection is up: streaming begins.
    pub fn connected(&mut self)
        requires
            old(self).state == SessionState::Connecting,
        ensures
            *final(self) == (Session {
                state: SessionState::Streaming,
                partial: old(self).partial,
                outcome: old(self).outcome,
            }),
    {
        self.state = SessionState::Streaming;
    }

    /// Credential acquisition or the handshake failed: fatal to the session,
    /// and `on_final` never fires.
    pub fn connect_failed(&mut self, reason: String)
        requires
            old(self).state == SessionState::Idle || old(self).state == SessionState::Connecting,
        ensures
            *final(self) == closed_with(*old(self), SessionOutcome::ConnectFailed(reason)),
    {
        self.state = SessionState::Closed;
        self.outcome = Some(SessionOutcome::ConnectFailed(reason));
    }

    /// Feed one observation through the transition relation.
    pub fn on_input(&mut self, input: SessionInput) -> (a: SessionAction)
        ensures
            *final(self) == spec_step(*old(self), input).0,
            a == spec_step(*old(self), input).1,
    {
        if !(matches!(self.state, SessionState::Streaming) || matches!(
            self.state,
            SessionState::Finalizing,
        )) {
            return SessionAction::Nothing;
        }
        match input {
            SessionInput::Inbound(TranscriptEvent::Partial(t)) => {
                if t.as_str().is_empty() {
                    SessionAction::Nothing
                } else {
                    self.partial = t.clone();
                    SessionAction::EmitPartial(t)
                }
            },
            SessionInput::Inbound(TranscriptEvent::Final(_)) => self.close_success(),
            SessionInput::Inbound(TranscriptEvent::ServiceError(code, msg)) => {
                self.state = SessionState::Closed;
                self.outcome = Some(SessionOutcome::ServiceFailed(code, msg.clone()));
                SessionAction::FailInvalidate(code, msg)
            },
            SessionInput::Malformed => SessionAction::Nothing,
            SessionInput::Stop => {
                if matches!(self.state, SessionState::Streaming) {
                    self.state = SessionState::Finalizing;
                    SessionAction::ArmGrace
                } else {
                    SessionAction::Nothing
                }
            },
            SessionInput::GraceExpired => {
                if matches!(self.state, SessionState::Finalizing) {
                    self.close_success()
                } else {
                    SessionAction::Nothing
                }
            },
            SessionInput::Disconnected => self.close_success(),
        }
    }

    /// Close successfully, delivering the transcript if one exists.
    fn close_success(&mut self) -> (a: SessionAction)
        ensures
            *final(self) == closed_with(*old(self), SessionOutcome::Success),
            a == finish_action(*old(self)),
    {
        self.state = SessionState::Closed;
        self.outcome = Some(SessionOutcome::Success);
        if self.partial.as_str().is_empty() {
            SessionAction::FinishSilent
        } else {
            SessionAction::FinishWith(self.partial.clone())
        }
    }
}

/// Actions that end the session: a success close (with or without a
/// transcript) or an error close.
pub open spec fn is_terminal_action(a: SessionAction) -> bool {
    a matches SessionAction::FinishWith(_) || a == SessionAction::FinishSilent
        || a matches SessionAction::FailInvalidate(_, _)
}

/// Actions that deliver a callback to the consumer.
pub open spec fn is_callback_action(a: SessionAction) -> bool {
    a matches SessionAction::EmitPartial(_) || a matches SessionAction::FinishWith(_)
}

/// The actions a session performs on a whole sequence of observations.
pub open spec fn run_actions(s: Session, inputs: Seq<SessionInput>) -> Seq<SessionAction>
    decreases inputs.len(),
{
    if inputs.len() == 0 {
        Seq::empty()
    } else {
        seq![spec_step(s, inputs[0]).1] + run_actions(spec_step(s, inputs[0]).0, inputs.drop_first())
    }
}

/// The session a whole sequence of observations leaves behind.
pub open spec fn run_state(s: Session, inputs: Seq<SessionInput>) -> Session
    decreases inputs.len(),
{
    if inputs.len() == 0 {
        s
    } else {
        run_state(spec_step(s, inputs[0]).0, inputs.drop_first())
    }
}

/// How many of the actions satisfy a property.
pub open spec fn count_matching(actions: Seq<SessionAction>, p: spec_fn(SessionAction) -> bool) -> int
    decreases actions.len(),
{
    if actions.len() == 0 {
        0
    } else {
        (if p(actions[0]) {
            1int
        } else {
            0int
        }) + count_matching(actions.drop_first(), p)
    }
}

/// A closed session ignores every further observation: no state change and
/// no action — in particular, no callback ever fires after `Closed`.
pub proof fn lemma_closed_is_final(s: Session, inputs: Seq<SessionInput>)
    requires
        s.state == SessionState::Closed,
    ensures
        run_state(s, inputs) == s,
        forall|k: int|
            0 <= k < run_actions(s, inputs).len() ==> run_actions(s, inputs)[k]
                == SessionAction::Nothing,
        run_actions(s, inputs).len() == inputs.len(),
    decreases inputs.len(),
{
    if inputs.len() > 0 {
        lemma_closed_is_final(s, inputs.drop_first());
        assert forall|k: int| 0 <= k < run_actions(s, inputs).len() implies run_actions(s, inputs)[k]
            == SessionAction::Nothing by {
            if k > 0 {
                assert(run_actions(s, inputs)[k] == run_actions(s, inputs.drop_first())[k - 1]);
            }
        }
    }
}

/// A single step emits a terminal action exactly when it closes an active
/// session.
pub proof fn lemma_terminal_iff_closes(s: Session, input: SessionInput)
    ensures
        is_terminal_action(spec_step(s, input).1) <==> (is_active(s) && spec_step(s, input).0.state
            == SessionState::Closed),
{
}

/// Over any whole run, at most one terminal action occurs: exactly one of
/// {successful close, error close} happens per session, never more.
pub proof fn lemma_at_most_one_terminal(s: Session, inputs: Seq<SessionInput>)
    ensures
        count_matching(run_actions(s, inputs), |a: SessionAction| is_terminal_action(a)) <= 1,
    decreases inputs.len(),
{
    let p = |a: SessionAction| is_terminal_action(a);
    if inputs.len() > 0 {
        let s1 = spec_step(s, inputs[0]).0;
        let a0 = spec_step(s, inputs[0]).1;
        let rest = run_actions(s1, inputs.drop_first());
        assert(run_actions(s, inputs).drop_first() =~= rest);
        if p(a0) {
            lemma_terminal_iff_closes(s, inputs[0]);
            lemma_closed_is_final(s1, inputs.drop_first());
            lemma_count_none(rest, p);
        } else {
            lemma_at_most_one_terminal(s1, inputs.drop_first());
        }
    }
}

proof fn lemma_count_none(actions: Seq<SessionAction>, p: spec_fn(SessionAction) -> bool)
    requires
        forall|k: int| 0 <= k < actions.len() ==> !p(#[trigger] actions[k]),
    ensures
        count_matching(actions, p) == 0,
    decreases actions.len(),
{
    if actions.len() > 0 {
        assert(forall|k: int|
            0 <= k < actions.drop_first().len() ==> actions.drop_first()[k] == actions[k + 1]);
        lemma_count_none(actions.drop_first(), p);
    }
}

/// Stop with no finish event inside the grace period: the timeout path
/// delivers `on_final` with the last partial exactly once, and nothing —
/// no callback at all — fires afterwards.
pub proof fn lemma_grace_timeout_finalizes(s: Session, later: Seq<SessionInput>)
    requires
        s.state == SessionState::Finalizing,
        s.partial@.len() > 0,
    ensures
        spec_step(s, SessionInput::GraceExpired).1 == SessionAction::FinishWith(s.partial),
        spec_step(s, SessionInput::GraceExpired).0.state == SessionState::Closed,
        spec_step(s, SessionInput::GraceExpired).0.outcome == Some(SessionOutcome::Success),
        forall|k: int|
            0 <= k < run_actions(spec_step(s, SessionInput::GraceExpired).0, later).len()
                ==> run_actions(spec_step(s, SessionInput::GraceExpired).0, later)[k]
                == SessionAction::Nothing,
{
    lemma_closed_is_final(spec_step(s, SessionInput::GraceExpired).0, later);
}

/// A service error closes the session with an error: exactly one
/// credential-invalidation action, no `on_final` in that step, and no
/// callback on any later observation of that run.
pub proof fn lemma_service_error_aborts(
    s: Session,
    code: i64,
    msg: String,
    later: Seq<SessionInput>,
)
    requires
        is_active(s),
    ensures
        ({
            let step = spec_step(
                s,
                SessionInput::Inbound(TranscriptEvent::ServiceError(code, msg)),
            );
            &&& step.1 == SessionAction::FailInvalidate(code, msg)
            &&& !is_callback_action(step.1)
            &&& step.0.state == SessionState::Closed
            &&& step.0.outcome == Some(SessionOutcome::ServiceFailed(code, msg))
            &&& count_matching(
                seq![step.1] + run_actions(step.0, later),
                |a: SessionAction| is_callback_action(a),
            ) == 0
            &&& count_matching(
                seq![step.1] + run_actions(step.0, later),
                |a: SessionAction| a matches SessionAction::FailInvalidate(_, _),
            ) == 1
        }),
{
    let step = spec_step(s, SessionInput::Inbound(TranscriptEvent::ServiceError(code, msg)));
    let pcb = |a: SessionAction| is_callback_action(a);
    let pinv = |a: SessionAction| a matches SessionAction::FailInvalidate(_, _);
    lemma_closed_is_final(step.0, later);
    let whole = seq![step.1] + run_actions(step.0, later);
    assert(whole.drop_first() =~= run_actions(step.0, later));
    assert(forall|k: int|
        0 <= k < whole.drop_first().len() ==> !pcb(#[trigger] whole.drop_first()[k]));
    lemma_count_none(whole.drop_first(), pcb);
    assert(forall|k: int|
        0 <= k < whole.drop_first().len() ==> !pinv(#[trigger] whole.drop_first()[k]));
    lemma_count_none(whole.drop_first(), pinv);
}

} // verus!
