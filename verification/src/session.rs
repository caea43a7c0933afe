//! The authentication state machine.
//!
//! An [`AuthSession`] tracks one login attempt: its current [`Phase`], the
//! username and secret captured from the caller, and the last response seen.
//! It is driven from two sides.  Caller intents ([`AuthSession::begin_login`],
//! [`AuthSession::supply_auth_value`], [`AuthSession::choose_session`],
//! [`AuthSession::cancel`]) start, answer, finish or abort an attempt; each
//! decoded daemon response goes through [`AuthSession::handle_response`].
//! Every transition returns the at most one request that must be sent next,
//! so the caller's dispatcher stays a plain forwarding loop.
//!
//! The transition table is total: a structurally valid response arriving in
//! a phase that does not expect it is a protocol violation — reported in the
//! outcome for logging, with the phase kept — never a panic, so a misordered
//! or duplicated frame cannot corrupt an otherwise recoverable attempt.
//!
//! When a secret prompt arrives and a secret has already been captured, the
//! machine answers at once and moves to [`Phase::AwaitingLoginResult`] (the
//! credential reply is sent); with no secret at hand it parks in
//! [`Phase::AwaitingAuthResponse`] until [`AuthSession::supply_auth_value`]
//! provides one.  Prompts that may be echoed are answered with the captured
//! username; informational and error notices get the empty acknowledgement
//! the daemon expects, in the same phase.

use vstd::prelude::*;
use crate::protocol::AuthMessageType;
use crate::protocol::Request;
use crate::protocol::RequestView;
use crate::protocol::Response;
use crate::protocol::ResponseView;

verus! {

/// Where a login attempt stands.
#[derive(Debug, Clone, PartialEq, Eq)]
pub enum Phase {
    /// No attempt in progress.
    Idle,
    /// `CreateSession` sent; waiting for the daemon's first answer.
    AwaitingSessionCreation,
    /// A secret prompt arrived and waits for the caller's value.
    AwaitingAuthResponse,
    /// A credential reply was sent; waiting for the result.
    AwaitingLoginResult,
    /// Authentication succeeded; the caller chooses what to launch.
    ReadyToStartSession,
    /// The attempt failed with the daemon's description; a fresh
    /// `begin_login` discards it.
    Failed(String),
}

/// Mathematical view of a [`Phase`].
pub enum PhaseView {
    Idle,
    AwaitingSessionCreation,
    AwaitingAuthResponse,
    AwaitingLoginResult,
    ReadyToStartSession,
    Failed(Seq<char>),
}

impl View for Phase {
    type V = PhaseView;

    open spec fn view(&self) -> PhaseView {
        match self {
            Phase::Idle => PhaseView::Idle,
            Phase::AwaitingSessionCreation => PhaseView::AwaitingSessionCreation,
            Phase::AwaitingAuthResponse => PhaseView::AwaitingAuthResponse,
            Phase::AwaitingLoginResult => PhaseView::AwaitingLoginResult,
            Phase::ReadyToStartSession => PhaseView::ReadyToStartSession,
            Phase::Failed(d) => PhaseView::Failed(d@),
        }
    }
}

/// What one transition asks of the caller.
pub struct StepOutcome {
    /// The request to send next, if the transition emits one.
    pub request: Option<Request>,
    /// True when the response did not fit the current phase and was
    /// ignored; the caller should log it.
    pub violation: bool,
}

/// Mathematical view of an optional outbound request.
pub open spec fn opt_request_view(o: Option<Request>) -> Option<RequestView> {
    match o {
        Some(q) => Some(q@),
        None => None,
    }
}

/// Mathematical view of an optional inbound response.
pub open spec fn opt_response_view(o: Option<Response>) -> Option<ResponseView> {
    match o {
        Some(p) => Some(p@),
        None => None,
    }
}

/// Mathematical view of an [`AuthSession`].
pub struct SessionView {
    pub phase: PhaseView,
    pub username: Seq<char>,
    pub secret: Option<Seq<char>>,
    pub start_requested: bool,
    pub last_response: Option<ResponseView>,
}

/// A session is well formed when a launch can only have been requested from
/// the ready phase.
pub open spec fn session_wf(s: SessionView) -> bool {
    s.start_requested ==> s.phase is ReadyToStartSession
}

/// True when a request has been sent whose response has not yet arrived.
/// Cancellation is exempt: it is fire-and-forget.
pub open spec fn in_flight(s: SessionView) -> bool {
    ||| s.phase is AwaitingSessionCreation
    ||| s.phase is AwaitingLoginResult
    ||| (s.phase is ReadyToStartSession && s.start_requested)
}

/// The transition table for an inbound response: next state, the request to
/// send, and whether the response was a protocol violation.
pub open spec fn spec_step(s: SessionView, r: ResponseView) -> (SessionView, Option<
    RequestView,
>, bool) {
    let noted = SessionView { last_response: Some(r), ..s };
    match (s.phase, r) {
        (PhaseView::Idle, _) => (noted, None, true),
        (PhaseView::Failed(_), _) => (noted, None, true),
        (_, ResponseView::Error { error_type, description }) => (
            SessionView { phase: PhaseView::Failed(description), start_requested: false, ..noted },
            None,
            false,
        ),
        (PhaseView::ReadyToStartSession, ResponseView::Success) => if s.start_requested {
            (
                SessionView { phase: PhaseView::Idle, start_requested: false, ..noted },
                None,
                false,
            )
        } else {
            (noted, None, true)
        },
        (_, ResponseView::Success) => (
            SessionView { phase: PhaseView::ReadyToStartSession, ..noted },
            None,
            false,
        ),
        (PhaseView::AwaitingAuthResponse, ResponseView::AuthMessage { .. }) => (noted, None, true),
        (PhaseView::ReadyToStartSession, ResponseView::AuthMessage { .. }) => (noted, None, true),
        (
            _,
            ResponseView::AuthMessage { auth_message_type: AuthMessageType::Secret, auth_message },
        ) => match s.secret {
            Some(sec) => (
                SessionView { phase: PhaseView::AwaitingLoginResult, ..noted },
                Some(RequestView::PostAuthMessageResponse { response: Some(sec) }),
                false,
            ),
            None => (
                SessionView { phase: PhaseView::AwaitingAuthResponse, ..noted },
                None,
                false,
            ),
        },
        (
            _,
            ResponseView::AuthMessage { auth_message_type: AuthMessageType::Visible, auth_message },
        ) => (
            noted,
            Some(RequestView::PostAuthMessageResponse { response: Some(s.username) }),
            false,
        ),
        (_, ResponseView::AuthMessage { .. }) => (
            noted,
            Some(RequestView::PostAuthMessageResponse { response: None }),
            false,
        ),
    }
}

/// The transition for a caller starting (or restarting) a login attempt.
pub open spec fn spec_begin_login(s: SessionView, u: Seq<char>) -> (SessionView, Option<
    RequestView,
>) {
    if s.phase is Idle || s.phase is Failed {
        (
            SessionView {
                phase: PhaseView::AwaitingSessionCreation,
                username: u,
                start_requested: false,
                ..s
            },
            Some(RequestView::CreateSession { username: u }),
        )
    } else {
        (s, None)
    }
}

/// The transition for the caller supplying the prompt's value.
pub open spec fn spec_supply_auth_value(s: SessionView, v: Seq<char>) -> (SessionView, Option<
    RequestView,
>) {
    if s.phase is AwaitingAuthResponse {
        (
            SessionView { phase: PhaseView::AwaitingLoginResult, secret: Some(v), ..s },
            Some(RequestView::PostAuthMessageResponse { response: Some(v) }),
        )
    } else {
        (SessionView { secret: Some(v), ..s }, None)
    }
}

/// The transition for the caller picking what to launch.
pub open spec fn spec_choose_session(
    s: SessionView,
    command: Seq<Seq<char>>,
    env: Seq<Seq<char>>,
) -> (SessionView, Option<RequestView>) {
    if s.phase is ReadyToStartSession && !s.start_requested {
        (
            SessionView { start_requested: true, ..s },
            Some(RequestView::StartSession { command, env }),
        )
    } else {
        (s, None)
    }
}

/// The transition for the caller aborting the attempt.
pub open spec fn spec_cancel(s: SessionView) -> (SessionView, Option<RequestView>) {
    if s.phase is Idle || s.phase is Failed {
        (s, None)
    } else {
        (
            SessionView { phase: PhaseView::Idle, start_requested: false, ..s },
            Some(RequestView::CancelSession),
        )
    }
}

/// One login attempt's state, driven by intents and decoded responses.
pub struct AuthSession {
    phase: Phase,
    username: String,
    secret: Option<String>,
    start_requested: bool,
    last_response: Option<Response>,
}

impl View for AuthSession {
    type V = SessionView;

    closed spec fn view(&self) -> SessionView {
        SessionView {
            phase: self.phase@,
            username: self.username@,
            secret: match self.secret {
                Some(ref v) => Some(v@),
                None => None,
            },
            start_requested: self.start_requested,
            last_response: opt_response_view(self.last_response),
        }
    }
}

impl AuthSession {
    /// A fresh session: idle, with nothing captured yet.
    pub fn new() -> (r: AuthSession)
        ensures
            r@ == (SessionView {
                phase: PhaseView::Idle,
                username: Seq::empty(),
                secret: None,
                start_requested: false,
                last_response: None,
            }),
    {
        AuthSession {
            phase: Phase::Idle,
            username: String::new(),
            secret: None,
            start_requested: false,
            last_response: None,
        }
    }

    /// The current phase, for display.
    pub fn phase(&self) -> (r: &Phase)
        ensures
            r@ == self@.phase,
    {
        &self.phase
    }

    /// The last response seen, for display.
    pub fn last_response(&self) -> (r: &Option<Response>)
        ensures
            opt_response_view(*r) == self@.last_response,
    {
        &self.last_response
    }

    /// Applies one decoded daemon response to the session, following
    /// [`spec_step`]'s table exactly.
    pub fn handle_response(&mut self, resp: Response) -> (out: StepOutcome)
        ensures
            final(self)@ == spec_step(old(self)@, resp@).0,
            opt_request_view(out.request) == spec_step(old(self)@, resp@).1,
            out.violation == spec_step(old(self)@, resp@).2,
    {
        let (new_phase, request, violation, new_start): (Phase, Option<Request>, bool, bool) =
            match (&self.phase, &resp) {
            (Phase::Idle, _) => (Phase::Idle, None, true, self.start_requested),
            (Phase::Failed(d), _) => (Phase::Failed(d.clone()), None, true, self.start_requested),
            (_, Response::Error { error_type: _, description }) => (
                Phase::Failed(description.clone()),
                None,
                false,
                false,
            ),
            (Phase::ReadyToStartSession, Response::Success) => if self.start_requested {
                (Phase::Idle, None, false, false)
            } else {
                (Phase::ReadyToStartSession, None, true, self.start_requested)
            },
            (_, Response::Success) => (
                Phase::ReadyToStartSession,
                None,
                false,
                self.start_requested,
            ),
            (Phase::AwaitingAuthResponse, Response::AuthMessage { .. }) => (
                Phase::AwaitingAuthResponse,
                None,
                true,
                self.start_requested,
            ),
            (Phase::ReadyToStartSession, Response::AuthMessage { .. }) => (
                Phase::ReadyToStartSession,
                None,
                true,
                self.start_requested,
            ),
            (
                _,
                Response::AuthMessage { auth_message_type: AuthMessageType::Secret, .. },
            ) => match &self.secret {
                Some(sec) => (
                    Phase::AwaitingLoginResult,
                    Some(Request::PostAuthMessageResponse { response: Some(sec.clone()) }),
                    false,
                    self.start_requested,
                ),
                None => (Phase::AwaitingAuthResponse, None, false, self.start_requested),
            },
            (
                _,
                Response::AuthMessage { auth_message_type: AuthMessageType::Visible, .. },
            ) => {
                let same = match &self.phase {
                    Phase::AwaitingLoginResult => Phase::AwaitingLoginResult,
                    _ => Phase::AwaitingSessionCreation,
                };
                (
                    same,
                    Some(
                        Request::PostAuthMessageResponse {
                            response: Some(self.username.clone()),
                        },
                    ),
                    false,
                    self.start_requested,
                )
            },
            (_, Response::AuthMessage { .. }) => {
                let same = match &self.phase {
                    Phase::AwaitingLoginResult => Phase::AwaitingLoginResult,
                    _ => Phase::AwaitingSessionCreation,
                };
                (
                    same,
                    Some(Request::PostAuthMessageResponse { response: None }),
                    false,
                    self.start_requested,
                )
            },
        };
        self.phase = new_phase;
        self.start_requested = new_start;
        self.last_response = Some(resp);
        StepOutcome { request, violation }
    }

    /// Starts a login attempt for `username` from idle, or restarts one
    /// after a failure; anywhere else it is refused as a no-op.
    pub fn begin_login(&mut self, username: String) -> (out: Option<Request>)
        ensures
            final(self)@ == spec_begin_login(old(self)@, username@).0,
            opt_request_view(out) == spec_begin_login(old(self)@, username@).1,
    {
        match &self.phase {
            Phase::Idle | Phase::Failed(_) => {
                let for_request = username.clone();
                self.phase = Phase::AwaitingSessionCreation;
                self.username = username;
                self.start_requested = false;
                Some(Request::CreateSession { username: for_request })
            },
            _ => None,
        }
    }

    /// Captures the caller's answer to a prompt.  If a secret prompt is
    /// parked, this answers it at once.
    pub fn supply_auth_value(&mut self, value: String) -> (out: Option<Request>)
        ensures
            final(self)@ == spec_supply_auth_value(old(self)@, value@).0,
            opt_request_view(out) == spec_supply_auth_value(old(self)@, value@).1,
    {
        match &self.phase {
            Phase::AwaitingAuthResponse => {
                let for_request = value.clone();
                self.phase = Phase::AwaitingLoginResult;
                self.secret = Some(value);
                Some(Request::PostAuthMessageResponse { response: Some(for_request) })
            },
            _ => {
                self.secret = Some(value);
                None
            },
        }
    }

    /// Asks to launch the chosen session once authentication has
    /// succeeded; anywhere else it is refused as a no-op.
    pub fn choose_session(&mut self, command: Vec<String>, env: Vec<String>) -> (out: Option<
        Request,
    >)
        ensures
            final(self)@ == spec_choose_session(
                old(self)@,
                command.deep_view(),
                env.deep_view(),
            ).0,
            opt_request_view(out) == spec_choose_session(
                old(self)@,
                command.deep_view(),
                env.deep_view(),
            ).1,
    {
        match &self.phase {
            Phase::ReadyToStartSession => {
                if !self.start_requested {
                    self.start_requested = true;
                    Some(Request::StartSession { command, env })
                } else {
                    None
                }
            },
            _ => None,
        }
    }

    /// Aborts the attempt from any active phase, fire-and-forget: the
    /// session is idle again at once, whatever the daemon still answers.
    pub fn cancel(&mut self) -> (out: Option<Request>)
        ensures
            final(self)@ == spec_cancel(old(self)@).0,
            opt_request_view(out) == spec_cancel(old(self)@).1,
    {
        match &self.phase {
            Phase::Idle | Phase::Failed(_) => None,
            _ => {
                self.phase = Phase::Idle;
                self.start_requested = false;
                Some(Request::CancelSession)
            },
        }
    }
}

// ------------------------------------------------------------------
// Laws of the state machine
// ------------------------------------------------------------------

/// A daemon error in any phase that is neither idle nor already failed
/// always moves the session to `Failed` with that error's description, and
/// nothing is sent in reaction.
pub proof fn lemma_error_always_fails(s: SessionView, et: crate::protocol::ErrorType, d: Seq<char>)
    requires
        !(s.phase is Idle),
        !(s.phase is Failed),
    ensures
        spec_step(s, ResponseView::Error { error_type: et, description: d }).0.phase
            == PhaseView::Failed(d),
        spec_step(s, ResponseView::Error { error_type: et, description: d }).1 is None,
{
}

/// From `Failed`, a fresh `begin_login` always reaches
/// `AwaitingSessionCreation` and sends `CreateSession` for that user.
pub proof fn lemma_begin_login_after_failure(s: SessionView, u: Seq<char>)
    requires
        s.phase is Failed,
    ensures
        spec_begin_login(s, u).0.phase is AwaitingSessionCreation,
        spec_begin_login(s, u).1 == Some(RequestView::CreateSession { username: u }),
{
}

/// Cancelling from any phase other than `Idle` or `Failed` lands in `Idle`
/// immediately, whatever responses are still pending, and sends
/// `CancelSession`; from `Idle` or `Failed` it changes nothing.
pub proof fn lemma_cancel_goes_idle(s: SessionView)
    ensures
        !(s.phase is Idle) && !(s.phase is Failed) ==> spec_cancel(s).0.phase is Idle
            && spec_cancel(s).1 == Some(RequestView::CancelSession),
        s.phase is Idle || s.phase is Failed ==> spec_cancel(s) == (s, None::<RequestView>),
{
}

/// A response-driven step sends a request only in reaction to a response
/// that answered the one in flight, and leaves a well-formed session: the
/// machine never has two of its own requests outstanding.
pub proof fn lemma_step_single_flight(s: SessionView, r: ResponseView)
    requires
        session_wf(s),
    ensures
        session_wf(spec_step(s, r).0),
        spec_step(s, r).1 is Some ==> in_flight(s) && in_flight(spec_step(s, r).0),
{
}

/// Caller intents send only when nothing is in flight, and what they send
/// is then the one request in flight.  Cancellation is the deliberate
/// exception: it is fire-and-forget, and afterwards nothing is in flight.
pub proof fn lemma_intent_single_flight(
    s: SessionView,
    u: Seq<char>,
    v: Seq<char>,
    command: Seq<Seq<char>>,
    env: Seq<Seq<char>>,
)
    requires
        session_wf(s),
    ensures
        session_wf(spec_begin_login(s, u).0),
        spec_begin_login(s, u).1 is Some ==> !in_flight(s) && in_flight(spec_begin_login(s, u).0),
        session_wf(spec_supply_auth_value(s, v).0),
        spec_supply_auth_value(s, v).1 is Some ==> !in_flight(s) && in_flight(
            spec_supply_auth_value(s, v).0,
        ),
        session_wf(spec_choose_session(s, command, env).0),
        spec_choose_session(s, command, env).1 is Some ==> !in_flight(s) && in_flight(
            spec_choose_session(s, command, env).0,
        ),
        session_wf(spec_cancel(s).0),
        !in_flight(spec_cancel(s).0),
{
}

/// The straight-through login story: from idle with a secret captured,
/// beginning a login sends `CreateSession`; the secret prompt is answered
/// at once with the secret; the following success reaches
/// `ReadyToStartSession`; a duplicated success is ignored there.  Each
/// response triggers at most the one request shown.
pub proof fn lemma_login_walkthrough(s0: SessionView, u: Seq<char>, p: Seq<char>, m: Seq<char>)
    requires
        s0.phase is Idle,
        !s0.start_requested,
    ensures
        ({
            let captured = spec_supply_auth_value(s0, p).0;
            let (s1, q1) = spec_begin_login(captured, u);
            let (s2, q2, v2) = spec_step(s1, ResponseView::AuthMessage {
                auth_message_type: AuthMessageType::Secret,
                auth_message: m,
            });
            let (s3, q3, v3) = spec_step(s2, ResponseView::Success);
            let (s4, q4, v4) = spec_step(s3, ResponseView::Success);
            &&& spec_supply_auth_value(s0, p).1 is None
            &&& s1.phase is AwaitingSessionCreation
            &&& q1 == Some(RequestView::CreateSession { username: u })
            &&& s2.phase is AwaitingLoginResult
            &&& q2 == Some(RequestView::PostAuthMessageResponse { response: Some(p) })
            &&& !v2
            &&& s3.phase is ReadyToStartSession
            &&& q3 is None
            &&& !v3
            &&& s4.phase is ReadyToStartSession
            &&& q4 is None
        }),
{
}

} // verus!
