use impolite::protocol::AuthMessageType;
use impolite::protocol::ErrorType;
use impolite::protocol::Request;
use impolite::protocol::Response;
use impolite::session::AuthSession;
use impolite::session::Phase;

fn secret_prompt() -> Response {
    Response::AuthMessage {
        auth_message_type: AuthMessageType::Secret,
        auth_message: "Password:".into(),
    }
}

fn auth_error(description: &str) -> Response {
    Response::Error {
        error_type: ErrorType::AuthError,
        description: description.into(),
    }
}

/// Drives a session from idle to the point where authentication succeeded.
fn authenticated_session() -> AuthSession {
    let mut session = AuthSession::new();
    session.supply_auth_value("hunter2".into());
    session.begin_login("alice".into());
    session.handle_response(secret_prompt());
    session.handle_response(Response::Success);
    assert!(matches!(session.phase(), Phase::ReadyToStartSession));
    session
}

#[test]
fn straight_login_reaches_ready() {
    let mut session = AuthSession::new();
    assert!(matches!(session.phase(), Phase::Idle));

    let none = session.supply_auth_value("hunter2".into());
    assert!(none.is_none());

    let first = session.begin_login("alice".into());
    assert_eq!(
        first,
        Some(Request::CreateSession {
            username: "alice".into()
        })
    );
    assert!(matches!(session.phase(), Phase::AwaitingSessionCreation));

    let out = session.handle_response(secret_prompt());
    assert!(!out.violation);
    assert_eq!(
        out.request,
        Some(Request::PostAuthMessageResponse {
            response: Some("hunter2".into())
        })
    );
    assert!(matches!(session.phase(), Phase::AwaitingLoginResult));

    let out = session.handle_response(Response::Success);
    assert!(!out.violation);
    assert!(out.request.is_none());
    assert!(matches!(session.phase(), Phase::ReadyToStartSession));

    // A duplicated success is ignored: no phase change, nothing sent.
    let out = session.handle_response(Response::Success);
    assert!(out.violation);
    assert!(out.request.is_none());
    assert!(matches!(session.phase(), Phase::ReadyToStartSession));
}

#[test]
fn secret_prompt_parks_until_value_arrives() {
    let mut session = AuthSession::new();
    session.begin_login("alice".into());

    let out = session.handle_response(secret_prompt());
    assert!(!out.violation);
    assert!(out.request.is_none());
    assert!(matches!(session.phase(), Phase::AwaitingAuthResponse));

    let sent = session.supply_auth_value("hunter2".into());
    assert_eq!(
        sent,
        Some(Request::PostAuthMessageResponse {
            response: Some("hunter2".into())
        })
    );
    assert!(matches!(session.phase(), Phase::AwaitingLoginResult));
}

#[test]
fn visible_prompt_answered_with_username() {
    let mut session = AuthSession::new();
    session.begin_login("alice".into());

    let out = session.handle_response(Response::AuthMessage {
        auth_message_type: AuthMessageType::Visible,
        auth_message: "login:".into(),
    });
    assert!(!out.violation);
    assert_eq!(
        out.request,
        Some(Request::PostAuthMessageResponse {
            response: Some("alice".into())
        })
    );
    assert!(matches!(session.phase(), Phase::AwaitingSessionCreation));
}

#[test]
fn notices_get_empty_acknowledgement() {
    let mut session = AuthSession::new();
    session.begin_login("alice".into());

    let out = session.handle_response(Response::AuthMessage {
        auth_message_type: AuthMessageType::Info,
        auth_message: "sun is shining".into(),
    });
    assert!(!out.violation);
    assert_eq!(
        out.request,
        Some(Request::PostAuthMessageResponse { response: None })
    );
    assert!(matches!(session.phase(), Phase::AwaitingSessionCreation));

    let out = session.handle_response(Response::AuthMessage {
        auth_message_type: AuthMessageType::Error,
        auth_message: "weak password".into(),
    });
    assert!(!out.violation);
    assert_eq!(
        out.request,
        Some(Request::PostAuthMessageResponse { response: None })
    );
    assert!(matches!(session.phase(), Phase::AwaitingSessionCreation));
}

#[test]
fn error_fails_the_attempt_and_login_restarts() {
    let mut session = AuthSession::new();
    session.supply_auth_value("wrong".into());
    session.begin_login("alice".into());
    session.handle_response(secret_prompt());
    assert!(matches!(session.phase(), Phase::AwaitingLoginResult));

    let out = session.handle_response(auth_error("bad password"));
    assert!(!out.violation);
    assert!(out.request.is_none());
    match session.phase() {
        Phase::Failed(description) => assert_eq!(description, "bad password"),
        other => panic!("expected a failed phase, got {other:?}"),
    }

    // Responses in the failed phase are ignored.
    let out = session.handle_response(Response::Success);
    assert!(out.violation);
    assert!(matches!(session.phase(), Phase::Failed(_)));

    // A fresh attempt discards the failure.
    let sent = session.begin_login("alice".into());
    assert_eq!(
        sent,
        Some(Request::CreateSession {
            username: "alice".into()
        })
    );
    assert!(matches!(session.phase(), Phase::AwaitingSessionCreation));
}

#[test]
fn cancel_is_immediate_from_every_active_phase() {
    // From each active phase, cancel lands in idle at once and sends the
    // cancellation; from idle and failed it does nothing.
    let mut session = AuthSession::new();
    assert!(session.cancel().is_none());
    assert!(matches!(session.phase(), Phase::Idle));

    session.begin_login("alice".into());
    assert_eq!(session.cancel(), Some(Request::CancelSession));
    assert!(matches!(session.phase(), Phase::Idle));

    session.begin_login("alice".into());
    session.handle_response(secret_prompt());
    assert!(matches!(session.phase(), Phase::AwaitingAuthResponse));
    assert_eq!(session.cancel(), Some(Request::CancelSession));
    assert!(matches!(session.phase(), Phase::Idle));

    let mut session = authenticated_session();
    assert_eq!(session.cancel(), Some(Request::CancelSession));
    assert!(matches!(session.phase(), Phase::Idle));

    let mut session = AuthSession::new();
    session.begin_login("alice".into());
    session.handle_response(auth_error("no such user"));
    assert!(session.cancel().is_none());
    assert!(matches!(session.phase(), Phase::Failed(_)));
}

#[test]
fn chosen_session_starts_and_completes() {
    let mut session = authenticated_session();

    let sent = session.choose_session(vec!["/bin/sh".into()], vec![]);
    assert_eq!(
        sent,
        Some(Request::StartSession {
            command: vec!["/bin/sh".into()],
            env: vec![],
        })
    );

    // Only one launch request goes out.
    assert!(session.choose_session(vec!["/bin/sh".into()], vec![]).is_none());

    let out = session.handle_response(Response::Success);
    assert!(!out.violation);
    assert!(out.request.is_none());
    assert!(matches!(session.phase(), Phase::Idle));
}

#[test]
fn start_failure_surfaces_description() {
    let mut session = authenticated_session();
    session.choose_session(vec!["/bin/sh".into()], vec![]);

    let out = session.handle_response(Response::Error {
        error_type: ErrorType::Error,
        description: "no seat".into(),
    });
    assert!(!out.violation);
    match session.phase() {
        Phase::Failed(description) => assert_eq!(description, "no seat"),
        other => panic!("expected a failed phase, got {other:?}"),
    }
}

#[test]
fn idle_sessions_ignore_stray_responses() {
    let mut session = AuthSession::new();
    let out = session.handle_response(secret_prompt());
    assert!(out.violation);
    assert!(out.request.is_none());
    assert!(matches!(session.phase(), Phase::Idle));
    assert_eq!(session.last_response(), &Some(secret_prompt()));
}

#[test]
fn intents_outside_their_phase_are_refused() {
    let mut session = AuthSession::new();
    // Cannot pick a session before authenticating.
    assert!(session.choose_session(vec!["/bin/sh".into()], vec![]).is_none());
    session.begin_login("alice".into());
    // Cannot begin again mid-attempt.
    assert!(session.begin_login("bob".into()).is_none());
    assert!(matches!(session.phase(), Phase::AwaitingSessionCreation));
}
