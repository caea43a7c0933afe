//! Protocol message types exchanged with the session-management daemon.
//!
//! Each type carries a mathematical view (`@`) over character sequences, so
//! that contracts elsewhere in the crate can speak about message contents
//! without caring how `String`s are represented.

use vstd::prelude::*;

verus! {

/// How a daemon prompt should be presented to the user.
#[derive(Clone, Copy, Debug, PartialEq, Eq, Structural)]
pub enum AuthMessageType {
    /// A question whose answer may be echoed (for example a login name).
    Visible,
    /// A question whose answer must be masked (for example a password).
    Secret,
    /// An informational notice; it needs only an empty acknowledgement.
    Info,
    /// An error notice; it needs only an empty acknowledgement.
    Error,
}

/// The daemon's classification of a failed request.
#[derive(Clone, Copy, Debug, PartialEq, Eq, Structural)]
pub enum ErrorType {
    /// Authentication itself failed (bad credentials and the like).
    AuthError,
    /// A generic protocol or daemon failure.
    Error,
}

/// An outbound message: what the client asks the daemon to do.
#[derive(Debug, Clone, PartialEq, Eq)]
pub enum Request {
    /// Begin authentication for a user.
    CreateSession { username: String },
    /// Reply to a pending prompt; `None` acknowledges a notice.
    PostAuthMessageResponse { response: Option<String> },
    /// Launch the authenticated session.
    StartSession { command: Vec<String>, env: Vec<String> },
    /// Abort the in-progress authentication attempt.
    CancelSession,
}

/// An inbound message: the daemon's answer to the last request.
#[derive(Debug, Clone, PartialEq, Eq)]
pub enum Response {
    /// The last request succeeded.
    Success,
    /// The last request failed.
    Error { error_type: ErrorType, description: String },
    /// The daemon is prompting for input or conveying a notice.
    AuthMessage { auth_message_type: AuthMessageType, auth_message: String },
}

/// Mathematical view of a [`Request`].
pub enum RequestView {
    CreateSession { username: Seq<char> },
    PostAuthMessageResponse { response: Option<Seq<char>> },
    StartSession { command: Seq<Seq<char>>, env: Seq<Seq<char>> },
    CancelSession,
}

/// Mathematical view of a [`Response`].
pub enum ResponseView {
    Success,
    Error { error_type: ErrorType, description: Seq<char> },
    AuthMessage { auth_message_type: AuthMessageType, auth_message: Seq<char> },
}

impl View for Request {
    type V = RequestView;

    open spec fn view(&self) -> RequestView {
        match self {
            Request::CreateSession { username } => RequestView::CreateSession {
                username: username@,
            },
            Request::PostAuthMessageResponse { response } => RequestView::PostAuthMessageResponse {
                response: match response {
                    Some(r) => Some(r@),
                    None => None,
                },
            },
            Request::StartSession { command, env } => RequestView::StartSession {
                command: command.deep_view(),
                env: env.deep_view(),
            },
            Request::CancelSession => RequestView::CancelSession,
        }
    }
}

impl View for Response {
    type V = ResponseView;

    open spec fn view(&self) -> ResponseView {
        match self {
            Response::Success => ResponseView::Success,
            Response::Error { error_type, description } => ResponseView::Error {
                error_type: *error_type,
                description: description@,
            },
            Response::AuthMessage { auth_message_type, auth_message } => ResponseView::AuthMessage {
                auth_message_type: *auth_message_type,
                auth_message: auth_message@,
            },
        }
    }
}

} // verus!
