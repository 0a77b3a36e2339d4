//! Failure taxonomy of the authentication core.
//!
//! Internally every failure keeps its precise reason so that it can be
//! logged and asserted on. What a client is allowed to see is a coarser
//! projection, [`ClientOutcome`], in which the reasons that would help an
//! attacker probe the system are merged.

use vstd::prelude::*;

verus! {

/// Why a presented token was not accepted.
#[derive(Clone, Copy, Debug, PartialEq, Eq, Structural)]
pub enum UnauthorizedReason {
    /// The token was revoked by a logout.
    Revoked,
    /// The token is not a well-formed signed claims token.
    Malformed,
    /// The token's signature does not verify under the current secret.
    SignatureInvalid,
    /// The token's expiry lies in the past.
    Expired,
    /// The token's subject has been deactivated.
    UserInactive,
    /// The token's subject is not a known user.
    UserNotFound,
}

/// Every failure the core can report, with its internal detail.
#[derive(Clone, Copy, Debug, PartialEq, Eq, Structural)]
pub enum AuthError {
    /// The request is malformed; no store was consulted.
    InvalidInput,
    /// Unknown user, inactive user or wrong password.
    InvalidCredentials,
    /// Too many recent failures from this client.
    Locked,
    /// The token was rejected, for the given reason.
    Unauthorized(UnauthorizedReason),
    /// The identity is valid but its role is insufficient.
    Forbidden,
    /// A user with this name already exists.
    DuplicateUser,
    /// No user with this name exists.
    NotFound,
    /// The hashing or signing primitive itself reported a failure.
    Internal,
}

/// What a client may learn about a failure.
#[derive(Clone, Copy, Debug, PartialEq, Eq, Structural)]
pub enum ClientOutcome {
    /// The request was malformed.
    BadRequest,
    /// The login was not accepted; bad credentials and lockout look alike.
    LoginFailed,
    /// The token was not accepted, whatever the reason.
    Unauthorized,
    /// The caller's role does not allow the action.
    Forbidden,
    /// The user to create already exists.
    Conflict,
    /// The user to change does not exist.
    NotFound,
    /// The server could not complete the operation.
    ServerError,
}

/// The client-visible category of each internal failure.
pub open spec fn client_view(err: AuthError) -> ClientOutcome {
    match err {
        AuthError::InvalidInput => ClientOutcome::BadRequest,
        AuthError::InvalidCredentials => ClientOutcome::LoginFailed,
        AuthError::Locked => ClientOutcome::LoginFailed,
        AuthError::Unauthorized(_) => ClientOutcome::Unauthorized,
        AuthError::Forbidden => ClientOutcome::Forbidden,
        AuthError::DuplicateUser => ClientOutcome::Conflict,
        AuthError::NotFound => ClientOutcome::NotFound,
        AuthError::Internal => ClientOutcome::ServerError,
    }
}

/// The status code a transport layer should answer with.
pub open spec fn status_of(outcome: ClientOutcome) -> u16 {
    match outcome {
        ClientOutcome::BadRequest => 400,
        ClientOutcome::LoginFailed => 401,
        ClientOutcome::Unauthorized => 401,
        ClientOutcome::Forbidden => 403,
        ClientOutcome::NotFound => 404,
        ClientOutcome::Conflict => 409,
        ClientOutcome::ServerError => 500,
    }
}

/// Whether a result is the failure `error`.
pub open spec fn fails_with<T>(r: Result<T, AuthError>, error: AuthError) -> bool {
    r matches Err(e) && e == error
}

impl AuthError {
    /// Projects the internal failure onto what the client may see.
    pub fn client_outcome(&self) -> (out: ClientOutcome)
        ensures
            out == client_view(*self),
    {
        match self {
            AuthError::InvalidInput => ClientOutcome::BadRequest,
            AuthError::InvalidCredentials => ClientOutcome::LoginFailed,
            AuthError::Locked => ClientOutcome::LoginFailed,
            AuthError::Unauthorized(_) => ClientOutcome::Unauthorized,
            AuthError::Forbidden => ClientOutcome::Forbidden,
            AuthError::DuplicateUser => ClientOutcome::Conflict,
            AuthError::NotFound => ClientOutcome::NotFound,
            AuthError::Internal => ClientOutcome::ServerError,
        }
    }
}

impl ClientOutcome {
    /// The status code for this outcome.
    pub fn status(&self) -> (code: u16)
        ensures
            code == status_of(*self),
    {
        match self {
            ClientOutcome::BadRequest => 400,
            ClientOutcome::LoginFailed => 401,
            ClientOutcome::Unauthorized => 401,
            ClientOutcome::Forbidden => 403,
            ClientOutcome::NotFound => 404,
            ClientOutcome::Conflict => 409,
            ClientOutcome::ServerError => 500,
        }
    }
}

/// Bad credentials and a lockout are indistinguishable to the client, and so
/// are all the reasons for which a token can be rejected.
pub proof fn lemma_client_view_hides_detail(a: UnauthorizedReason, b: UnauthorizedReason)
    ensures
        client_view(AuthError::InvalidCredentials) == client_view(AuthError::Locked),
        client_view(AuthError::Unauthorized(a)) == client_view(AuthError::Unauthorized(b)),
{
}

} // verus!
