use auth_core::error::{AuthError, ClientOutcome, UnauthorizedReason};

#[test]
fn client_sees_coarse_categories() {
    assert_eq!(AuthError::InvalidInput.client_outcome(), ClientOutcome::BadRequest);
    assert_eq!(AuthError::InvalidCredentials.client_outcome(), ClientOutcome::LoginFailed);
    assert_eq!(AuthError::Locked.client_outcome(), ClientOutcome::LoginFailed);
    assert_eq!(AuthError::Forbidden.client_outcome(), ClientOutcome::Forbidden);
    assert_eq!(AuthError::DuplicateUser.client_outcome(), ClientOutcome::Conflict);
    assert_eq!(AuthError::NotFound.client_outcome(), ClientOutcome::NotFound);
    assert_eq!(AuthError::Internal.client_outcome(), ClientOutcome::ServerError);
}

#[test]
fn every_token_failure_looks_the_same_to_the_client() {
    let reasons = vec![
        UnauthorizedReason::Revoked,
        UnauthorizedReason::Malformed,
        UnauthorizedReason::SignatureInvalid,
        UnauthorizedReason::Expired,
        UnauthorizedReason::UserInactive,
        UnauthorizedReason::UserNotFound,
    ];
    for reason in reasons {
        assert_eq!(AuthError::Unauthorized(reason).client_outcome(), ClientOutcome::Unauthorized);
    }
}

#[test]
fn internal_reasons_stay_distinguishable() {
    assert_ne!(AuthError::InvalidCredentials, AuthError::Locked);
    assert_ne!(
        AuthError::Unauthorized(UnauthorizedReason::Revoked),
        AuthError::Unauthorized(UnauthorizedReason::Expired)
    );
}

#[test]
fn status_codes() {
    assert_eq!(ClientOutcome::BadRequest.status(), 400);
    assert_eq!(ClientOutcome::LoginFailed.status(), 401);
    assert_eq!(ClientOutcome::Unauthorized.status(), 401);
    assert_eq!(ClientOutcome::Forbidden.status(), 403);
    assert_eq!(ClientOutcome::NotFound.status(), 404);
    assert_eq!(ClientOutcome::Conflict.status(), 409);
    assert_eq!(ClientOutcome::ServerError.status(), 500);
}
