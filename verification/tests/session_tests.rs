use auth_core::credentials::{add_user, deactivate_user, CredentialStore};
use auth_core::error::{AuthError, UnauthorizedReason};
use auth_core::revocation::{revoke_token, RevocationRegistry};
use auth_core::session::{
    authenticate_user, authenticate_user_at, begin_login, check_permission, finish_login,
    issue_token, login, login_at, validate_token, validate_token_at, weigh_credentials,
    LoginRequest, LoginStep, LoginVerdict, TokenConfig,
};
use auth_core::throttle::LoginThrottle;
use auth_core::token::{parse_and_verify, Claims};

const COST: u32 = 4;
const T0: u64 = 1_700_000_000;
const DAY: u64 = 86_400;

fn seeded_store() -> CredentialStore {
    let mut store = CredentialStore::new();
    add_user(&mut store, "admin", "Admin123!", "admin", COST).unwrap();
    add_user(&mut store, "viewer", "Viewer123!", "viewer", COST).unwrap();
    store
}

fn config() -> TokenConfig {
    TokenConfig { secret: b"a-secret-from-configuration".to_vec(), lifetime_secs: DAY }
}

fn request(username: &str, password: &str) -> LoginRequest {
    LoginRequest { username: username.to_string(), password: password.to_string() }
}

#[test]
fn test_user_authentication() {
    let store = seeded_store();
    let credentials = LoginRequest {
        username: "admin".to_string(),
        password: "Admin123!".to_string(),
    };

    let result = authenticate_user(&store, &config(), &credentials);
    assert!(result.is_ok());

    let login_response = result.unwrap();
    assert_eq!(login_response.user.username, "admin");
    assert_eq!(login_response.user.role, "admin");
}

#[test]
fn test_invalid_credentials() {
    let store = seeded_store();
    let credentials = LoginRequest {
        username: "admin".to_string(),
        password: "wrongpassword".to_string(),
    };

    let result = authenticate_user(&store, &config(), &credentials);
    assert!(result.is_err());
}

#[test]
fn test_token_validation() {
    let store = seeded_store();
    let registry = RevocationRegistry::new();
    let credentials = LoginRequest {
        username: "admin".to_string(),
        password: "Admin123!".to_string(),
    };

    let login_response = authenticate_user(&store, &config(), &credentials).unwrap();
    let validation_result = validate_token(&registry, &store, &config(), &login_response.token);

    assert!(validation_result.is_ok());
    let claims = validation_result.unwrap();
    assert_eq!(claims.sub, "admin");
    assert_eq!(claims.role, "admin");
}

#[test]
fn test_permission_check() {
    let admin_claims = Claims {
        sub: "admin".to_string(),
        exp: 9999999999,
        iat: 1234567890,
        role: "admin".to_string(),
    };

    let viewer_claims = Claims {
        sub: "viewer".to_string(),
        exp: 9999999999,
        iat: 1234567890,
        role: "viewer".to_string(),
    };

    assert!(check_permission(&admin_claims, "admin").is_ok());
    assert!(check_permission(&admin_claims, "viewer").is_ok());

    assert!(check_permission(&viewer_claims, "viewer").is_ok());
    assert!(check_permission(&viewer_claims, "admin").is_err());
}

#[test]
fn permission_rule_in_full() {
    let with_role = |role: &str| Claims {
        sub: "someone".to_string(),
        exp: 9999999999,
        iat: 1234567890,
        role: role.to_string(),
    };
    assert_eq!(check_permission(&with_role("admin"), "anything at all"), Ok(()));
    assert_eq!(check_permission(&with_role("admin"), ""), Ok(()));
    assert_eq!(check_permission(&with_role("viewer"), "read"), Ok(()));
    assert_eq!(check_permission(&with_role("viewer"), "write"), Err(AuthError::Forbidden));
    assert_eq!(check_permission(&with_role("viewer"), "admin"), Err(AuthError::Forbidden));
    assert_eq!(check_permission(&with_role("user"), "user"), Ok(()));
    assert_eq!(check_permission(&with_role("user"), "read"), Err(AuthError::Forbidden));
    assert_eq!(check_permission(&with_role("user"), "viewer"), Err(AuthError::Forbidden));
    assert_eq!(check_permission(&with_role("Admin"), "admin"), Err(AuthError::Forbidden));
    assert_eq!(check_permission(&with_role(""), "admin"), Err(AuthError::Forbidden));
}

#[test]
fn login_response_carries_token_expiry_and_identity() {
    let store = seeded_store();
    let response = authenticate_user_at(&store, &config(), &request("viewer", "Viewer123!"), T0).unwrap();
    assert_eq!(response.expires_at, T0 + DAY);
    assert_eq!(response.user.username, "viewer");
    assert_eq!(response.user.role, "viewer");
    let claims = parse_and_verify(&response.token, &config().secret, T0).unwrap();
    assert_eq!(claims.sub, "viewer");
    assert_eq!(claims.role, "viewer");
    assert_eq!(claims.iat, T0);
    assert_eq!(claims.exp, T0 + DAY);
}

#[test]
fn expiry_stops_at_the_largest_time() {
    let store = seeded_store();
    let response =
        authenticate_user_at(&store, &config(), &request("admin", "Admin123!"), u64::MAX - 10).unwrap();
    assert_eq!(response.expires_at, u64::MAX);
    let short = TokenConfig { secret: b"s".to_vec(), lifetime_secs: 0 };
    let response = authenticate_user_at(&store, &short, &request("admin", "Admin123!"), T0).unwrap();
    assert_eq!(response.expires_at, T0);
}

#[test]
fn token_of_a_login_authenticates_as_the_user() {
    let store = seeded_store();
    let registry = RevocationRegistry::new();
    let mut throttle = LoginThrottle::new();
    let response =
        login_at(&store, &mut throttle, &config(), &request("viewer", "Viewer123!"), "10.0.0.1", T0)
            .unwrap();
    let claims = validate_token_at(&registry, &store, &config(), &response.token, T0 + 10).unwrap();
    assert_eq!(claims.sub, "viewer");
    assert_eq!(claims.role, "viewer");
    let claims = validate_token_at(&registry, &store, &config(), &response.token, T0 + DAY).unwrap();
    assert_eq!(claims.exp, T0 + DAY);
}

#[test]
fn unknown_user_inactive_user_and_wrong_password_look_alike() {
    let mut store = seeded_store();
    deactivate_user(&mut store, "viewer").unwrap();
    let cfg = config();
    assert_eq!(
        authenticate_user_at(&store, &cfg, &request("nobody", "Admin123!"), T0).err(),
        Some(AuthError::InvalidCredentials)
    );
    assert_eq!(
        authenticate_user_at(&store, &cfg, &request("viewer", "Viewer123!"), T0).err(),
        Some(AuthError::InvalidCredentials)
    );
    assert_eq!(
        authenticate_user_at(&store, &cfg, &request("admin", "wrongpassword"), T0).err(),
        Some(AuthError::InvalidCredentials)
    );
}

#[test]
fn malformed_login_requests_are_invalid_input() {
    let store = seeded_store();
    let cfg = config();
    assert_eq!(
        authenticate_user_at(&store, &cfg, &request("ad", "Admin123!"), T0).err(),
        Some(AuthError::InvalidInput)
    );
    assert_eq!(
        authenticate_user_at(&store, &cfg, &request("admin", "12345"), T0).err(),
        Some(AuthError::InvalidInput)
    );
    assert_eq!(
        authenticate_user_at(&store, &cfg, &request(&"a".repeat(51), "Admin123!"), T0).err(),
        Some(AuthError::InvalidInput)
    );
    assert_eq!(
        authenticate_user_at(&store, &cfg, &request("admin", "123456"), T0).err(),
        Some(AuthError::InvalidCredentials)
    );
    assert!(request("abc", "123456").validate());
    assert!(!request("abc", "12345").validate());
}

#[test]
fn wrong_password_counts_exactly_one_failure() {
    let store = seeded_store();
    let mut throttle = LoginThrottle::new();
    let r = login_at(&store, &mut throttle, &config(), &request("admin", "wrongpassword"), "10.0.0.1", T0);
    assert_eq!(r.err(), Some(AuthError::InvalidCredentials));
    assert_eq!(throttle.failures("10.0.0.1", T0), 1);
    let r = login_at(&store, &mut throttle, &config(), &request("nobody", "wrongpassword"), "10.0.0.1", T0 + 1);
    assert_eq!(r.err(), Some(AuthError::InvalidCredentials));
    assert_eq!(throttle.failures("10.0.0.1", T0 + 1), 2);
    assert_eq!(throttle.failures("10.0.0.2", T0 + 1), 0);
}

#[test]
fn malformed_login_touches_no_counter() {
    let store = seeded_store();
    let mut throttle = LoginThrottle::new();
    let r = login_at(&store, &mut throttle, &config(), &request("admin", "x"), "10.0.0.1", T0);
    assert_eq!(r.err(), Some(AuthError::InvalidInput));
    assert_eq!(throttle.failures("10.0.0.1", T0), 0);
}

#[test]
fn five_failures_lock_out_even_the_right_password() {
    let store = seeded_store();
    let mut throttle = LoginThrottle::new();
    let cfg = config();
    for i in 0..5u64 {
        let r = login_at(&store, &mut throttle, &cfg, &request("admin", "wrongpassword"), "10.0.0.1", T0 + i);
        assert_eq!(r.err(), Some(AuthError::InvalidCredentials));
    }
    let r = login_at(&store, &mut throttle, &cfg, &request("admin", "Admin123!"), "10.0.0.1", T0 + 5);
    assert_eq!(r.err(), Some(AuthError::Locked));
    assert_eq!(throttle.failures("10.0.0.1", T0 + 5), 5);
    // another client is not affected
    let r = login_at(&store, &mut throttle, &cfg, &request("admin", "Admin123!"), "10.0.0.2", T0 + 5);
    assert!(r.is_ok());
    // and the lock ends five minutes after the last failure
    let r = login_at(&store, &mut throttle, &cfg, &request("admin", "Admin123!"), "10.0.0.1", T0 + 4 + 301);
    assert!(r.is_ok());
}

#[test]
fn four_failures_do_not_lock() {
    let store = seeded_store();
    let mut throttle = LoginThrottle::new();
    let cfg = config();
    for i in 0..4u64 {
        let _ = login_at(&store, &mut throttle, &cfg, &request("admin", "wrongpassword"), "10.0.0.1", T0 + i);
    }
    let r = login_at(&store, &mut throttle, &cfg, &request("admin", "Admin123!"), "10.0.0.1", T0 + 4);
    assert!(r.is_ok());
}

#[test]
fn successful_login_resets_the_counter() {
    let store = seeded_store();
    let mut throttle = LoginThrottle::new();
    let cfg = config();
    for i in 0..3u64 {
        let _ = login_at(&store, &mut throttle, &cfg, &request("admin", "wrongpassword"), "10.0.0.1", T0 + i);
    }
    assert_eq!(throttle.failures("10.0.0.1", T0 + 3), 3);
    assert!(login_at(&store, &mut throttle, &cfg, &request("admin", "Admin123!"), "10.0.0.1", T0 + 3).is_ok());
    assert_eq!(throttle.failures("10.0.0.1", T0 + 3), 0);
    let r = login_at(&store, &mut throttle, &cfg, &request("viewer", "wrongpassword"), "10.0.0.1", T0 + 4);
    assert_eq!(r.err(), Some(AuthError::InvalidCredentials));
    assert_eq!(throttle.failures("10.0.0.1", T0 + 4), 1);
}

#[test]
fn revoked_token_is_rejected_before_its_expiry() {
    let store = seeded_store();
    let mut registry = RevocationRegistry::new();
    let cfg = config();
    let response = authenticate_user_at(&store, &cfg, &request("admin", "Admin123!"), T0).unwrap();
    assert!(validate_token_at(&registry, &store, &cfg, &response.token, T0 + 1).is_ok());
    revoke_token(&mut registry, &response.token).unwrap();
    assert_eq!(
        validate_token_at(&registry, &store, &cfg, &response.token, T0 + 1).err(),
        Some(AuthError::Unauthorized(UnauthorizedReason::Revoked))
    );
}

#[test]
fn expired_token_is_rejected_whether_revoked_or_not() {
    let store = seeded_store();
    let mut registry = RevocationRegistry::new();
    let cfg = config();
    let response = authenticate_user_at(&store, &cfg, &request("admin", "Admin123!"), T0).unwrap();
    assert_eq!(
        validate_token_at(&registry, &store, &cfg, &response.token, T0 + DAY + 1).err(),
        Some(AuthError::Unauthorized(UnauthorizedReason::Expired))
    );
    revoke_token(&mut registry, &response.token).unwrap();
    assert_eq!(
        validate_token_at(&registry, &store, &cfg, &response.token, T0 + DAY + 1).err(),
        Some(AuthError::Unauthorized(UnauthorizedReason::Revoked))
    );
}

#[test]
fn deactivation_invalidates_outstanding_tokens() {
    let mut store = seeded_store();
    let registry = RevocationRegistry::new();
    let cfg = config();
    let viewer = authenticate_user_at(&store, &cfg, &request("viewer", "Viewer123!"), T0).unwrap();
    let admin = authenticate_user_at(&store, &cfg, &request("admin", "Admin123!"), T0).unwrap();
    deactivate_user(&mut store, "viewer").unwrap();
    assert_eq!(
        validate_token_at(&registry, &store, &cfg, &viewer.token, T0 + 1).err(),
        Some(AuthError::Unauthorized(UnauthorizedReason::UserInactive))
    );
    assert!(parse_and_verify(&viewer.token, &cfg.secret, T0 + 1).is_ok());
    assert!(validate_token_at(&registry, &store, &cfg, &admin.token, T0 + 1).is_ok());
}

#[test]
fn token_for_a_user_the_store_does_not_know() {
    let store = seeded_store();
    let registry = RevocationRegistry::new();
    let cfg = config();
    let response = authenticate_user_at(&store, &cfg, &request("admin", "Admin123!"), T0).unwrap();
    let empty = CredentialStore::new();
    assert_eq!(
        validate_token_at(&registry, &empty, &cfg, &response.token, T0 + 1).err(),
        Some(AuthError::Unauthorized(UnauthorizedReason::UserNotFound))
    );
}

#[test]
fn garbage_and_foreign_tokens_are_unauthorized() {
    let store = seeded_store();
    let registry = RevocationRegistry::new();
    let cfg = config();
    assert_eq!(
        validate_token_at(&registry, &store, &cfg, "not-a-token", T0).err(),
        Some(AuthError::Unauthorized(UnauthorizedReason::Malformed))
    );
    let other = TokenConfig { secret: b"another-secret".to_vec(), lifetime_secs: DAY };
    let response = authenticate_user_at(&store, &other, &request("admin", "Admin123!"), T0).unwrap();
    assert_eq!(
        validate_token_at(&registry, &store, &cfg, &response.token, T0).err(),
        Some(AuthError::Unauthorized(UnauthorizedReason::SignatureInvalid))
    );
}

#[test]
fn issue_token_signs_the_user_record() {
    let store = seeded_store();
    let cfg = config();
    let user = store.lookup("viewer").unwrap();
    let response = issue_token(user, &cfg, T0).unwrap();
    assert_eq!(response.expires_at, T0 + DAY);
    assert_eq!(response.user.username, "viewer");
    let claims = parse_and_verify(&response.token, &cfg.secret, T0).unwrap();
    assert_eq!(claims.sub, "viewer");
    assert_eq!(claims.role, "viewer");
}

#[test]
fn seeded_admin_scenario() {
    let store = seeded_store();
    let mut registry = RevocationRegistry::new();
    let mut throttle = LoginThrottle::new();
    let cfg = config();
    let response = login(&store, &mut throttle, &cfg, &request("admin", "Admin123!"), "127.0.0.1").unwrap();
    let claims = validate_token(&registry, &store, &cfg, &response.token).unwrap();
    assert_eq!(claims.sub, "admin");
    assert_eq!(claims.role, "admin");
    assert_eq!(claims.exp, claims.iat + DAY);
    assert_eq!(response.expires_at, claims.exp);
    assert_eq!(check_permission(&claims, "viewer"), Ok(()));
    assert_eq!(revoke_token(&mut registry, &response.token), Ok(()));
    assert_eq!(
        validate_token(&registry, &store, &cfg, &response.token).err(),
        Some(AuthError::Unauthorized(UnauthorizedReason::Revoked))
    );
}

#[test]
fn login_at_the_current_time_counts_failures() {
    let store = seeded_store();
    let mut throttle = LoginThrottle::new();
    let cfg = config();
    for _ in 0..5 {
        let r = login(&store, &mut throttle, &cfg, &request("admin", "wrongpassword"), "127.0.0.1");
        assert_eq!(r.err(), Some(AuthError::InvalidCredentials));
    }
    let r = login(&store, &mut throttle, &cfg, &request("admin", "Admin123!"), "127.0.0.1");
    assert_eq!(r.err(), Some(AuthError::Locked));
}

#[test]
fn first_step_consults_shape_throttle_and_store() {
    let store = seeded_store();
    let mut throttle = LoginThrottle::new();
    assert!(matches!(
        begin_login(&store, &throttle, &request("ad", "Admin123!"), "10.0.0.1", T0),
        LoginStep::Invalid
    ));
    match begin_login(&store, &throttle, &request("admin", "whatever1"), "10.0.0.1", T0) {
        LoginStep::Candidate(Some(user)) => {
            assert_eq!(user.username, "admin");
            assert_eq!(user.role, "admin");
            assert!(user.is_active);
        }
        _ => panic!("the admin is known"),
    }
    assert!(matches!(
        begin_login(&store, &throttle, &request("nobody", "whatever1"), "10.0.0.1", T0),
        LoginStep::Candidate(None)
    ));
    for _ in 0..5 {
        throttle.record_failure("10.0.0.1", T0);
    }
    assert!(matches!(
        begin_login(&store, &throttle, &request("admin", "Admin123!"), "10.0.0.1", T0),
        LoginStep::Locked
    ));
    assert!(matches!(
        begin_login(&store, &throttle, &request("ad", "Admin123!"), "10.0.0.1", T0),
        LoginStep::Invalid
    ));
    assert!(matches!(
        begin_login(&store, &throttle, &request("admin", "Admin123!"), "10.0.0.1", T0 + 301),
        LoginStep::Candidate(Some(_))
    ));
}

#[test]
fn second_step_verifies_against_the_copy() {
    let mut store = seeded_store();
    let throttle = LoginThrottle::new();
    let good = request("viewer", "Viewer123!");
    let step = begin_login(&store, &throttle, &good, "10.0.0.1", T0);
    match weigh_credentials(step, &good) {
        LoginVerdict::Accepted(user) => {
            assert_eq!(user.username, "viewer");
            assert_eq!(user.role, "viewer");
        }
        _ => panic!("the right password is accepted"),
    }
    let bad = request("viewer", "Viewer123?");
    let step = begin_login(&store, &throttle, &bad, "10.0.0.1", T0);
    assert!(matches!(weigh_credentials(step, &bad), LoginVerdict::Rejected));
    assert!(matches!(weigh_credentials(LoginStep::Candidate(None), &good), LoginVerdict::Rejected));
    assert!(matches!(
        weigh_credentials(LoginStep::Invalid, &good),
        LoginVerdict::Refused(AuthError::InvalidInput)
    ));
    assert!(matches!(
        weigh_credentials(LoginStep::Locked, &good),
        LoginVerdict::Refused(AuthError::Locked)
    ));
    deactivate_user(&mut store, "viewer").unwrap();
    let step = begin_login(&store, &throttle, &good, "10.0.0.1", T0);
    assert!(matches!(weigh_credentials(step, &good), LoginVerdict::Rejected));
}

#[test]
fn last_step_counts_or_clears_and_issues() {
    let store = seeded_store();
    let cfg = config();
    let mut throttle = LoginThrottle::new();
    let r = finish_login(&mut throttle, &cfg, LoginVerdict::Rejected, "10.0.0.1", T0);
    assert_eq!(r.err(), Some(AuthError::InvalidCredentials));
    assert_eq!(throttle.failures("10.0.0.1", T0), 1);
    let r = finish_login(&mut throttle, &cfg, LoginVerdict::Refused(AuthError::Locked), "10.0.0.1", T0);
    assert_eq!(r.err(), Some(AuthError::Locked));
    assert_eq!(throttle.failures("10.0.0.1", T0), 1);
    let r = finish_login(&mut throttle, &cfg, LoginVerdict::Refused(AuthError::InvalidInput), "10.0.0.1", T0);
    assert_eq!(r.err(), Some(AuthError::InvalidInput));
    assert_eq!(throttle.failures("10.0.0.1", T0), 1);
    let user = store.lookup("viewer").unwrap().clone();
    let response = finish_login(&mut throttle, &cfg, LoginVerdict::Accepted(user), "10.0.0.1", T0).unwrap();
    assert_eq!(throttle.failures("10.0.0.1", T0), 0);
    assert_eq!(response.user.username, "viewer");
    assert_eq!(response.expires_at, T0 + DAY);
    let claims = parse_and_verify(&response.token, &cfg.secret, T0).unwrap();
    assert_eq!(claims.sub, "viewer");
    assert_eq!(claims.role, "viewer");
}

#[test]
fn login_with_accepted_credentials_always_yields_a_token() {
    let store = seeded_store();
    let mut throttle = LoginThrottle::new();
    for (i, secret) in [b"".to_vec(), b"k".to_vec(), vec![0u8; 300]].into_iter().enumerate() {
        let cfg = TokenConfig { secret, lifetime_secs: i as u64 };
        let response =
            login_at(&store, &mut throttle, &cfg, &request("admin", "Admin123!"), "10.0.0.1", T0).unwrap();
        assert_eq!(response.token.split('.').count(), 3);
        assert_eq!(response.expires_at, T0 + i as u64);
    }
}
