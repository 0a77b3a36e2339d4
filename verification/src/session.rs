//! The session façade: login, token validation and the permission rule.
//!
//! The façade owns no state. It is handed the credential store, the
//! revocation registry, the login throttle and the token settings, so that
//! the owning process can guard each of them with a lock of its own. Every
//! decision is stated for an explicit time; the entry points without a time
//! parameter read the clock once and decide for that reading.

use vstd::prelude::*;
use crate::clock::{clock_time, current_time, elapsed, expiry_after, expiry_from};
use crate::credentials::{
    active_in,
    add_user,
    admin_role,
    deactivate_user,
    deactivated,
    keeps_every_user,
    new_user,
    prepare_user,
    prepared_from,
    valid_new_user,
    viewer_role,
    CredentialStore,
    PreparedUser,
    User,
    UserView,
    ADMIN_ROLE,
    VIEWER_ROLE,
};
use crate::error::{fails_with, AuthError, UnauthorizedReason};
use crate::input::{
    bearer_token,
    has_at_least,
    has_between,
    presented_token,
    sanitize_input,
    sanitized,
    secure_compare,
};
use crate::password::{password_accepted, password_matches, usable_cost};
use crate::revocation::{revoke_token, RevocationRegistry};
use crate::throttle::{
    after_failure,
    after_reset,
    after_failures,
    effective_failures,
    in_one_window,
    is_locked,
    lemma_failures_add_up,
    reset_login_attempts,
    LoginThrottle,
    ThrottleState,
    LOCKOUT_SECS,
    MAX_ATTEMPTS,
};
use crate::token::{
    claims_of,
    complete,
    jwt_decoding,
    jwt_encoding,
    mint,
    parse_and_verify,
    parse_outcome,
    raw_of,
    Claims,
    ClaimsView,
    DecodedView,
};

verus! {

/// Shortest user name a login may carry, in characters.
pub const MIN_LOGIN_USERNAME_CHARS: u64 = 3;

/// Longest user name a login may carry, in characters.
pub const MAX_LOGIN_USERNAME_CHARS: u64 = 50;

/// Shortest password a login may carry, in characters.
pub const MIN_LOGIN_PASSWORD_CHARS: u64 = 6;

/// The requirement that a viewer satisfies besides the one for its own role.
pub const READ_REQUIREMENT: &'static str = "read";

/// The signing secret and the lifetime of the tokens minted with it. Both
/// are fixed when the process starts.
pub struct TokenConfig {
    pub secret: Vec<u8>,
    pub lifetime_secs: u64,
}

/// A login attempt.
#[derive(Debug)]
pub struct LoginRequest {
    pub username: String,
    pub password: String,
}

/// The mathematical content of a [`LoginRequest`].
pub struct LoginRequestView {
    pub username: Seq<char>,
    pub password: Seq<char>,
}

impl View for LoginRequest {
    type V = LoginRequestView;

    open spec fn view(&self) -> LoginRequestView {
        LoginRequestView { username: self.username@, password: self.password@ }
    }
}

/// Who a token was issued to.
#[derive(Debug)]
pub struct UserInfo {
    pub username: String,
    pub role: String,
}

/// What a successful login hands back.
#[derive(Debug)]
pub struct LoginResponse {
    pub token: String,
    /// The token's expiry, in seconds since the Unix epoch.
    pub expires_at: u64,
    pub user: UserInfo,
}

/// The mathematical content of a [`LoginResponse`].
pub struct LoginResponseView {
    pub token: Seq<char>,
    pub expires_at: u64,
    pub username: Seq<char>,
    pub role: Seq<char>,
}

impl View for LoginResponse {
    type V = LoginResponseView;

    open spec fn view(&self) -> LoginResponseView {
        LoginResponseView {
            token: self.token@,
            expires_at: self.expires_at,
            username: self.user.username@,
            role: self.user.role@,
        }
    }
}

/// Whether a login request is well formed.
pub open spec fn valid_login_request(request: LoginRequestView) -> bool {
    &&& MIN_LOGIN_USERNAME_CHARS <= request.username.len() <= MAX_LOGIN_USERNAME_CHARS
    &&& MIN_LOGIN_PASSWORD_CHARS <= request.password.len()
}

impl LoginRequest {
    /// Whether the request is well formed.
    pub fn validate(&self) -> (ok: bool)
        ensures
            ok == valid_login_request(self@),
    {
        has_between(self.username.as_str(), MIN_LOGIN_USERNAME_CHARS, MAX_LOGIN_USERNAME_CHARS)
            && has_at_least(self.password.as_str(), MIN_LOGIN_PASSWORD_CHARS)
    }
}

/// Whether the store vouches for a name and password: the user exists, is
/// active, and the password matches the stored verifier.
pub open spec fn credentials_accepted(
    users: Map<Seq<char>, UserView>,
    request: LoginRequestView,
) -> bool {
    &&& active_in(users, request.username)
    &&& password_accepted(request.password, users[request.username].password_hash)
}

/// The claims of a token issued to `user` at time `now`.
pub open spec fn issued_claims(user: UserView, now: u64, lifetime: u64) -> ClaimsView {
    ClaimsView {
        sub: user.username,
        exp: expiry_after(now, lifetime),
        iat: now,
        role: user.role,
    }
}

/// What a login hands back when `token` was minted for `claims`.
pub open spec fn response_for(token: Seq<char>, claims: ClaimsView) -> LoginResponseView {
    LoginResponseView {
        token,
        expires_at: claims.exp,
        username: claims.sub,
        role: claims.role,
    }
}

/// What issuing a token to `user` at time `now` yields: the response built
/// on the signed encoding of the claims. Issuing never fails.
pub open spec fn issue_outcome(user: UserView, secret: Seq<u8>, lifetime: u64, now: u64) -> Result<
    LoginResponseView,
    AuthError,
> {
    let claims = issued_claims(user, now, lifetime);
    Ok(response_for(jwt_encoding(claims, secret), claims))
}

/// What checking a name and password and issuing a token yields.
///
/// An unknown user, an inactive user and a wrong password are one and the
/// same failure.
pub open spec fn authentication_outcome(
    users: Map<Seq<char>, UserView>,
    secret: Seq<u8>,
    lifetime: u64,
    request: LoginRequestView,
    now: u64,
) -> Result<LoginResponseView, AuthError> {
    if !valid_login_request(request) {
        Err(AuthError::InvalidInput)
    } else if !credentials_accepted(users, request) {
        Err(AuthError::InvalidCredentials)
    } else {
        issue_outcome(users[request.username], secret, lifetime, now)
    }
}

/// What validating a token at time `now` yields. The checks run in this
/// order: revocation, signature and expiry, then whether the subject is
/// still a known and active user.
pub open spec fn validation_outcome(
    revoked: Set<Seq<char>>,
    users: Map<Seq<char>, UserView>,
    secret: Seq<u8>,
    token: Seq<char>,
    now: u64,
) -> Result<ClaimsView, AuthError> {
    if revoked.contains(token) {
        Err(AuthError::Unauthorized(UnauthorizedReason::Revoked))
    } else {
        match parse_outcome(token, secret, now) {
            Err(reason) => Err(AuthError::Unauthorized(reason)),
            Ok(claims) => if !users.contains_key(claims.sub) {
                Err(AuthError::Unauthorized(UnauthorizedReason::UserNotFound))
            } else if !users[claims.sub].is_active {
                Err(AuthError::Unauthorized(UnauthorizedReason::UserInactive))
            } else {
                Ok(claims)
            },
        }
    }
}

/// What a login attempt from `key` at time `now` yields, and the throttle
/// state it leaves behind.
///
/// A malformed request is turned away before anything is consulted. A
/// locked client is turned away whatever it presents, and its record is left
/// alone. Otherwise rejected credentials count as one more failure, and
/// accepted ones clear the client's record before the token is issued.
pub open spec fn login_outcome(
    users: Map<Seq<char>, UserView>,
    throttle: ThrottleState,
    secret: Seq<u8>,
    lifetime: u64,
    request: LoginRequestView,
    key: Seq<char>,
    now: u64,
) -> (Result<LoginResponseView, AuthError>, ThrottleState) {
    if !valid_login_request(request) {
        (Err(AuthError::InvalidInput), throttle)
    } else if is_locked(throttle, key, now) {
        (Err(AuthError::Locked), throttle)
    } else if !credentials_accepted(users, request) {
        (Err(AuthError::InvalidCredentials), after_failure(throttle, key, now))
    } else {
        (
            issue_outcome(users[request.username], secret, lifetime, now),
            after_reset(throttle, key),
        )
    }
}

/// Whether an identity with role `role` may do what requires `required`:
/// the admin role may do everything, any other role exactly what names it,
/// and a viewer may also read.
pub open spec fn role_permits(role: Seq<char>, required: Seq<char>) -> bool {
    ||| role == admin_role()
    ||| role == required
    ||| (role == viewer_role() && required == READ_REQUIREMENT@)
}

/// Whether a result is the expected one, the response taken by its view.
pub open spec fn response_is(
    r: Result<LoginResponse, AuthError>,
    expected: Result<LoginResponseView, AuthError>,
) -> bool {
    match r {
        Ok(response) => expected == Ok::<LoginResponseView, AuthError>(response@),
        Err(e) => expected == Err::<LoginResponseView, AuthError>(e),
    }
}

/// Whether a result is the expected one, the claims taken by their view.
pub open spec fn claims_are(
    r: Result<Claims, AuthError>,
    expected: Result<ClaimsView, AuthError>,
) -> bool {
    match r {
        Ok(claims) => expected == Ok::<ClaimsView, AuthError>(claims@),
        Err(e) => expected == Err::<ClaimsView, AuthError>(e),
    }
}

/// Whether `token` proves `claims` to these users under this secret: at
/// every time up to the expiry, and whatever else has been revoked,
/// validation yields exactly `claims`.
pub open spec fn accepted_as(
    token: Seq<char>,
    claims: ClaimsView,
    users: Map<Seq<char>, UserView>,
    secret: Seq<u8>,
) -> bool {
    forall|revoked: Set<Seq<char>>, later: u64|
        !revoked.contains(token) && later <= claims.exp ==> #[trigger] validation_outcome(
            revoked,
            users,
            secret,
            token,
            later,
        ) == Ok::<ClaimsView, AuthError>(claims)
}

/// Whether the token of a successful result was issued at `now` to the user
/// filed under `name`, and proves that user's identity.
pub open spec fn issued_to(
    r: Result<LoginResponse, AuthError>,
    users: Map<Seq<char>, UserView>,
    name: Seq<char>,
    secret: Seq<u8>,
    lifetime: u64,
    now: u64,
) -> bool {
    r matches Ok(response) ==> {
        let claims = issued_claims(users[name], now, lifetime);
        &&& claims.sub == name
        &&& response@ == response_for(response.token@, claims)
        &&& jwt_decoding(response.token@, secret) == DecodedView::Verified(raw_of(claims))
        &&& accepted_as(response.token@, claims, users, secret)
    }
}

/// A well-formed verifier, of the default cost, that stands in for the
/// missing one when a login names an unknown user or comes from a locked
/// client.
pub const DECOY_VERIFIER: &'static str =
    "$2y$12$L6Bc/AlTQHyd9liGgGEZyOFLPHNgyxeEPfgYfBCVxJ7JIlwxyVU3u";

/// Checks a name and a password against the store.
///
/// One password verification is made on every path, so that an unknown or
/// inactive user is not given away by a quicker answer: for an unknown user
/// the password is verified against [`DECOY_VERIFIER`] and the answer thrown
/// away.
fn verify_credentials<'a>(store: &'a CredentialStore, request: &LoginRequest) -> (found: Option<
    &'a User,
>)
    ensures
        match found {
            Some(user) => credentials_accepted(store@, request@) && user@
                == store@[request.username@],
            None => !credentials_accepted(store@, request@),
        },
{
    match store.lookup(request.username.as_str()) {
        Some(user) => {
            let matches = password_matches(request.password.as_str(), user.password_hash.as_str());
            if user.is_active && matches {
                Some(user)
            } else {
                None
            }
        },
        None => {
            let _ = password_matches(request.password.as_str(), DECOY_VERIFIER);
            None
        },
    }
}

/// Issues a token to `user` at time `now`.
///
/// The token reads back: under the same secret it decodes to the claims it
/// was issued for.
pub fn issue_token(user: &User, config: &TokenConfig, now: u64) -> (r: Result<
    LoginResponse,
    AuthError,
>)
    ensures
        response_is(r, issue_outcome(user@, config.secret@, config.lifetime_secs, now)),
        r matches Ok(response) ==> jwt_decoding(response.token@, config.secret@)
            == DecodedView::Verified(raw_of(issued_claims(user@, now, config.lifetime_secs))),
{
    let claims = Claims {
        sub: user.username.clone(),
        exp: expiry_from(now, config.lifetime_secs),
        iat: now,
        role: user.role.clone(),
    };
    match mint(&claims, config.secret.as_slice()) {
        Ok(token) => Ok(
            LoginResponse {
                token,
                expires_at: claims.exp,
                user: UserInfo { username: claims.sub, role: claims.role },
            },
        ),
        Err(e) => Err(e),
    }
}

/// Issues a token to a user whom the store vouches for, and records what is
/// then known of the token.
fn issue_to_accepted(
    store: &CredentialStore,
    user: &User,
    config: &TokenConfig,
    credentials: &LoginRequest,
    now: u64,
) -> (r: Result<LoginResponse, AuthError>)
    requires
        store.wf(),
        credentials_accepted(store@, credentials@),
        user@ == store@[credentials.username@],
    ensures
        response_is(r, issue_outcome(user@, config.secret@, config.lifetime_secs, now)),
        issued_to(
            r,
            store@,
            credentials.username@,
            config.secret@,
            config.lifetime_secs,
            now,
        ),
{
    let r = issue_token(user, config, now);
    proof {
        if r is Ok {
            let response = r->Ok_0;
            let claims = issued_claims(user@, now, config.lifetime_secs);
            assert(store@.contains_key(credentials.username@));
            assert forall|revoked: Set<Seq<char>>, later: u64|
                !revoked.contains(response.token@) && later <= claims.exp implies #[trigger] validation_outcome(
                revoked,
                store@,
                config.secret@,
                response.token@,
                later,
            ) == Ok::<ClaimsView, AuthError>(claims) by {
                lemma_issued_token_authenticates(
                    revoked,
                    store@,
                    config.secret@,
                    response.token@,
                    claims,
                    later,
                );
            }
        }
    }
    r
}

/// Checks a name and password at time `now` and, if the store vouches for
/// them, issues a token.
///
/// The outcome is [`authentication_outcome`]. A token that is handed out
/// proves the user's identity from then on: until it expires, validation
/// against the same store yields the user's name and role.
pub fn authenticate_user_at(
    store: &CredentialStore,
    config: &TokenConfig,
    credentials: &LoginRequest,
    now: u64,
) -> (r: Result<LoginResponse, AuthError>)
    requires
        store.wf(),
    ensures
        response_is(
            r,
            authentication_outcome(
                store@,
                config.secret@,
                config.lifetime_secs,
                credentials@,
                now,
            ),
        ),
        issued_to(
            r,
            store@,
            credentials.username@,
            config.secret@,
            config.lifetime_secs,
            now,
        ),
        valid_login_request(credentials@) && credentials_accepted(store@, credentials@) ==> r is Ok,
{
    if !credentials.validate() {
        return Err(AuthError::InvalidInput);
    }
    match verify_credentials(store, credentials) {
        Some(user) => issue_to_accepted(store, user, config, credentials, now),
        None => Err(AuthError::InvalidCredentials),
    }
}

/// Checks a name and password at the current time and, if the store vouches
/// for them, issues a token. The outcome is the one
/// [`authenticate_user_at`] gives for the time the clock showed.
pub fn authenticate_user(
    store: &CredentialStore,
    config: &TokenConfig,
    credentials: &LoginRequest,
) -> (r: Result<LoginResponse, AuthError>)
    requires
        store.wf(),
    ensures
        exists|now: u64|
            {
                &&& clock_time(now)
                &&& response_is(
                    r,
                    #[trigger] authentication_outcome(
                        store@,
                        config.secret@,
                        config.lifetime_secs,
                        credentials@,
                        now,
                    ),
                )
                &&& issued_to(
                    r,
                    store@,
                    credentials.username@,
                    config.secret@,
                    config.lifetime_secs,
                    now,
                )
            },
{
    let now = current_time();
    let r = authenticate_user_at(store, config, credentials, now);
    assert(response_is(
        r,
        authentication_outcome(store@, config.secret@, config.lifetime_secs, credentials@, now),
    ));
    r
}

/// Where a login attempt stands after its first step, which consults the
/// stores but verifies nothing.
pub enum LoginStep {
    /// The request is malformed.
    Invalid,
    /// The client is locked out.
    Locked,
    /// The attempt goes on, against this copy of the user's record; `None`
    /// where the store knows no such user.
    Candidate(Option<User>),
}

/// What the verification of a login attempt has found.
pub enum LoginVerdict {
    /// The attempt is turned away without being counted.
    Refused(AuthError),
    /// The credentials are not vouched for.
    Rejected,
    /// The credentials are those of this active user.
    Accepted(User),
}

/// Whether a copy of a user's record vouches for the credentials: there is
/// such a user, active, and the password matches the verifier.
pub open spec fn snapshot_accepts(snapshot: Option<User>, request: LoginRequestView) -> bool {
    snapshot matches Some(user) && user.is_active && password_accepted(
        request.password,
        user.password_hash@,
    )
}

/// Whether `snapshot` is what the store holds under `name`.
pub open spec fn snapshot_of(
    snapshot: Option<User>,
    users: Map<Seq<char>, UserView>,
    name: Seq<char>,
) -> bool {
    match snapshot {
        Some(user) => users.contains_key(name) && user@ == users[name],
        None => !users.contains_key(name),
    }
}

/// What the first step of a login attempt must find.
pub open spec fn step_for(
    step: LoginStep,
    users: Map<Seq<char>, UserView>,
    throttle: ThrottleState,
    request: LoginRequestView,
    key: Seq<char>,
    now: u64,
) -> bool {
    match step {
        LoginStep::Invalid => !valid_login_request(request),
        LoginStep::Locked => valid_login_request(request) && is_locked(throttle, key, now),
        LoginStep::Candidate(snapshot) => valid_login_request(request) && !is_locked(
            throttle,
            key,
            now,
        ) && snapshot_of(snapshot, users, request.username),
    }
}

/// What the verification must find for a step.
pub open spec fn verdict_for(verdict: LoginVerdict, step: LoginStep, request: LoginRequestView) -> bool {
    match step {
        LoginStep::Invalid => verdict matches LoginVerdict::Refused(e) && e
            == AuthError::InvalidInput,
        LoginStep::Locked => verdict matches LoginVerdict::Refused(e) && e == AuthError::Locked,
        LoginStep::Candidate(snapshot) => if snapshot_accepts(snapshot, request) {
            verdict matches LoginVerdict::Accepted(user) && user@ == snapshot->0@
        } else {
            verdict is Rejected
        },
    }
}

/// The first step of a login attempt: looks at the request's shape, asks the
/// throttle, and copies the user's record out of the store. Nothing is
/// verified and nothing is changed, so the stores need to be held only for
/// the length of this call.
pub fn begin_login(
    store: &CredentialStore,
    throttle: &LoginThrottle,
    credentials: &LoginRequest,
    client_key: &str,
    now: u64,
) -> (step: LoginStep)
    ensures
        step_for(step, store@, throttle@, credentials@, client_key@, now),
{
    if !credentials.validate() {
        return LoginStep::Invalid;
    }
    match throttle.check(client_key, now) {
        Err(_) => {
            return LoginStep::Locked;
        },
        Ok(_) => {},
    }
    match store.lookup(credentials.username.as_str()) {
        Some(user) => LoginStep::Candidate(Some(user.clone())),
        None => LoginStep::Candidate(None),
    }
}

/// The second step of a login attempt, and the slow one: verifies the
/// password against the copied record. No store is touched.
///
/// One password verification is made for a locked client and for an unknown
/// user too, against [`DECOY_VERIFIER`] and with the answer thrown away, so
/// that neither is given away by a quicker answer.
pub fn weigh_credentials(step: LoginStep, credentials: &LoginRequest) -> (verdict: LoginVerdict)
    ensures
        verdict_for(verdict, step, credentials@),
{
    match step {
        LoginStep::Invalid => LoginVerdict::Refused(AuthError::InvalidInput),
        LoginStep::Locked => {
            let _ = password_matches(credentials.password.as_str(), DECOY_VERIFIER);
            LoginVerdict::Refused(AuthError::Locked)
        },
        LoginStep::Candidate(None) => {
            let _ = password_matches(credentials.password.as_str(), DECOY_VERIFIER);
            LoginVerdict::Rejected
        },
        LoginStep::Candidate(Some(user)) => {
            let matches = password_matches(credentials.password.as_str(), user.password_hash.as_str());
            if user.is_active && matches {
                LoginVerdict::Accepted(user)
            } else {
                LoginVerdict::Rejected
            }
        },
    }
}

/// What the last step of a login attempt answers, and the throttle state it
/// leaves behind.
pub open spec fn finish_outcome(
    verdict: LoginVerdict,
    throttle: ThrottleState,
    secret: Seq<u8>,
    lifetime: u64,
    key: Seq<char>,
    now: u64,
) -> (Result<LoginResponseView, AuthError>, ThrottleState) {
    match verdict {
        LoginVerdict::Refused(e) => (Err(e), throttle),
        LoginVerdict::Rejected => (
            Err(AuthError::InvalidCredentials),
            after_failure(throttle, key, now),
        ),
        LoginVerdict::Accepted(user) => (
            issue_outcome(user@, secret, lifetime, now),
            after_reset(throttle, key),
        ),
    }
}

/// The last step of a login attempt: counts the failure or clears the
/// client's record, and issues the token. Only the throttle is needed, and
/// only for the length of this call.
pub fn finish_login(
    throttle: &mut LoginThrottle,
    config: &TokenConfig,
    verdict: LoginVerdict,
    client_key: &str,
    now: u64,
) -> (r: Result<LoginResponse, AuthError>)
    requires
        old(throttle).wf(),
    ensures
        final(throttle).wf(),
        final(throttle)@ == finish_outcome(
            verdict,
            old(throttle)@,
            config.secret@,
            config.lifetime_secs,
            client_key@,
            now,
        ).1,
        response_is(
            r,
            finish_outcome(
                verdict,
                old(throttle)@,
                config.secret@,
                config.lifetime_secs,
                client_key@,
                now,
            ).0,
        ),
        verdict matches LoginVerdict::Accepted(user) ==> r matches Ok(response) && jwt_decoding(
            response.token@,
            config.secret@,
        ) == DecodedView::Verified(raw_of(issued_claims(user@, now, config.lifetime_secs))),
{
    match verdict {
        LoginVerdict::Refused(e) => Err(e),
        LoginVerdict::Rejected => {
            throttle.record_failure(client_key, now);
            Err(AuthError::InvalidCredentials)
        },
        LoginVerdict::Accepted(user) => {
            reset_login_attempts(throttle, client_key);
            issue_token(&user, config, now)
        },
    }
}

/// The three steps of a login attempt, taken one after the other on stores
/// that nothing else has changed in between, come to what [`login_outcome`]
/// says.
pub proof fn lemma_steps_make_a_login(
    users: Map<Seq<char>, UserView>,
    throttle: ThrottleState,
    secret: Seq<u8>,
    lifetime: u64,
    request: LoginRequestView,
    key: Seq<char>,
    now: u64,
    step: LoginStep,
    verdict: LoginVerdict,
)
    requires
        step_for(step, users, throttle, request, key, now),
        verdict_for(verdict, step, request),
    ensures
        finish_outcome(verdict, throttle, secret, lifetime, key, now) == login_outcome(
            users,
            throttle,
            secret,
            lifetime,
            request,
            key,
            now,
        ),
        verdict matches LoginVerdict::Accepted(user) ==> credentials_accepted(users, request)
            && user@ == users[request.username],
{
}

/// Handles a login attempt from the client `client_key` at time `now`.
///
/// The outcome and the throttle state left behind are those of
/// [`login_outcome`]. A token that is handed out proves the user's identity
/// from then on: until it expires, validation against the same store yields
/// the user's name and role.
///
/// The attempt is made in three steps, [`begin_login`],
/// [`weigh_credentials`] and [`finish_login`]. Where the stores stand behind
/// locks, the steps can be called one by one, so that no lock is held while
/// the password is verified.
pub fn login_at(
    store: &CredentialStore,
    throttle: &mut LoginThrottle,
    config: &TokenConfig,
    credentials: &LoginRequest,
    client_key: &str,
    now: u64,
) -> (r: Result<LoginResponse, AuthError>)
    requires
        store.wf(),
        old(throttle).wf(),
    ensures
        final(throttle).wf(),
        final(throttle)@ == login_outcome(
            store@,
            old(throttle)@,
            config.secret@,
            config.lifetime_secs,
            credentials@,
            client_key@,
            now,
        ).1,
        response_is(
            r,
            login_outcome(
                store@,
                old(throttle)@,
                config.secret@,
                config.lifetime_secs,
                credentials@,
                client_key@,
                now,
            ).0,
        ),
        issued_to(
            r,
            store@,
            credentials.username@,
            config.secret@,
            config.lifetime_secs,
            now,
        ),
        valid_login_request(credentials@) && !is_locked(old(throttle)@, client_key@, now)
            && credentials_accepted(store@, credentials@) ==> r is Ok,
{
    let step = begin_login(store, throttle, credentials, client_key, now);
    let verdict = weigh_credentials(step, credentials);
    proof {
        lemma_steps_make_a_login(
            store@,
            throttle@,
            config.secret@,
            config.lifetime_secs,
            credentials@,
            client_key@,
            now,
            step,
            verdict,
        );
    }
    let r = finish_login(throttle, config, verdict, client_key, now);
    proof {
        if r is Ok {
            let response = r->Ok_0;
            let claims = issued_claims(
                store@[credentials.username@],
                now,
                config.lifetime_secs,
            );
            assert(verdict is Accepted);
            assert(store@.contains_key(credentials.username@));
            assert forall|revoked: Set<Seq<char>>, later: u64|
                !revoked.contains(response.token@) && later <= claims.exp implies #[trigger] validation_outcome(
                revoked,
                store@,
                config.secret@,
                response.token@,
                later,
            ) == Ok::<ClaimsView, AuthError>(claims) by {
                lemma_issued_token_authenticates(
                    revoked,
                    store@,
                    config.secret@,
                    response.token@,
                    claims,
                    later,
                );
            }
        }
    }
    r
}

/// Handles a login attempt from the client `client_key` at the current
/// time. The outcome and the throttle state left behind are the ones
/// [`login_at`] gives for the time the clock showed.
pub fn login(
    store: &CredentialStore,
    throttle: &mut LoginThrottle,
    config: &TokenConfig,
    credentials: &LoginRequest,
    client_key: &str,
) -> (r: Result<LoginResponse, AuthError>)
    requires
        store.wf(),
        old(throttle).wf(),
    ensures
        final(throttle).wf(),
        exists|now: u64|
            {
                let outcome = #[trigger] login_outcome(
                    store@,
                    old(throttle)@,
                    config.secret@,
                    config.lifetime_secs,
                    credentials@,
                    client_key@,
                    now,
                );
                &&& clock_time(now)
                &&& final(throttle)@ == outcome.1
                &&& response_is(r, outcome.0)
                &&& issued_to(
                    r,
                    store@,
                    credentials.username@,
                    config.secret@,
                    config.lifetime_secs,
                    now,
                )
            },
{
    let now = current_time();
    let r = login_at(store, throttle, config, credentials, client_key, now);
    proof {
        let outcome = login_outcome(
            store@,
            old(throttle)@,
            config.secret@,
            config.lifetime_secs,
            credentials@,
            client_key@,
            now,
        );
        assert(throttle@ == outcome.1 && response_is(r, outcome.0));
    }
    r
}

/// Validates a token at time `now` and yields the identity it proves.
pub fn validate_token_at(
    registry: &RevocationRegistry,
    store: &CredentialStore,
    config: &TokenConfig,
    token: &str,
    now: u64,
) -> (r: Result<Claims, AuthError>)
    ensures
        claims_are(r, validation_outcome(registry@, store@, config.secret@, token@, now)),
{
    if registry.is_revoked(token) {
        return Err(AuthError::Unauthorized(UnauthorizedReason::Revoked));
    }
    let claims = match parse_and_verify(token, config.secret.as_slice(), now) {
        Ok(claims) => claims,
        Err(reason) => {
            return Err(AuthError::Unauthorized(reason));
        },
    };
    match store.lookup(claims.sub.as_str()) {
        None => Err(AuthError::Unauthorized(UnauthorizedReason::UserNotFound)),
        Some(user) => {
            if user.is_active {
                Ok(claims)
            } else {
                Err(AuthError::Unauthorized(UnauthorizedReason::UserInactive))
            }
        },
    }
}

/// Validates a token at the current time. The outcome is the one
/// [`validate_token_at`] gives for the time the clock showed.
pub fn validate_token(
    registry: &RevocationRegistry,
    store: &CredentialStore,
    config: &TokenConfig,
    token: &str,
) -> (r: Result<Claims, AuthError>)
    ensures
        exists|now: u64|
            clock_time(now) && claims_are(
                r,
                #[trigger] validation_outcome(registry@, store@, config.secret@, token@, now),
            ),
{
    let now = current_time();
    let r = validate_token_at(registry, store, config, token, now);
    assert(claims_are(r, validation_outcome(registry@, store@, config.secret@, token@, now)));
    r
}

/// Decides whether the identity in `claims` may do what requires
/// `required_role`.
pub fn check_permission(claims: &Claims, required_role: &str) -> (r: Result<(), AuthError>)
    ensures
        role_permits(claims.role@, required_role@) ==> r is Ok,
        !role_permits(claims.role@, required_role@) ==> r == Err::<(), AuthError>(
            AuthError::Forbidden,
        ),
{
    let role = claims.role.as_str();
    if secure_compare(role, ADMIN_ROLE) || secure_compare(role, required_role) || (secure_compare(
        role,
        VIEWER_ROLE,
    ) && secure_compare(required_role, READ_REQUIREMENT)) {
        Ok(())
    } else {
        Err(AuthError::Forbidden)
    }
}

/// What validating the token presented in an authorization header yields.
/// A missing header, and one that does not follow the bearer convention,
/// count as a malformed token.
pub open spec fn header_outcome(
    revoked: Set<Seq<char>>,
    users: Map<Seq<char>, UserView>,
    secret: Seq<u8>,
    header: Option<Seq<char>>,
    now: u64,
) -> Result<ClaimsView, AuthError> {
    match header {
        Some(value) => match presented_token(value) {
            Some(token) => validation_outcome(revoked, users, secret, token, now),
            None => Err(AuthError::Unauthorized(UnauthorizedReason::Malformed)),
        },
        None => Err(AuthError::Unauthorized(UnauthorizedReason::Malformed)),
    }
}

/// The view of an optional header value.
pub open spec fn header_text(header: Option<&str>) -> Option<Seq<char>> {
    match header {
        Some(value) => Some(value@),
        None => None,
    }
}

/// Validates, at time `now`, the token presented in the authorization
/// header of a protected request.
pub fn validate_bearer_at(
    registry: &RevocationRegistry,
    store: &CredentialStore,
    config: &TokenConfig,
    authorization: Option<&str>,
    now: u64,
) -> (r: Result<Claims, AuthError>)
    ensures
        claims_are(
            r,
            header_outcome(registry@, store@, config.secret@, header_text(authorization), now),
        ),
{
    let token = match authorization {
        Some(value) => bearer_token(value),
        None => None,
    };
    match token {
        Some(token) => validate_token_at(registry, store, config, token, now),
        None => Err(AuthError::Unauthorized(UnauthorizedReason::Malformed)),
    }
}

/// Validates, at the current time, the token presented in the authorization
/// header of a protected request. The outcome is the one
/// [`validate_bearer_at`] gives for the time the clock showed.
pub fn validate_bearer(
    registry: &RevocationRegistry,
    store: &CredentialStore,
    config: &TokenConfig,
    authorization: Option<&str>,
) -> (r: Result<Claims, AuthError>)
    ensures
        exists|now: u64|
            clock_time(now) && claims_are(
                r,
                #[trigger] header_outcome(
                    registry@,
                    store@,
                    config.secret@,
                    header_text(authorization),
                    now,
                ),
            ),
{
    let now = current_time();
    let r = validate_bearer_at(registry, store, config, authorization, now);
    assert(claims_are(
        r,
        header_outcome(registry@, store@, config.secret@, header_text(authorization), now),
    ));
    r
}

/// The revoked set after a logout with the given authorization header: the
/// presented token joins it; without a presented token nothing changes.
pub open spec fn after_logout(revoked: Set<Seq<char>>, header: Option<Seq<char>>) -> Set<Seq<char>> {
    match header {
        Some(value) => match presented_token(value) {
            Some(token) => revoked.insert(token),
            None => revoked,
        },
        None => revoked,
    }
}

/// Logs out: revokes the token presented in the authorization header, if
/// there is one. Logging out never fails and may be repeated.
pub fn logout(registry: &mut RevocationRegistry, authorization: Option<&str>)
    requires
        old(registry).wf(),
    ensures
        final(registry).wf(),
        final(registry)@ == after_logout(old(registry)@, header_text(authorization)),
{
    let token = match authorization {
        Some(value) => bearer_token(value),
        None => None,
    };
    match token {
        Some(token) => {
            let _ = revoke_token(registry, token);
        },
        None => {},
    }
}

/// Whether an identity may administer users.
pub open spec fn may_administer(claims: ClaimsView) -> bool {
    role_permits(claims.role, admin_role())
}

/// Prepares a user on behalf of the identity in `claims`, without touching
/// any store.
///
/// Only an identity that satisfies the admin requirement gets anything
/// prepared. The name and the role are sanitised before they are used; the
/// password is taken as it is. What is handed back is ready for
/// [`CredentialStore::create`].
pub fn prepare_provisioning(
    claims: &Claims,
    username: &str,
    password: &str,
    role: &str,
    cost: u32,
) -> (r: Result<PreparedUser, AuthError>)
    ensures
        !may_administer(claims@) ==> fails_with(r, AuthError::Forbidden),
        may_administer(claims@) && !valid_new_user(
            sanitized(username@),
            password@,
            sanitized(role@),
        ) ==> fails_with(r, AuthError::InvalidInput),
        may_administer(claims@) && valid_new_user(sanitized(username@), password@, sanitized(role@))
            ==> match r {
            Ok(prepared) => usable_cost(cost) && prepared_from(
                prepared,
                sanitized(username@),
                password@,
                sanitized(role@),
            ),
            Err(e) => e == AuthError::Internal,
        },
{
    match check_permission(claims, ADMIN_ROLE) {
        Err(e) => {
            return Err(e);
        },
        Ok(_) => {},
    }
    let clean_name = sanitize_input(username);
    let clean_role = sanitize_input(role);
    prepare_user(clean_name.as_str(), password, clean_role.as_str(), cost)
}

/// Creates a user on behalf of the identity in `claims`.
///
/// Only an identity that satisfies the admin requirement gets as far as the
/// store; anybody else is refused and the store is left as it is. The name
/// and the role are sanitised before they are used; the password is taken
/// as it is. From there on the call behaves as
/// [`add_user`](crate::credentials::add_user) on the sanitised input.
pub fn provision_user(
    claims: &Claims,
    store: &mut CredentialStore,
    username: &str,
    password: &str,
    role: &str,
    cost: u32,
) -> (r: Result<(), AuthError>)
    requires
        old(store).wf(),
    ensures
        final(store).wf(),
        keeps_every_user(old(store)@, final(store)@),
        !may_administer(claims@) ==> r == Err::<(), AuthError>(AuthError::Forbidden) && final(store)@ == old(store)@,
        may_administer(claims@) ==> {
            let name = sanitized(username@);
            let clean_role = sanitized(role@);
            if !valid_new_user(name, password@, clean_role) {
                r == Err::<(), AuthError>(AuthError::InvalidInput) && final(store)@ == old(store)@
            } else if old(store)@.contains_key(name) {
                r == Err::<(), AuthError>(AuthError::DuplicateUser) && final(store)@ == old(store)@
            } else {
                match r {
                    Ok(_) => usable_cost(cost) && exists|verifier: Seq<char>| #[trigger]
                        password_accepted(password@, verifier) && final(store)@ == old(store)@.insert(name, new_user(name, verifier, clean_role)),
                    Err(e) => e == AuthError::Internal && final(store)@ == old(store)@,
                }
            }
        },
{
    match check_permission(claims, ADMIN_ROLE) {
        Err(e) => {
            return Err(e);
        },
        Ok(_) => {},
    }
    let clean_name = sanitize_input(username);
    let clean_role = sanitize_input(role);
    add_user(store, clean_name.as_str(), password, clean_role.as_str(), cost)
}

/// Deactivates a user on behalf of the identity in `claims`.
///
/// Only an identity that satisfies the admin requirement gets as far as the
/// store. The name is sanitised before it is looked up.
pub fn retire_user(claims: &Claims, store: &mut CredentialStore, username: &str) -> (r: Result<
    (),
    AuthError,
>)
    requires
        old(store).wf(),
    ensures
        final(store).wf(),
        keeps_every_user(old(store)@, final(store)@),
        !may_administer(claims@) ==> r == Err::<(), AuthError>(AuthError::Forbidden) && final(store)@ == old(store)@,
        may_administer(claims@) && !old(store)@.contains_key(sanitized(username@)) ==> r == Err::<
            (),
            AuthError,
        >(AuthError::NotFound) && final(store)@ == old(store)@,
        may_administer(claims@) && old(store)@.contains_key(sanitized(username@)) ==> r is Ok
            && final(store)@ == old(store)@.insert(
            sanitized(username@),
            deactivated(old(store)@[sanitized(username@)]),
        ),
{
    match check_permission(claims, ADMIN_ROLE) {
        Err(e) => {
            return Err(e);
        },
        Ok(_) => {},
    }
    let clean_name = sanitize_input(username);
    deactivate_user(store, clean_name.as_str())
}

/// The token of a login authenticates as the user it was issued to: as long
/// as it has not expired and has not been revoked, and the user is still
/// known and active, validation yields exactly the claims it was issued for.
pub proof fn lemma_issued_token_authenticates(
    revoked: Set<Seq<char>>,
    users: Map<Seq<char>, UserView>,
    secret: Seq<u8>,
    token: Seq<char>,
    claims: ClaimsView,
    now: u64,
)
    requires
        jwt_decoding(token, secret) == DecodedView::Verified(raw_of(claims)),
        active_in(users, claims.sub),
        !revoked.contains(token),
        now <= claims.exp,
    ensures
        validation_outcome(revoked, users, secret, token, now) == Ok::<ClaimsView, AuthError>(
            claims,
        ),
{
}

/// A login with credentials that the store does not vouch for, from a
/// client that is not locked, is answered with `InvalidCredentials` and
/// raises that client's failure count by exactly one.
pub proof fn lemma_rejected_login_counts_once(
    users: Map<Seq<char>, UserView>,
    throttle: ThrottleState,
    secret: Seq<u8>,
    lifetime: u64,
    request: LoginRequestView,
    key: Seq<char>,
    now: u64,
)
    requires
        valid_login_request(request),
        !is_locked(throttle, key, now),
        !credentials_accepted(users, request),
    ensures
        login_outcome(users, throttle, secret, lifetime, request, key, now).0 == Err::<
            LoginResponseView,
            AuthError,
        >(AuthError::InvalidCredentials),
        login_outcome(users, throttle, secret, lifetime, request, key, now).1 == after_failure(
            throttle,
            key,
            now,
        ),
        effective_failures(
            login_outcome(users, throttle, secret, lifetime, request, key, now).1,
            key,
            now,
        ) == effective_failures(throttle, key, now) + 1,
{
}

/// Whenever a login is answered with `InvalidCredentials`, the client's
/// failure count has gone up by exactly one; whenever it is answered with
/// `InvalidInput` or `Locked`, the throttle is as it was.
pub proof fn lemma_failed_login_counts_once(
    users: Map<Seq<char>, UserView>,
    throttle: ThrottleState,
    secret: Seq<u8>,
    lifetime: u64,
    request: LoginRequestView,
    key: Seq<char>,
    now: u64,
)
    ensures
        ({
            let outcome = login_outcome(users, throttle, secret, lifetime, request, key, now);
            &&& outcome.0 == Err::<LoginResponseView, AuthError>(AuthError::InvalidCredentials)
                ==> effective_failures(outcome.1, key, now) == effective_failures(
                throttle,
                key,
                now,
            ) + 1
            &&& outcome.0 == Err::<LoginResponseView, AuthError>(AuthError::InvalidInput)
                || outcome.0 == Err::<LoginResponseView, AuthError>(AuthError::Locked)
                ==> outcome.1 == throttle
        }),
{
}

/// A locked client is turned away whatever it presents, the right password
/// included, and its record is left as it is.
pub proof fn lemma_locked_login_is_refused(
    users: Map<Seq<char>, UserView>,
    throttle: ThrottleState,
    secret: Seq<u8>,
    lifetime: u64,
    request: LoginRequestView,
    key: Seq<char>,
    now: u64,
)
    requires
        valid_login_request(request),
        is_locked(throttle, key, now),
    ensures
        login_outcome(users, throttle, secret, lifetime, request, key, now) == (
            Err::<LoginResponseView, AuthError>(AuthError::Locked),
            throttle,
        ),
{
}

/// The throttle state after login attempts from `key`, one for each of
/// `requests`, made at the corresponding `times`.
pub open spec fn after_logins(
    users: Map<Seq<char>, UserView>,
    throttle: ThrottleState,
    secret: Seq<u8>,
    lifetime: u64,
    requests: Seq<LoginRequestView>,
    key: Seq<char>,
    times: Seq<u64>,
) -> ThrottleState
    recommends
        requests.len() == times.len(),
    decreases requests.len(),
{
    if requests.len() == 0 {
        throttle
    } else {
        login_outcome(
            users,
            after_logins(users, throttle, secret, lifetime, requests.drop_last(), key, times.drop_last()),
            secret,
            lifetime,
            requests.last(),
            key,
            times.last(),
        ).1
    }
}

/// Rejected logins in a row from a client that starts out clean are each
/// counted: as long as there are no more than [`MAX_ATTEMPTS`] of them, the
/// state they leave behind is the one that as many failures leave behind.
proof fn lemma_rejected_logins_are_failures(
    users: Map<Seq<char>, UserView>,
    throttle: ThrottleState,
    secret: Seq<u8>,
    lifetime: u64,
    requests: Seq<LoginRequestView>,
    key: Seq<char>,
    times: Seq<u64>,
)
    requires
        0 < requests.len() == times.len() <= MAX_ATTEMPTS,
        in_one_window(times),
        effective_failures(throttle, key, times[0]) == 0,
        forall|i: int|
            0 <= i < requests.len() ==> valid_login_request(#[trigger] requests[i])
                && !credentials_accepted(users, requests[i]),
    ensures
        after_logins(users, throttle, secret, lifetime, requests, key, times) == after_failures(
            throttle,
            key,
            times,
        ),
        after_failures(throttle, key, times)[key].failures == times.len(),
        after_failures(throttle, key, times)[key].window_start == times.last(),
        after_failures(throttle, key, times).contains_key(key),
    decreases requests.len(),
{
    let earlier = requests.drop_last();
    let earlier_times = times.drop_last();
    let last_request = requests.last();
    let at = times.last();
    let before = after_logins(users, throttle, secret, lifetime, earlier, key, earlier_times);
    assert(valid_login_request(requests[requests.len() - 1]));
    if earlier.len() > 0 {
        assert forall|i: int| 0 < i < earlier_times.len() implies elapsed(
            earlier_times[i - 1],
            #[trigger] earlier_times[i],
        ) <= LOCKOUT_SECS by {
            assert(earlier_times[i] == times[i]);
            assert(earlier_times[i - 1] == times[i - 1]);
        }
        assert forall|i: int| 0 <= i < earlier.len() implies valid_login_request(
            #[trigger] earlier[i],
        ) && !credentials_accepted(users, earlier[i]) by {
            assert(earlier[i] == requests[i]);
        }
        assert(earlier_times[0] == times[0]);
        lemma_rejected_logins_are_failures(
            users,
            throttle,
            secret,
            lifetime,
            earlier,
            key,
            earlier_times,
        );
        assert(earlier_times.last() == times[times.len() - 2]);
        assert(elapsed(times[times.len() - 2], times[times.len() - 1]) <= LOCKOUT_SECS);
        assert(before == after_failures(throttle, key, earlier_times));
        assert(effective_failures(before, key, at) == earlier.len());
    } else {
        assert(at == times[0]);
        assert(before == throttle);
        assert(after_failures(throttle, key, earlier_times) == throttle);
        assert(effective_failures(before, key, at) == 0);
    }
    assert(!is_locked(before, key, at));
    assert(login_outcome(users, before, secret, lifetime, last_request, key, at).1 == after_failure(
        before,
        key,
        at,
    ));
    assert(after_failures(throttle, key, times) == after_failure(
        after_failures(throttle, key, earlier_times),
        key,
        at,
    ));
}

/// Five wrong passwords lock a clean client: after [`MAX_ATTEMPTS`] logins
/// in a row with credentials that the store does not vouch for, from a
/// client that counted no failures before, each within the lockout window
/// of the one before, the next login from that client is answered with
/// `Locked` for as long as the last failure is within the window, whatever
/// credentials it presents.
pub proof fn lemma_wrong_passwords_lock_a_clean_client(
    users: Map<Seq<char>, UserView>,
    throttle: ThrottleState,
    secret: Seq<u8>,
    lifetime: u64,
    requests: Seq<LoginRequestView>,
    key: Seq<char>,
    times: Seq<u64>,
    next: LoginRequestView,
    now: u64,
)
    requires
        requests.len() == MAX_ATTEMPTS,
        times.len() == MAX_ATTEMPTS,
        in_one_window(times),
        effective_failures(throttle, key, times[0]) == 0,
        forall|i: int|
            0 <= i < requests.len() ==> valid_login_request(#[trigger] requests[i])
                && !credentials_accepted(users, requests[i]),
        elapsed(times.last(), now) <= LOCKOUT_SECS,
        valid_login_request(next),
    ensures
        login_outcome(
            users,
            after_logins(users, throttle, secret, lifetime, requests, key, times),
            secret,
            lifetime,
            next,
            key,
            now,
        ).0 == Err::<LoginResponseView, AuthError>(AuthError::Locked),
{
    lemma_rejected_logins_are_failures(users, throttle, secret, lifetime, requests, key, times);
}

/// What the `i`-th of a row of login attempts from `key` is answered with.
pub open spec fn answer_to(
    users: Map<Seq<char>, UserView>,
    throttle: ThrottleState,
    secret: Seq<u8>,
    lifetime: u64,
    requests: Seq<LoginRequestView>,
    key: Seq<char>,
    times: Seq<u64>,
    i: int,
) -> Result<LoginResponseView, AuthError>
    recommends
        requests.len() == times.len(),
        0 <= i < requests.len(),
{
    login_outcome(
        users,
        after_logins(users, throttle, secret, lifetime, requests.take(i), key, times.take(i)),
        secret,
        lifetime,
        requests[i],
        key,
        times[i],
    ).0
}

/// Whether every one of a row of login attempts from `key` fails on its
/// credentials.
pub open spec fn all_fail(
    users: Map<Seq<char>, UserView>,
    throttle: ThrottleState,
    secret: Seq<u8>,
    lifetime: u64,
    requests: Seq<LoginRequestView>,
    key: Seq<char>,
    times: Seq<u64>,
) -> bool {
    forall|i: int|
        0 <= i < requests.len() ==> #[trigger] answer_to(
            users,
            throttle,
            secret,
            lifetime,
            requests,
            key,
            times,
            i,
        ) == Err::<LoginResponseView, AuthError>(AuthError::InvalidCredentials)
}

/// Logins that all fail on their credentials are each counted: the state
/// they leave behind is the one that as many failures leave behind.
proof fn lemma_failed_logins_are_failures(
    users: Map<Seq<char>, UserView>,
    throttle: ThrottleState,
    secret: Seq<u8>,
    lifetime: u64,
    requests: Seq<LoginRequestView>,
    key: Seq<char>,
    times: Seq<u64>,
)
    requires
        requests.len() == times.len(),
        all_fail(users, throttle, secret, lifetime, requests, key, times),
    ensures
        after_logins(users, throttle, secret, lifetime, requests, key, times) == after_failures(
            throttle,
            key,
            times,
        ),
    decreases requests.len(),
{
    if requests.len() > 0 {
        let n = requests.len() as int;
        let earlier = requests.drop_last();
        let earlier_times = times.drop_last();
        assert forall|i: int| 0 <= i < earlier.len() implies #[trigger] answer_to(
            users,
            throttle,
            secret,
            lifetime,
            earlier,
            key,
            earlier_times,
            i,
        ) == Err::<LoginResponseView, AuthError>(AuthError::InvalidCredentials) by {
            assert(earlier.take(i) =~= requests.take(i));
            assert(earlier_times.take(i) =~= times.take(i));
            assert(answer_to(users, throttle, secret, lifetime, requests, key, times, i) == Err::<
                LoginResponseView,
                AuthError,
            >(AuthError::InvalidCredentials));
        }
        lemma_failed_logins_are_failures(
            users,
            throttle,
            secret,
            lifetime,
            earlier,
            key,
            earlier_times,
        );
        assert(requests.take(n - 1) =~= earlier);
        assert(times.take(n - 1) =~= earlier_times);
        assert(answer_to(users, throttle, secret, lifetime, requests, key, times, n - 1) == Err::<
            LoginResponseView,
            AuthError,
        >(AuthError::InvalidCredentials));
    }
}

/// After [`MAX_ATTEMPTS`] logins in a row from one client that failed on
/// their credentials, each within the lockout window of the one before, the
/// next login from that client is answered with `Locked` for as long as the
/// last failure is within the window, whatever credentials it presents.
pub proof fn lemma_lockout_after_max_attempts(
    users: Map<Seq<char>, UserView>,
    throttle: ThrottleState,
    secret: Seq<u8>,
    lifetime: u64,
    requests: Seq<LoginRequestView>,
    key: Seq<char>,
    times: Seq<u64>,
    next: LoginRequestView,
    now: u64,
)
    requires
        requests.len() == MAX_ATTEMPTS,
        times.len() == MAX_ATTEMPTS,
        all_fail(users, throttle, secret, lifetime, requests, key, times),
        in_one_window(times),
        elapsed(times.last(), now) <= LOCKOUT_SECS,
        valid_login_request(next),
    ensures
        login_outcome(
            users,
            after_logins(users, throttle, secret, lifetime, requests, key, times),
            secret,
            lifetime,
            next,
            key,
            now,
        ).0 == Err::<LoginResponseView, AuthError>(AuthError::Locked),
{
    lemma_failed_logins_are_failures(users, throttle, secret, lifetime, requests, key, times);
    lemma_failures_add_up(throttle, key, times, now);
}

/// A login with credentials that the store vouches for, from a client that
/// is not locked, succeeds and clears the client's record, whatever count
/// it held, so that the next rejected login from that client, whoever it is
/// for, starts a fresh count of one.
pub proof fn lemma_successful_login_resets(
    users: Map<Seq<char>, UserView>,
    throttle: ThrottleState,
    secret: Seq<u8>,
    lifetime: u64,
    request: LoginRequestView,
    key: Seq<char>,
    now: u64,
    later_request: LoginRequestView,
    later: u64,
)
    requires
        valid_login_request(request),
        !is_locked(throttle, key, now),
        credentials_accepted(users, request),
        valid_login_request(later_request),
        !credentials_accepted(users, later_request),
    ensures
        login_outcome(users, throttle, secret, lifetime, request, key, now).0 is Ok,
        login_outcome(users, throttle, secret, lifetime, request, key, now).1 == after_reset(
            throttle,
            key,
        ),
        forall|t: u64|
            effective_failures(
                login_outcome(users, throttle, secret, lifetime, request, key, now).1,
                key,
                t,
            ) == 0,
        effective_failures(
            login_outcome(
                users,
                login_outcome(users, throttle, secret, lifetime, request, key, now).1,
                secret,
                lifetime,
                later_request,
                key,
                later,
            ).1,
            key,
            later,
        ) == 1,
{
}

/// A revoked token is rejected as revoked, at every time and whatever it
/// holds: revocation is checked before anything else.
pub proof fn lemma_revoked_token_is_rejected(
    revoked: Set<Seq<char>>,
    users: Map<Seq<char>, UserView>,
    secret: Seq<u8>,
    token: Seq<char>,
    now: u64,
)
    ensures
        validation_outcome(revoked.insert(token), users, secret, token, now) == Err::<
            ClaimsView,
            AuthError,
        >(AuthError::Unauthorized(UnauthorizedReason::Revoked)),
{
}

/// A token whose expiry lies in the past is rejected, revoked or not: as
/// revoked if it was revoked, as expired otherwise.
pub proof fn lemma_expired_token_is_rejected(
    revoked: Set<Seq<char>>,
    users: Map<Seq<char>, UserView>,
    secret: Seq<u8>,
    token: Seq<char>,
    now: u64,
)
    requires
        jwt_decoding(token, secret) matches DecodedView::Verified(raw) && complete(raw)
            && claims_of(raw).exp < now,
    ensures
        validation_outcome(revoked, users, secret, token, now) is Err,
        validation_outcome(revoked, users, secret, token, now) == Err::<ClaimsView, AuthError>(
            AuthError::Unauthorized(
                if revoked.contains(token) {
                    UnauthorizedReason::Revoked
                } else {
                    UnauthorizedReason::Expired
                },
            ),
        ),
{
}

/// The admin role satisfies every requirement; a viewer does not satisfy a
/// requirement for the admin role, and does satisfy one for the viewer role.
pub proof fn lemma_permission_rule(required: Seq<char>)
    ensures
        role_permits(admin_role(), required),
        !role_permits(viewer_role(), admin_role()),
        role_permits(viewer_role(), viewer_role()),
{
    reveal_strlit("admin");
    reveal_strlit("viewer");
    reveal_strlit("read");
    assert(admin_role().len() == 5);
    assert(viewer_role().len() == 6);
    assert(READ_REQUIREMENT@.len() == 4);
}

/// Deactivating a user invalidates every token issued to that user: a token
/// that still parses, with a signature that still verifies, is rejected
/// because its subject is inactive.
pub proof fn lemma_deactivation_invalidates_tokens(
    revoked: Set<Seq<char>>,
    users: Map<Seq<char>, UserView>,
    secret: Seq<u8>,
    token: Seq<char>,
    name: Seq<char>,
    now: u64,
)
    requires
        users.contains_key(name),
        parse_outcome(token, secret, now) matches Ok(claims) && claims.sub == name,
    ensures
        validation_outcome(
            revoked,
            users.insert(name, deactivated(users[name])),
            secret,
            token,
            now,
        ) is Err,
        !revoked.contains(token) ==> validation_outcome(
            revoked,
            users.insert(name, deactivated(users[name])),
            secret,
            token,
            now,
        ) == Err::<ClaimsView, AuthError>(
            AuthError::Unauthorized(UnauthorizedReason::UserInactive),
        ),
{
}

/// After a logout the presented token is rejected as revoked, at every
/// time, even though its own expiry may not have passed.
pub proof fn lemma_logout_revokes(
    revoked: Set<Seq<char>>,
    users: Map<Seq<char>, UserView>,
    secret: Seq<u8>,
    header: Seq<char>,
    now: u64,
)
    requires
        presented_token(header) is Some,
    ensures
        header_outcome(after_logout(revoked, Some(header)), users, secret, Some(header), now)
            == Err::<ClaimsView, AuthError>(
            AuthError::Unauthorized(UnauthorizedReason::Revoked),
        ),
{
}

/// A well-formed login with credentials that the store vouches for, from a
/// client that is not locked, succeeds: it hands back a token for the user's
/// name and role, and leaves the client without a record.
pub proof fn lemma_accepted_login_succeeds(
    users: Map<Seq<char>, UserView>,
    throttle: ThrottleState,
    secret: Seq<u8>,
    lifetime: u64,
    request: LoginRequestView,
    key: Seq<char>,
    now: u64,
)
    requires
        valid_login_request(request),
        !is_locked(throttle, key, now),
        credentials_accepted(users, request),
    ensures
        ({
            let outcome = login_outcome(users, throttle, secret, lifetime, request, key, now);
            let user = users[request.username];
            &&& outcome.0 matches Ok(response) && response.username == user.username
                && response.role == user.role && response.expires_at == expiry_after(
                now,
                lifetime,
            ) && response.token == jwt_encoding(issued_claims(user, now, lifetime), secret)
            &&& outcome.1 == after_reset(throttle, key)
        }),
        authentication_outcome(users, secret, lifetime, request, now) is Ok,
{
}

/// Logins from one client leave the records of every other client as they
/// were.
pub proof fn lemma_logins_touch_one_client(
    users: Map<Seq<char>, UserView>,
    throttle: ThrottleState,
    secret: Seq<u8>,
    lifetime: u64,
    requests: Seq<LoginRequestView>,
    key: Seq<char>,
    times: Seq<u64>,
    other: Seq<char>,
)
    requires
        other != key,
    ensures
        ({
            let after = after_logins(users, throttle, secret, lifetime, requests, key, times);
            &&& after.contains_key(other) == throttle.contains_key(other)
            &&& after.contains_key(other) ==> after[other] == throttle[other]
        }),
    decreases requests.len(),
{
    if requests.len() > 0 {
        lemma_logins_touch_one_client(
            users,
            throttle,
            secret,
            lifetime,
            requests.drop_last(),
            key,
            times.drop_last(),
            other,
        );
    }
}

/// A lockout is the locked client's alone: whatever one client has done,
/// another client that is not locked itself still logs in with credentials
/// that the store vouches for.
pub proof fn lemma_lockout_spares_other_clients(
    users: Map<Seq<char>, UserView>,
    throttle: ThrottleState,
    secret: Seq<u8>,
    lifetime: u64,
    requests: Seq<LoginRequestView>,
    key: Seq<char>,
    times: Seq<u64>,
    other: Seq<char>,
    request: LoginRequestView,
    now: u64,
)
    requires
        other != key,
        !is_locked(throttle, other, now),
        valid_login_request(request),
        credentials_accepted(users, request),
    ensures
        login_outcome(
            users,
            after_logins(users, throttle, secret, lifetime, requests, key, times),
            secret,
            lifetime,
            request,
            other,
            now,
        ).0 is Ok,
{
    lemma_logins_touch_one_client(users, throttle, secret, lifetime, requests, key, times, other);
}

} // verus!
