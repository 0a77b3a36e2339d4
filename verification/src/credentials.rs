//! The credential store: the registry of users, keyed by name.
//!
//! A user is never removed, only deactivated. The store holds password
//! verifiers, never raw passwords; the operations that accept a raw password
//! hash it first and touch the store only to assign the result.

use vstd::prelude::*;
use vstd::hash_map::StringHashMap;
use crate::error::{fails_with, AuthError};
use crate::input::{has_at_least, has_between, secure_compare};
use crate::password::{hash_password, password_accepted, password_matches, usable_cost};

verus! {

/// Shortest user name accepted, in bytes.
pub const MIN_USERNAME_LENGTH: usize = 3;

/// Longest user name accepted, in bytes.
pub const MAX_USERNAME_LENGTH: usize = 50;

/// Shortest password accepted when a password is set, in bytes.
pub const MIN_NEW_PASSWORD_LENGTH: usize = 8;

/// A user record.
#[derive(Debug)]
pub struct User {
    pub username: String,
    pub password_hash: String,
    pub role: String,
    pub is_active: bool,
}

/// The mathematical content of a [`User`].
pub struct UserView {
    pub username: Seq<char>,
    pub password_hash: Seq<char>,
    pub role: Seq<char>,
    pub is_active: bool,
}

impl View for User {
    type V = UserView;

    open spec fn view(&self) -> UserView {
        UserView {
            username: self.username@,
            password_hash: self.password_hash@,
            role: self.role@,
            is_active: self.is_active,
        }
    }
}

impl Clone for User {
    fn clone(&self) -> (copy: Self)
        ensures
            copy@ == self@,
    {
        User {
            username: self.username.clone(),
            password_hash: self.password_hash.clone(),
            role: self.role.clone(),
            is_active: self.is_active,
        }
    }
}

/// The name of the role that may do everything.
pub const ADMIN_ROLE: &'static str = "admin";

/// The name of the read-only role.
pub const VIEWER_ROLE: &'static str = "viewer";

/// The role that may do everything.
pub open spec fn admin_role() -> Seq<char> {
    ADMIN_ROLE@
}

/// The read-only role.
pub open spec fn viewer_role() -> Seq<char> {
    VIEWER_ROLE@
}

/// The roles a user can be created with.
pub open spec fn recognized_role(role: Seq<char>) -> bool {
    role == admin_role() || role == viewer_role()
}

/// The length of a text in bytes, as `str::len` counts it.
pub open spec fn byte_len(text: Seq<char>) -> nat {
    vstd::utf8::encode_utf8(text).len()
}

/// Whether a name may be given to a new user.
pub open spec fn valid_username(name: Seq<char>) -> bool {
    MIN_USERNAME_LENGTH <= byte_len(name) <= MAX_USERNAME_LENGTH
}

/// Whether a raw password may be set.
pub open spec fn valid_new_password(raw: Seq<char>) -> bool {
    byte_len(raw) >= MIN_NEW_PASSWORD_LENGTH
}

/// Whether `role` is one a user can be created with.
pub fn is_recognized_role(role: &str) -> (r: bool)
    ensures
        r == recognized_role(role@),
{
    secure_compare(role, ADMIN_ROLE) || secure_compare(role, VIEWER_ROLE)
}

/// Whether `name` may be given to a new user.
pub fn is_valid_username(name: &str) -> (r: bool)
    ensures
        r == valid_username(name@),
{
    let bytes = name.as_bytes().len();
    MIN_USERNAME_LENGTH <= bytes && bytes <= MAX_USERNAME_LENGTH
}

/// Whether `raw` may be set as a password.
pub fn is_valid_new_password(raw: &str) -> (r: bool)
    ensures
        r == valid_new_password(raw@),
{
    raw.as_bytes().len() >= MIN_NEW_PASSWORD_LENGTH
}

/// The registry of users.
pub struct CredentialStore {
    users: StringHashMap<User>,
}

impl View for CredentialStore {
    type V = Map<Seq<char>, UserView>;

    closed spec fn view(&self) -> Map<Seq<char>, UserView> {
        self.users@.map_values(|u: User| u@)
    }
}

/// The record of a freshly created user.
pub open spec fn new_user(name: Seq<char>, verifier: Seq<char>, role: Seq<char>) -> UserView {
    UserView { username: name, password_hash: verifier, role, is_active: true }
}

/// The record `user` with the active flag cleared.
pub open spec fn deactivated(user: UserView) -> UserView {
    UserView { is_active: false, ..user }
}

/// The record `user` with another verifier.
pub open spec fn with_verifier(user: UserView, verifier: Seq<char>) -> UserView {
    UserView { password_hash: verifier, ..user }
}

/// Whether `name` is a known, active user.
pub open spec fn active_in(users: Map<Seq<char>, UserView>, name: Seq<char>) -> bool {
    users.contains_key(name) && users[name].is_active
}

/// Whether `after` has lost nothing of `before`: every user is still there,
/// under the same name and with the same role, and whoever was deactivated
/// still is. Only a record's verifier and its active flag ever change, and
/// the flag only from active to inactive.
pub open spec fn keeps_every_user(
    before: Map<Seq<char>, UserView>,
    after: Map<Seq<char>, UserView>,
) -> bool {
    forall|name: Seq<char>| #[trigger]
        before.contains_key(name) ==> {
            &&& after.contains_key(name)
            &&& after[name].username == before[name].username
            &&& after[name].role == before[name].role
            &&& !before[name].is_active ==> !after[name].is_active
        }
}

impl CredentialStore {
    /// Every record is filed under its own name.
    pub open spec fn wf(&self) -> bool {
        forall|name: Seq<char>| #[trigger]
            self@.contains_key(name) ==> self@[name].username == name
    }

    /// An empty store.
    pub fn new() -> (store: Self)
        ensures
            store.wf(),
            store@ == Map::<Seq<char>, UserView>::empty(),
    {
        let store = CredentialStore { users: StringHashMap::new() };
        assert(store@ =~= Map::<Seq<char>, UserView>::empty());
        store
    }

    /// The record of `username`, if there is one.
    pub fn lookup(&self, username: &str) -> (found: Option<&User>)
        ensures
            match found {
                Some(user) => self@.contains_key(username@) && user@ == self@[username@],
                None => !self@.contains_key(username@),
            },
    {
        self.users.get(username)
    }

    /// Whether `username` is a known user who has not been deactivated.
    pub fn verify_active(&self, username: &str) -> (active: bool)
        ensures
            active == active_in(self@, username@),
    {
        match self.users.get(username) {
            Some(user) => user.is_active,
            None => false,
        }
    }

    /// Files a new, active user under `username`, with a verifier that was
    /// computed beforehand. An existing user is never overwritten.
    pub fn create(&mut self, username: &str, password_verifier: String, role: &str) -> (r: Result<
        (),
        AuthError,
    >)
        requires
            old(self).wf(),
        ensures
            final(self).wf(),
            keeps_every_user(old(self)@, final(self)@),
            !(valid_username(username@) && recognized_role(role@)) ==> r == Err::<(), AuthError>(
                AuthError::InvalidInput,
            ) && final(self)@ == old(self)@,
            valid_username(username@) && recognized_role(role@) && old(self)@.contains_key(
                username@,
            ) ==> r == Err::<(), AuthError>(AuthError::DuplicateUser) && final(self)@ == old(self)@,
            valid_username(username@) && recognized_role(role@) && !old(self)@.contains_key(
                username@,
            ) ==> r is Ok && final(self)@ == old(self)@.insert(
                username@,
                new_user(username@, password_verifier@, role@),
            ),
    {
        if !is_valid_username(username) || !is_recognized_role(role) {
            return Err(AuthError::InvalidInput);
        }
        if self.users.contains_key(username) {
            return Err(AuthError::DuplicateUser);
        }
        let user = User {
            username: username.to_owned(),
            password_hash: password_verifier,
            role: role.to_owned(),
            is_active: true,
        };
        self.users.insert(username.to_owned(), user);
        assert(self@ =~= old(self)@.insert(
            username@,
            new_user(username@, password_verifier@, role@),
        ));
        Ok(())
    }

    /// Assigns a verifier that was computed beforehand to an existing user.
    pub fn update_password(&mut self, username: &str, new_verifier: String) -> (r: Result<
        (),
        AuthError,
    >)
        requires
            old(self).wf(),
        ensures
            final(self).wf(),
            keeps_every_user(old(self)@, final(self)@),
            !old(self)@.contains_key(username@) ==> r == Err::<(), AuthError>(AuthError::NotFound)
                && final(self)@ == old(self)@,
            old(self)@.contains_key(username@) ==> r is Ok && final(self)@ == old(self)@.insert(
                username@,
                with_verifier(old(self)@[username@], new_verifier@),
            ),
    {
        let changed = match self.users.get(username) {
            Some(user) => User {
                username: user.username.clone(),
                password_hash: new_verifier,
                role: user.role.clone(),
                is_active: user.is_active,
            },
            None => {
                return Err(AuthError::NotFound);
            },
        };
        assert(old(self)@.contains_key(username@));
        self.users.insert(username.to_owned(), changed);
        assert(self@ =~= old(self)@.insert(
            username@,
            with_verifier(old(self)@[username@], new_verifier@),
        ));
        Ok(())
    }
}

/// Deactivates a user. The record stays in the store; it only stops being
/// active.
pub fn deactivate_user(store: &mut CredentialStore, username: &str) -> (r: Result<(), AuthError>)
    requires
        old(store).wf(),
    ensures
        final(store).wf(),
        keeps_every_user(old(store)@, final(store)@),
        !old(store)@.contains_key(username@) ==> r == Err::<(), AuthError>(AuthError::NotFound)
            && final(store)@ == old(store)@,
        old(store)@.contains_key(username@) ==> r is Ok && final(store)@ == old(store)@.insert(
            username@,
            deactivated(old(store)@[username@]),
        ),
{
    let changed = match store.users.get(username) {
        Some(user) => User {
            username: user.username.clone(),
            password_hash: user.password_hash.clone(),
            role: user.role.clone(),
            is_active: false,
        },
        None => {
            return Err(AuthError::NotFound);
        },
    };
    assert(old(store)@.contains_key(username@));
    store.users.insert(username.to_owned(), changed);
    assert(store@ =~= old(store)@.insert(username@, deactivated(old(store)@[username@])));
    Ok(())
}

/// Whether a user may be created from these three inputs.
pub open spec fn valid_new_user(name: Seq<char>, raw_password: Seq<char>, role: Seq<char>) -> bool {
    valid_username(name) && valid_new_password(raw_password) && recognized_role(role)
}

/// A user that is ready to be filed: input that has been validated, and a
/// verifier in place of the raw password.
#[derive(Debug)]
pub struct PreparedUser {
    pub username: String,
    pub password_verifier: String,
    pub role: String,
}

/// Whether `prepared` stands for these three inputs: the same name and
/// role, and a verifier that accepts the raw password.
pub open spec fn prepared_from(
    prepared: PreparedUser,
    name: Seq<char>,
    raw_password: Seq<char>,
    role: Seq<char>,
) -> bool {
    &&& prepared.username@ == name
    &&& prepared.role@ == role
    &&& password_accepted(raw_password, prepared.password_verifier@)
}

/// Validates the input for a new user and hashes the raw password, without
/// touching any store. This is the slow part of creating a user; what is
/// left is one call of [`CredentialStore::create`].
pub fn prepare_user(username: &str, password: &str, role: &str, cost: u32) -> (r: Result<
    PreparedUser,
    AuthError,
>)
    ensures
        !valid_new_user(username@, password@, role@) ==> fails_with(r, AuthError::InvalidInput),
        valid_new_user(username@, password@, role@) ==> match r {
            Ok(prepared) => prepared_from(prepared, username@, password@, role@) && usable_cost(
                cost,
            ),
            Err(e) => e == AuthError::Internal,
        },
{
    if !is_valid_username(username) || !is_valid_new_password(password) || !is_recognized_role(
        role,
    ) {
        return Err(AuthError::InvalidInput);
    }
    match hash_password(password, cost) {
        Ok(password_verifier) => Ok(
            PreparedUser { username: username.to_owned(), password_verifier, role: role.to_owned() },
        ),
        Err(e) => Err(e),
    }
}

/// Creates a user from a raw password, hashed with the given cost.
///
/// Malformed input is rejected before anything else happens, and an
/// existing name before any hashing. Otherwise the outcome rests on the
/// hashing primitive alone: if it reports a failure the store is unchanged;
/// if not, the user is filed, active, under a verifier that accepts the
/// password.
pub fn add_user(
    store: &mut CredentialStore,
    username: &str,
    password: &str,
    role: &str,
    cost: u32,
) -> (r: Result<(), AuthError>)
    requires
        old(store).wf(),
    ensures
        final(store).wf(),
        keeps_every_user(old(store)@, final(store)@),
        !valid_new_user(username@, password@, role@) ==> r == Err::<(), AuthError>(
            AuthError::InvalidInput,
        ) && final(store)@ == old(store)@,
        valid_new_user(username@, password@, role@) && old(store)@.contains_key(username@) ==> r
            == Err::<(), AuthError>(AuthError::DuplicateUser) && final(store)@ == old(store)@,
        valid_new_user(username@, password@, role@) && !old(store)@.contains_key(username@)
            ==> match r {
            Ok(_) => usable_cost(cost) && exists|verifier: Seq<char>| #[trigger]
                password_accepted(password@, verifier) && final(store)@ == old(store)@.insert(
                    username@,
                    new_user(username@, verifier, role@),
                ),
            Err(e) => e == AuthError::Internal && final(store)@ == old(store)@,
        },
{
    if !is_valid_username(username) || !is_valid_new_password(password) || !is_recognized_role(
        role,
    ) {
        return Err(AuthError::InvalidInput);
    }
    if store.users.contains_key(username) {
        return Err(AuthError::DuplicateUser);
    }
    match prepare_user(username, password, role, cost) {
        Ok(prepared) => {
            let ghost verifier = prepared.password_verifier@;
            let created = store.create(username, prepared.password_verifier, role);
            assert(password_accepted(password@, verifier));
            created
        },
        Err(e) => Err(e),
    }
}

/// Shortest user name a request may carry, in characters.
pub const MIN_REQUEST_USERNAME_CHARS: u64 = 3;

/// Longest user name a request may carry, in characters.
pub const MAX_REQUEST_USERNAME_CHARS: u64 = 50;

/// Shortest new password a request may carry, in characters.
pub const MIN_REQUEST_NEW_PASSWORD_CHARS: u64 = 8;

/// A request to replace a user's password.
#[derive(Debug)]
pub struct ChangePasswordRequest {
    pub username: String,
    pub current_password: String,
    pub new_password: String,
}

/// The mathematical content of a [`ChangePasswordRequest`].
pub struct ChangePasswordRequestView {
    pub username: Seq<char>,
    pub current_password: Seq<char>,
    pub new_password: Seq<char>,
}

impl View for ChangePasswordRequest {
    type V = ChangePasswordRequestView;

    open spec fn view(&self) -> ChangePasswordRequestView {
        ChangePasswordRequestView {
            username: self.username@,
            current_password: self.current_password@,
            new_password: self.new_password@,
        }
    }
}

/// Whether a password change request is well formed.
pub open spec fn valid_change_request(request: ChangePasswordRequestView) -> bool {
    &&& MIN_REQUEST_USERNAME_CHARS <= request.username.len() <= MAX_REQUEST_USERNAME_CHARS
    &&& MIN_REQUEST_NEW_PASSWORD_CHARS <= request.new_password.len()
}

impl ChangePasswordRequest {
    /// Whether the request is well formed.
    pub fn validate(&self) -> (ok: bool)
        ensures
            ok == valid_change_request(self@),
    {
        has_between(
            self.username.as_str(),
            MIN_REQUEST_USERNAME_CHARS,
            MAX_REQUEST_USERNAME_CHARS,
        ) && has_at_least(self.new_password.as_str(), MIN_REQUEST_NEW_PASSWORD_CHARS)
    }
}

/// Whether a password change may go ahead: the request is well formed, the
/// user exists and the current password is the right one.
pub open spec fn change_decision(
    users: Map<Seq<char>, UserView>,
    request: ChangePasswordRequestView,
) -> Result<(), AuthError> {
    if !valid_change_request(request) {
        Err(AuthError::InvalidInput)
    } else if !users.contains_key(request.username) {
        Err(AuthError::NotFound)
    } else if !password_accepted(request.current_password, users[request.username].password_hash) {
        Err(AuthError::InvalidCredentials)
    } else {
        Ok(())
    }
}

/// Decides whether a password change may go ahead, without changing
/// anything.
pub fn check_password_change(store: &CredentialStore, request: &ChangePasswordRequest) -> (r: Result<
    (),
    AuthError,
>)
    ensures
        r == change_decision(store@, request@),
{
    if !request.validate() {
        return Err(AuthError::InvalidInput);
    }
    match store.lookup(request.username.as_str()) {
        Some(user) => {
            if password_matches(request.current_password.as_str(), user.password_hash.as_str()) {
                Ok(())
            } else {
                Err(AuthError::InvalidCredentials)
            }
        },
        None => Err(AuthError::NotFound),
    }
}

/// Replaces a user's password, given the current one.
///
/// The request is refused, and the store left as it is, when it is
/// malformed, when the user is unknown or when the current password does not
/// match. Otherwise the outcome rests on the hashing primitive alone: if it
/// reports a failure the store is unchanged; if not, the user's verifier is
/// replaced by one that accepts the new password.
pub fn change_password(store: &mut CredentialStore, request: &ChangePasswordRequest, cost: u32) -> (r:
    Result<(), AuthError>)
    requires
        old(store).wf(),
    ensures
        final(store).wf(),
        keeps_every_user(old(store)@, final(store)@),
        change_decision(old(store)@, request@) matches Err(e) ==> r == Err::<(), AuthError>(e)
            && final(store)@ == old(store)@,
        change_decision(old(store)@, request@) is Ok ==> match r {
            Ok(_) => usable_cost(cost) && exists|verifier: Seq<char>| #[trigger]
                password_accepted(request.new_password@, verifier) && final(store)@ == old(
                    store,
                )@.insert(
                    request.username@,
                    with_verifier(old(store)@[request.username@], verifier),
                ),
            Err(e) => e == AuthError::Internal && final(store)@ == old(store)@,
        },
{
    match check_password_change(store, request) {
        Err(e) => {
            return Err(e);
        },
        Ok(_) => {},
    }
    match hash_password(request.new_password.as_str(), cost) {
        Ok(verifier) => {
            let ghost v = verifier@;
            let updated = store.update_password(request.username.as_str(), verifier);
            assert(password_accepted(request.new_password@, v));
            updated
        },
        Err(e) => Err(e),
    }
}

} // verus!
