//! Authentication and session control for a service with a small set of
//! named users: bearer tokens, role checks, revocation on logout and
//! throttling of repeated failed logins per client.
//!
//! The parts, leaves first:
//!
//! - [`password`]: password verifiers (hashing and matching);
//! - [`token`]: the codec for signed, time-bounded identity tokens;
//! - [`credentials`]: the store of user records;
//! - [`revocation`]: the registry of tokens revoked before their expiry;
//! - [`throttle`]: the failure counter and lockout per client;
//! - [`session`]: the façade that answers whether a login is allowed and
//!   valid, whether a token is usable and as whom, and whether an identity
//!   may perform an action;
//! - [`error`]: the failures, in detail and as a client may see them;
//! - [`input`], [`clock`], [`nonce`], [`headers`]: text handling, time,
//!   clock-derived tokens and the fixed response headers.
//!
//! The library holds no global state and takes no locks. Each store is an
//! owned value; the owning process builds them once at start-up and guards
//! each with a lock of its own: shared access is enough for every function
//! that takes `&`, exclusive access is needed where one takes `&mut`.
//!
//! Hashing and signing are done by the `bcrypt` and `jsonwebtoken` crates,
//! request lengths are checked by `validator`, and the clock is read through
//! `chrono`. What is believed of those calls is written down where they are
//! made; everything else is proved from it.

pub mod clock;
pub mod credentials;
pub mod error;
pub mod headers;
pub mod input;
pub mod nonce;
pub mod password;
pub mod revocation;
pub mod session;
pub mod throttle;
pub mod token;
