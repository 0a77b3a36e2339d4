//! The token codec: signed, time-bounded identity tokens.
//!
//! A token is a standard signed-claims string (header, payload, signature)
//! under one symmetric secret. Signing and signature checking are done by the
//! `jsonwebtoken` crate; both are functions of their arguments alone and are
//! given names, [`jwt_encoding`] and [`jwt_decoding`]. Whether a decoded
//! token is accepted at a given time is decided here, by
//! [`claims_from_decoded`].

use vstd::prelude::*;
use crate::error::{AuthError, UnauthorizedReason};
use jsonwebtoken::{decode, DecodingKey, EncodingKey, Header, Validation};
use jsonwebtoken::errors::ErrorKind;
use serde_json::Value;

verus! {

/// Token lifetime used when none is configured: 24 hours.
pub const DEFAULT_TOKEN_LIFETIME_SECS: u64 = 86_400;

/// The identity facts carried inside a token. Times are seconds since the
/// Unix epoch.
#[derive(Debug)]
pub struct Claims {
    /// Subject: the user's name.
    pub sub: String,
    /// Expiry.
    pub exp: u64,
    /// Time of issue.
    pub iat: u64,
    /// The user's role.
    pub role: String,
}

/// The mathematical content of [`Claims`].
pub struct ClaimsView {
    pub sub: Seq<char>,
    pub exp: u64,
    pub iat: u64,
    pub role: Seq<char>,
}

impl View for Claims {
    type V = ClaimsView;

    open spec fn view(&self) -> ClaimsView {
        ClaimsView { sub: self.sub@, exp: self.exp, iat: self.iat, role: self.role@ }
    }
}

impl Clone for Claims {
    fn clone(&self) -> (copy: Self)
        ensures
            copy@ == self@,
    {
        Claims { sub: self.sub.clone(), exp: self.exp, iat: self.iat, role: self.role.clone() }
    }
}

/// The four claim fields as found in a token's payload; a field that is
/// absent or of the wrong type is `None`.
pub struct RawClaims {
    pub sub: Option<String>,
    pub exp: Option<u64>,
    pub iat: Option<u64>,
    pub role: Option<String>,
}

/// The mathematical content of [`RawClaims`].
pub struct RawClaimsView {
    pub sub: Option<Seq<char>>,
    pub exp: Option<u64>,
    pub iat: Option<u64>,
    pub role: Option<Seq<char>>,
}

/// The view of an optional string.
pub open spec fn text_of(s: Option<String>) -> Option<Seq<char>> {
    match s {
        Some(t) => Some(t@),
        None => None,
    }
}

impl View for RawClaims {
    type V = RawClaimsView;

    open spec fn view(&self) -> RawClaimsView {
        RawClaimsView {
            sub: text_of(self.sub),
            exp: self.exp,
            iat: self.iat,
            role: text_of(self.role),
        }
    }
}

/// Why the signing library could not hand out a token's payload.
#[derive(Clone, Copy, Debug, PartialEq, Eq, Structural)]
pub enum DecodeFailure {
    /// The text does not have the three parts of a token.
    InvalidToken,
    /// The signature does not match.
    InvalidSignature,
    /// The header names another algorithm than the one in use.
    InvalidAlgorithm,
    /// The payload carries no expiry.
    MissingClaim,
    /// A part is not base64 text.
    Base64,
    /// A part is not the JSON it should be.
    Json,
    /// Any other failure.
    Other,
}

/// What checking a token string against the secret yields.
pub enum Decoded {
    /// The signature verifies; the payload held these fields.
    Verified(RawClaims),
    /// The payload was not handed out, for this reason.
    Failed(DecodeFailure),
}

/// The mathematical content of [`Decoded`].
pub enum DecodedView {
    Verified(RawClaimsView),
    Failed(DecodeFailure),
}

impl View for Decoded {
    type V = DecodedView;

    open spec fn view(&self) -> DecodedView {
        match self {
            Decoded::Verified(raw) => DecodedView::Verified(raw@),
            Decoded::Failed(why) => DecodedView::Failed(*why),
        }
    }
}

/// The payload in which every field of `claims` is present.
pub open spec fn raw_of(claims: ClaimsView) -> RawClaimsView {
    RawClaimsView {
        sub: Some(claims.sub),
        exp: Some(claims.exp),
        iat: Some(claims.iat),
        role: Some(claims.role),
    }
}

/// The token string that `jsonwebtoken::encode` produces for the claims
/// under the secret.
pub uninterp spec fn jwt_encoding(claims: ClaimsView, secret: Seq<u8>) -> Seq<char>;

/// What `jsonwebtoken::decode` finds in a token string under the secret,
/// with expiry checking switched off.
pub uninterp spec fn jwt_decoding(token: Seq<char>, secret: Seq<u8>) -> DecodedView;

#[verifier::external_type_specification]
#[verifier::external_body]
pub struct ExJwtError(jsonwebtoken::errors::Error);

/// Calls `jsonwebtoken::encode` with the default header (HS256) on a JSON
/// object holding the four claims. The call serialises the header and the
/// object, and signs them with an HMAC keyed by the secret: nothing but the
/// arguments enters, so the result is the named encoding. None of these
/// steps can fail here: the key and the header are both of the HMAC family,
/// an HMAC takes a key of any length, and a JSON object of two strings and
/// two unsigned numbers always serialises. A token made this way carries a
/// signature that verifies under the same secret and a payload that reads
/// back as the same four values, which is what the named decoding of it is
/// stated to be.
#[verifier::external_body]
fn encode_signed(claims: &Claims, secret: &[u8]) -> (r: Result<String, jsonwebtoken::errors::Error>)
    ensures
        r is Ok,
        r matches Ok(t) ==> t@ == jwt_encoding(claims@, secret@),
        r matches Ok(t) ==> jwt_decoding(t@, secret@) == DecodedView::Verified(raw_of(claims@)),
{
    let mut payload = serde_json::Map::new();
    payload.insert("sub".to_string(), Value::from(claims.sub.as_str()));
    payload.insert("exp".to_string(), Value::from(claims.exp));
    payload.insert("iat".to_string(), Value::from(claims.iat));
    payload.insert("role".to_string(), Value::from(claims.role.as_str()));
    jsonwebtoken::encode(&Header::default(), &payload, &EncodingKey::from_secret(secret))
}

/// Calls `jsonwebtoken::decode` with the default validation, which is the
/// one for HS256, and with expiry checking switched off,
/// so that the call does not read the clock and its result depends on the
/// token and the secret alone. The payload is read as a JSON value and the
/// four claim fields are picked out of it. Of an error, the kind is handed
/// on; what each kind means to the library is decided by
/// [`claims_from_decoded`].
#[verifier::external_body]
fn decode_signed(token: &str, secret: &[u8]) -> (out: Decoded)
    ensures
        out@ == jwt_decoding(token@, secret@),
{
    let mut validation = Validation::default();
    validation.validate_exp = false;
    match decode::<Value>(token, &DecodingKey::from_secret(secret), &validation) {
        Ok(data) => Decoded::Verified(RawClaims { sub: data.claims["sub"].as_str().map(String::from), exp: data.claims["exp"].as_u64(),
            iat: data.claims["iat"].as_u64(), role: data.claims["role"].as_str().map(String::from) }),
        Err(e) => Decoded::Failed(match e.kind() {
            ErrorKind::InvalidToken => DecodeFailure::InvalidToken,
            ErrorKind::InvalidSignature => DecodeFailure::InvalidSignature,
            ErrorKind::InvalidAlgorithm => DecodeFailure::InvalidAlgorithm,
            ErrorKind::MissingRequiredClaim(_) => DecodeFailure::MissingClaim,
            ErrorKind::Base64(_) => DecodeFailure::Base64,
            ErrorKind::Json(_) => DecodeFailure::Json,
            _ => DecodeFailure::Other,
        }),
    }
}

/// What a failure of the signing library means for the token: only a
/// signature that does not match is a signature failure; everything else
/// makes the token malformed.
pub open spec fn reason_for(why: DecodeFailure) -> UnauthorizedReason {
    match why {
        DecodeFailure::InvalidSignature => UnauthorizedReason::SignatureInvalid,
        _ => UnauthorizedReason::Malformed,
    }
}

/// What a failure of the signing library means for the token.
pub fn reason_of(why: DecodeFailure) -> (reason: UnauthorizedReason)
    ensures
        reason == reason_for(why),
{
    match why {
        DecodeFailure::InvalidSignature => UnauthorizedReason::SignatureInvalid,
        _ => UnauthorizedReason::Malformed,
    }
}

/// Whether a payload holds all four claims.
pub open spec fn complete(raw: RawClaimsView) -> bool {
    raw.sub is Some && raw.exp is Some && raw.iat is Some && raw.role is Some
}

/// The claims of a complete payload.
pub open spec fn claims_of(raw: RawClaimsView) -> ClaimsView
    recommends
        complete(raw),
{
    ClaimsView { sub: raw.sub->0, exp: raw.exp->0, iat: raw.iat->0, role: raw.role->0 }
}

/// Whether a decoded token is accepted at time `now`, and as whom. A token
/// is expired once its expiry lies strictly before `now`.
pub open spec fn accept_decoded(decoded: DecodedView, now: u64) -> Result<
    ClaimsView,
    UnauthorizedReason,
> {
    match decoded {
        DecodedView::Failed(why) => Err(reason_for(why)),
        DecodedView::Verified(raw) => if !complete(raw) {
            Err(UnauthorizedReason::Malformed)
        } else if raw.exp->0 < now {
            Err(UnauthorizedReason::Expired)
        } else {
            Ok(claims_of(raw))
        },
    }
}

/// What [`parse_and_verify`] answers for a token, a secret and a time.
pub open spec fn parse_outcome(token: Seq<char>, secret: Seq<u8>, now: u64) -> Result<
    ClaimsView,
    UnauthorizedReason,
> {
    accept_decoded(jwt_decoding(token, secret), now)
}

/// Decides whether a decoded token is accepted at time `now`.
pub fn claims_from_decoded(decoded: Decoded, now: u64) -> (r: Result<Claims, UnauthorizedReason>)
    ensures
        match r {
            Ok(c) => accept_decoded(decoded@, now) == Ok::<ClaimsView, UnauthorizedReason>(c@),
            Err(e) => accept_decoded(decoded@, now) == Err::<ClaimsView, UnauthorizedReason>(e),
        },
{
    match decoded {
        Decoded::Failed(why) => Err(reason_of(why)),
        Decoded::Verified(raw) => {
            match (raw.sub, raw.exp, raw.iat, raw.role) {
                (Some(sub), Some(exp), Some(iat), Some(role)) => {
                    if exp < now {
                        Err(UnauthorizedReason::Expired)
                    } else {
                        Ok(Claims { sub, exp, iat, role })
                    }
                },
                _ => Err(UnauthorizedReason::Malformed),
            }
        },
    }
}

/// Parses a token string, checks its signature against the secret and its
/// expiry against `now`, and yields the claims it carries.
pub fn parse_and_verify(token: &str, secret: &[u8], now: u64) -> (r: Result<
    Claims,
    UnauthorizedReason,
>)
    ensures
        match r {
            Ok(c) => parse_outcome(token@, secret@, now) == Ok::<ClaimsView, UnauthorizedReason>(
                c@,
            ),
            Err(e) => parse_outcome(token@, secret@, now) == Err::<ClaimsView, UnauthorizedReason>(
                e,
            ),
        },
{
    claims_from_decoded(decode_signed(token, secret), now)
}

/// Turns the signing primitive's result into the library's own result.
pub fn token_from<E>(signed: Result<String, E>) -> (r: Result<String, AuthError>)
    ensures
        match signed {
            Ok(t) => r == Ok::<String, AuthError>(t),
            Err(_) => r == Err::<String, AuthError>(AuthError::Internal),
        },
{
    match signed {
        Ok(t) => Ok(t),
        Err(_) => Err(AuthError::Internal),
    }
}

/// Mints the token for `claims` under `secret`. Minting always succeeds.
///
/// The token is the named encoding of the claims, and it reads back: at any
/// time up to and including the expiry, parsing it under the same secret
/// yields the same claims; after the expiry it is reported as expired.
pub fn mint(claims: &Claims, secret: &[u8]) -> (r: Result<String, AuthError>)
    ensures
        r is Ok,
        r matches Ok(t) ==> t@ == jwt_encoding(claims@, secret@),
        r matches Ok(t) ==> jwt_decoding(t@, secret@) == DecodedView::Verified(raw_of(claims@)),
        r matches Ok(t) ==> forall|now: u64| #[trigger]
            parse_outcome(t@, secret@, now) == (if claims.exp < now {
                Err::<ClaimsView, UnauthorizedReason>(UnauthorizedReason::Expired)
            } else {
                Ok::<ClaimsView, UnauthorizedReason>(claims@)
            }),
{
    token_from(encode_signed(claims, secret))
}

/// Reading back what was written: a payload that holds exactly the fields of
/// `claims` is accepted as `claims` at every time up to the expiry, and
/// rejected as expired afterwards.
pub proof fn lemma_round_trip(claims: ClaimsView, now: u64)
    ensures
        accept_decoded(DecodedView::Verified(raw_of(claims)), now) == (if claims.exp < now {
            Err::<ClaimsView, UnauthorizedReason>(UnauthorizedReason::Expired)
        } else {
            Ok::<ClaimsView, UnauthorizedReason>(claims)
        }),
{
}

} // verus!
