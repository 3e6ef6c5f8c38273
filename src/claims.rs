//! The signed-claims strategy. A token is a standard three-part signed web
//! token over a JSON payload that carries the claims; it is signed with one
//! symmetric secret and one HMAC algorithm (HS256), checked the same way at
//! issuance and at validation. Nothing is stored: a token is valid while its
//! signature verifies and its expiry lies after the time of the check.

use vstd::prelude::*;

use crate::gateway::{decision_of, Decision, Verdict};
use crate::model::{principal_of, Claims, Principal};

verus! {

#[verifier::external_type_specification]
#[verifier::external_body]
pub struct ExJwtError(jsonwebtoken::errors::Error);

/// The token that signing `payload` with `secret` yields; `None` where the
/// payload is not JSON.
pub uninterp spec fn signed_token(payload: Seq<char>, secret: Seq<u8>) -> Option<Seq<char>>;

/// The payload of `token` if its HS256 signature verifies under `secret`
/// and its payload is a JSON object; `None` otherwise.
pub uninterp spec fn token_payload(token: Seq<char>, secret: Seq<u8>) -> Option<Seq<char>>;

/// Relies on jsonwebtoken::encode with the default header (HS256), fed the
/// payload text as raw JSON through serde_json::value::RawValue::from_string:
/// the result is a function of the payload and the secret.
#[verifier::external_body]
fn encode_hs256(payload: &str, secret: &[u8]) -> (r: Result<String, jsonwebtoken::errors::Error>)
    ensures
        r is Ok <==> signed_token(payload@, secret@) is Some,
        r is Ok ==> signed_token(payload@, secret@) == Some(r->Ok_0@),
{
    let raw = serde_json::value::RawValue::from_string(payload.to_string())?;
    let key = jsonwebtoken::EncodingKey::from_secret(secret);
    jsonwebtoken::encode(&jsonwebtoken::Header::default(), &raw, &key)
}

/// Relies on jsonwebtoken::decode under HS256 with the time-dependent checks
/// switched off (expiry is judged by this library), returning the payload as
/// raw JSON text: the outcome is a function of the token and the secret.
#[verifier::external_body]
fn decode_hs256(token: &str, secret: &[u8]) -> (r: Result<String, jsonwebtoken::errors::Error>)
    ensures
        r is Ok <==> token_payload(token@, secret@) is Some,
        r is Ok ==> token_payload(token@, secret@) == Some(r->Ok_0@),
{
    let mut validation = jsonwebtoken::Validation::new(jsonwebtoken::Algorithm::HS256);
    validation.validate_exp = false;
    validation.validate_aud = false;
    validation.required_spec_claims.clear();
    let key = jsonwebtoken::DecodingKey::from_secret(secret);
    let data = jsonwebtoken::decode::<Box<serde_json::value::RawValue>>(token, &key, &validation)?;
    Ok(data.claims.get().to_string())
}

/// Relies on chrono::Utc::now and DateTime::timestamp: the current time in
/// whole seconds since the Unix epoch. Nothing is known of its value.
/// It panics only where the system clock reads a time before the epoch.
#[verifier::external_body]
pub(crate) fn now_timestamp() -> (r: i64) {
    chrono::Utc::now().timestamp()
}

/// How long an issued token stays valid: one week, in seconds.
pub const TOKEN_LIFETIME_SECS: i64 = 604800;

/// The claims issued for `p` at time `now`, if the expiry fits the clock's
/// range.
pub open spec fn issued_claims(p: Principal, now: int) -> Option<Claims> {
    if now + TOKEN_LIFETIME_SECS <= i64::MAX {
        Some(Claims { sub: p.user_id, name: p.name, exp: (now + TOKEN_LIFETIME_SECS) as i64 })
    } else {
        None
    }
}

/// What the claims strategy says of a token whose payload read as `parsed`
/// (`None`: the signature failed or the payload was not claims), checked at
/// time `now`. A token is valid strictly before its expiry.
pub open spec fn claims_verdict_at(parsed: Option<Claims>, now: int) -> Verdict {
    match parsed {
        Some(c) => if now < c.exp {
            Verdict::Valid(principal_of(c))
        } else {
            Verdict::Invalid
        },
        None => Verdict::Invalid,
    }
}

/// The claims to issue for `principal` at time `now`: subject and display
/// name from the principal, expiry one week later. `None` only where that
/// expiry would not fit in an `i64`.
pub fn claims_for(principal: Principal, now: i64) -> (r: Option<Claims>)
    ensures
        r == issued_claims(principal, now as int),
{
    if now <= i64::MAX - TOKEN_LIFETIME_SECS {
        Some(Claims { sub: principal.user_id, name: principal.name, exp: now + TOKEN_LIFETIME_SECS })
    } else {
        None
    }
}

/// Judges a token's claims at time `now`: valid, with the principal of the
/// claims, exactly when they were read and `now` lies before their expiry.
pub fn claims_verdict(parsed: Option<Claims>, now: i64) -> (r: Verdict)
    ensures
        r == claims_verdict_at(parsed, now as int),
{
    match parsed {
        Some(c) => if now < c.exp {
            Verdict::Valid(c.into_principal())
        } else {
            Verdict::Invalid
        },
        None => Verdict::Invalid,
    }
}

/// Judges a token's claims against the current time.
pub fn claims_verdict_now(parsed: Option<Claims>) -> (r: Verdict)
    ensures
        exists|now: i64| r == claims_verdict_at(parsed, now as int),
{
    let now = now_timestamp();
    claims_verdict(parsed, now)
}

/// The signing authority of the claims strategy: the one process-wide
/// secret, fixed when the authority is made.
pub struct SignedClaims {
    secret: Vec<u8>,
}

impl View for SignedClaims {
    type V = Seq<u8>;

    closed spec fn view(&self) -> Seq<u8> {
        self.secret@
    }
}

impl SignedClaims {
    /// An authority that signs and checks with `secret`.
    pub fn new(secret: Vec<u8>) -> (r: SignedClaims)
        ensures
            r@ == secret@,
    {
        SignedClaims { secret }
    }

    /// Signs a claims payload (JSON text); `None` where the payload is not
    /// JSON.
    pub fn sign(&self, payload: &str) -> (r: Option<String>)
        ensures
            r is Some <==> signed_token(payload@, self@) is Some,
            r is Some ==> signed_token(payload@, self@) == Some(r->Some_0@),
    {
        match encode_hs256(payload, self.secret.as_slice()) {
            Ok(t) => Some(t),
            Err(_) => None,
        }
    }

    /// The payload (JSON text) of `token` if its signature verifies under
    /// this authority's secret; `None` for a forged, tampered or malformed
    /// token.
    pub fn open(&self, token: &str) -> (r: Option<String>)
        ensures
            r is Some <==> token_payload(token@, self@) is Some,
            r is Some ==> token_payload(token@, self@) == Some(r->Some_0@),
    {
        match decode_hs256(token, self.secret.as_slice()) {
            Ok(p) => Some(p),
            Err(_) => None,
        }
    }
}

/// Validating the same claims twice, at two times before their expiry,
/// yields the same principal both times: the claims strategy keeps no state.
pub proof fn lemma_claims_validation_repeatable(c: Claims, first: int, second: int)
    requires
        first <= second < c.exp,
    ensures
        claims_verdict_at(Some(c), first) == claims_verdict_at(Some(c), second),
        claims_verdict_at(Some(c), second) == Verdict::Valid(principal_of(c)),
{
}

/// At the moment of the check, claims that expired one second ago are
/// invalid, claims that expire right now are invalid, and claims that
/// expire one second from now are valid.
pub proof fn lemma_expiry_boundary(c: Claims, now: int)
    ensures
        c.exp == now - 1 ==> claims_verdict_at(Some(c), now) == Verdict::Invalid,
        c.exp == now ==> claims_verdict_at(Some(c), now) == Verdict::Invalid,
        c.exp == now + 1 ==> claims_verdict_at(Some(c), now) == Verdict::Valid(principal_of(c)),
{
}

/// A request bearing claims that were issued for a principal, checked at
/// any time from issuance until before their expiry, is admitted with
/// exactly that principal.
pub proof fn lemma_issued_claims_admit(p: Principal, issued_at: int, checked_at: int)
    requires
        issued_claims(p, issued_at) is Some,
        issued_at <= checked_at < issued_at + TOKEN_LIFETIME_SECS,
    ensures
        decision_of(claims_verdict_at(issued_claims(p, issued_at), checked_at)) == Decision::Admit(
            p,
        ),
{
}

} // verus!
