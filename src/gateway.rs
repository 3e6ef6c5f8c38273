//! The gateway in front of every handler. It normalises the request path,
//! lets the allow-listed paths through untouched, and otherwise hands the
//! bearer token to the active token validator and turns its verdict into a
//! decision. Every failure ends in a rejection: the gateway fails closed.

use vstd::prelude::*;

use crate::model::Principal;
use crate::text::same_text;

verus! {

/// Why a request was turned away. All three answer the client with the same
/// status; the distinction is kept for the service's own log.
#[derive(Clone, Copy, Debug, PartialEq, Eq)]
pub enum AuthError {
    /// No bearer token where one is required.
    Unauthenticated,
    /// A token was presented and the validator rejected it.
    InvalidToken,
    /// The validator could not reach its backing store.
    InfrastructureFailure,
}

impl AuthError {
    /// The HTTP status the client sees: always 401, so that a probing client
    /// learns nothing of the store's health.
    pub fn status(&self) -> (r: u16)
        ensures
            r == 401,
    {
        401
    }
}

/// What a token validator says of a token.
#[derive(Clone, Debug, PartialEq, Eq)]
pub enum Verdict {
    /// The token is currently valid and denotes this principal.
    Valid(Principal),
    /// The token is unknown, malformed, forged or expired.
    Invalid,
    /// The backing store could not be consulted.
    StoreFailure,
}

/// What the gateway does with a request.
#[derive(Clone, Debug, PartialEq, Eq)]
pub enum Decision {
    /// The path is allow-listed: forward the request unchanged.
    Pass,
    /// Forward the request with this principal as its current user.
    Admit(Principal),
    /// Answer with a rejection; the request never reaches a handler.
    Deny(AuthError),
}

/// The non-empty segments of a path, each after a separator.
pub open spec fn slash_joined(segments: Seq<String>) -> Seq<char>
    decreases segments.len(),
{
    if segments.len() == 0 {
        Seq::empty()
    } else {
        let prev = slash_joined(segments.drop_last());
        if segments.last()@.len() == 0 {
            prev
        } else {
            prev + seq!['/'] + segments.last()@
        }
    }
}

/// A path in normal form: a single leading separator, no empty segments.
pub open spec fn normalized_path(segments: Seq<String>) -> Seq<char> {
    let joined = slash_joined(segments);
    if joined.len() == 0 {
        seq!['/']
    } else {
        joined
    }
}

/// The paths reachable without a token: the site root and the login
/// endpoint. They are matched as whole normalised paths, never as prefixes.
pub open spec fn allow_listed(path: Seq<char>) -> bool {
    path == "/"@ || path == "/api/auth/login"@
}

/// The decision that follows from a validator's verdict.
pub open spec fn decision_of(v: Verdict) -> Decision {
    match v {
        Verdict::Valid(p) => Decision::Admit(p),
        Verdict::Invalid => Decision::Deny(AuthError::InvalidToken),
        Verdict::StoreFailure => Decision::Deny(AuthError::InfrastructureFailure),
    }
}

/// Joins the segments of a request path into its normal form: one leading
/// separator, segments separated by one separator, empty segments dropped.
pub fn normalize_path(segments: &Vec<String>) -> (r: String)
    ensures
        r@ == normalized_path(segments@),
{
    let mut out = String::new();
    let mut i: usize = 0;
    while i < segments.len()
        invariant
            i <= segments.len(),
            out@ == slash_joined(segments@.subrange(0, i as int)),
        decreases segments.len() - i,
    {
        let seg = segments[i].as_str();
        let ghost before = segments@.subrange(0, i + 1);
        assert(before.drop_last() =~= segments@.subrange(0, i as int));
        assert(before.last() == segments@[i as int]);
        if !seg.is_empty() {
            proof {
                reveal_strlit("/");
            }
            out.append("/");
            out.append(seg);
            assert(out@ == slash_joined(before));
        } else {
            assert(out@ == slash_joined(before));
        }
        i = i + 1;
    }
    assert(segments@.subrange(0, segments@.len() as int) =~= segments@);
    if out.as_str().is_empty() {
        proof {
            reveal_strlit("/");
        }
        out.append("/");
    }
    out
}

/// Whether a normalised path may be reached without a token.
pub fn is_allow_listed(path: &str) -> (r: bool)
    ensures
        r == allow_listed(path@),
{
    same_text(path, "/") || same_text(path, "/api/auth/login")
}

/// Turns a validator's verdict into the gateway's decision: a valid token
/// admits its principal, anything else rejects.
pub fn decide(verdict: Verdict) -> (r: Decision)
    ensures
        r == decision_of(verdict),
{
    match verdict {
        Verdict::Valid(p) => Decision::Admit(p),
        Verdict::Invalid => Decision::Deny(AuthError::InvalidToken),
        Verdict::StoreFailure => Decision::Deny(AuthError::InfrastructureFailure),
    }
}

/// The authentication gateway. It holds no state: the allow-list is fixed,
/// and the token validator is handed in for each request.
#[derive(Clone, Copy, Debug)]
pub struct Bearer;

impl Bearer {
    /// Decides one request from its path segments and the bearer token of
    /// its `Authorization` header, if it has one. An allow-listed path
    /// passes untouched, whatever the token; elsewhere a missing token is
    /// rejected, and a present one is judged by `validate` exactly once.
    pub fn authorize<F: Fn(&str) -> Verdict>(
        &self,
        segments: &Vec<String>,
        token: Option<&str>,
        validate: F,
    ) -> (r: Decision)
        requires
            forall|t: &str| validate.requires((t,)),
        ensures
            allow_listed(normalized_path(segments@)) ==> r == Decision::Pass,
            !allow_listed(normalized_path(segments@)) && token is None ==> r == Decision::Deny(
                AuthError::Unauthenticated,
            ),
            !allow_listed(normalized_path(segments@)) && token is Some ==> exists|v: Verdict|
                validate.ensures((token->0,), v) && r == decision_of(v),
    {
        let path = normalize_path(segments);
        if is_allow_listed(path.as_str()) {
            return Decision::Pass;
        }
        match token {
            None => Decision::Deny(AuthError::Unauthenticated),
            Some(t) => {
                let verdict = validate(t);
                decide(verdict)
            },
        }
    }
}

/// What handlers know of a forwarded request: its current principal, if
/// the gateway resolved one. The gateway sets it once; afterwards it can only
/// be read.
#[derive(Clone, Debug, PartialEq, Eq)]
pub struct RequestContext {
    principal: Option<Principal>,
}

impl View for RequestContext {
    type V = Option<Principal>;

    closed spec fn view(&self) -> Option<Principal> {
        self.principal
    }
}

/// The context of a request that the gateway forwards under `d`; `None`
/// when it rejects the request.
pub open spec fn context_of(d: Decision) -> Option<Option<Principal>> {
    match d {
        Decision::Pass => Some(None),
        Decision::Admit(p) => Some(Some(p)),
        Decision::Deny(_) => None,
    }
}

impl RequestContext {
    /// The context that a decision gives a forwarded request: no principal
    /// on an allow-listed path, the admitted principal otherwise; `None`
    /// when the request is rejected and never reaches a handler.
    pub fn from_decision(d: Decision) -> (r: Option<RequestContext>)
        ensures
            match r {
                Some(ctx) => context_of(d) == Some(ctx@),
                None => context_of(d) is None,
            },
    {
        match d {
            Decision::Pass => Some(RequestContext { principal: None }),
            Decision::Admit(p) => Some(RequestContext { principal: Some(p) }),
            Decision::Deny(_) => None,
        }
    }

    /// The current principal of the request, if one was resolved.
    pub fn principal(&self) -> (r: Option<&Principal>)
        ensures
            match r {
                Some(p) => self@ == Some(*p),
                None => self@ is None,
            },
    {
        match &self.principal {
            Some(p) => Some(p),
            None => None,
        }
    }
}

} // verus!
