//! Credential checks at login. Stored passwords are scrypt hashes in the
//! `$rscrypt$<format>$<parameters>$<salt>$<digest>$` form, compact (format
//! 0) or expanded (format 1). A hash is only handed to scrypt when it is
//! well formed and its parameters stay within the cost limits below;
//! anything else is a mismatch.

use vstd::prelude::*;

use crate::claims::{claims_verdict_at, issued_claims, TOKEN_LIFETIME_SECS};
use crate::gateway::{decision_of, Decision};
use crate::model::{Claims, Principal, User};
use crate::session::user_principal;
use crate::text::same_text;

verus! {

/// The segments of a text between `$` separators: `n` separators give
/// `n + 1` segments, empty ones included.
pub open spec fn split_dollar(s: Seq<char>) -> Seq<Seq<char>>
    decreases s.len(),
{
    if s.len() == 0 {
        seq![Seq::empty()]
    } else {
        let prev = split_dollar(s.drop_last());
        if s.last() == '$' {
            prev.push(Seq::empty())
        } else {
            prev.update(prev.len() - 1, prev.last().push(s.last()))
        }
    }
}

proof fn lemma_split_nonempty(s: Seq<char>)
    ensures
        split_dollar(s).len() >= 1,
    decreases s.len(),
{
    if s.len() > 0 {
        lemma_split_nonempty(s.drop_last());
    }
}

/// The views of a sequence of strings.
pub open spec fn views(v: Seq<String>) -> Seq<Seq<char>> {
    v.map_values(|x: String| x@)
}

/// Splits a text at every `$`.
pub fn split_at_dollars(text: &str) -> (r: Vec<String>)
    ensures
        views(r@) == split_dollar(text@),
{
    let n = text.unicode_len();
    let mut parts: Vec<String> = Vec::new();
    let mut start: usize = 0;
    let mut i: usize = 0;
    assert(text@.subrange(0, 0) =~= Seq::<char>::empty());
    assert(views(parts@) =~= Seq::<Seq<char>>::empty());
    assert(views(parts@).push(Seq::<char>::empty()) =~= seq![Seq::<char>::empty()]);
    assert(split_dollar(text@.subrange(0, 0)) == seq![Seq::<char>::empty()]);
    while i < n
        invariant
            n == text@.len(),
            start <= i <= n,
            views(parts@).push(text@.subrange(start as int, i as int)) == split_dollar(
                text@.subrange(0, i as int),
            ),
        decreases n - i,
    {
        let ghost prefix = text@.subrange(0, i + 1);
        assert(prefix.drop_last() =~= text@.subrange(0, i as int));
        assert(prefix.last() == text@[i as int]);
        let ghost old_views = views(parts@);
        let ghost old_start = start;
        let c = text.get_char(i);
        if c == '$' {
            let part = text.substring_char(start, i).to_owned();
            parts.push(part);
            start = i + 1;
            assert(views(parts@) =~= old_views.push(text@.subrange(old_start as int, i as int)));
            assert(text@.subrange(start as int, i + 1) =~= Seq::<char>::empty());
        } else {
            assert(text@.subrange(start as int, i + 1) =~= text@.subrange(start as int, i as int).push(
                c,
            ));
            assert(views(parts@).push(text@.subrange(start as int, i + 1)) =~= views(parts@).push(
                text@.subrange(start as int, i as int),
            ).update(views(parts@).len() as int, text@.subrange(start as int, i as int).push(c)));
        }
        i = i + 1;
    }
    assert(text@.subrange(0, n as int) =~= text@);
    let ghost before = views(parts@);
    parts.push(text.substring_char(start, n).to_owned());
    assert(views(parts@) =~= before.push(text@.subrange(start as int, n as int)));
    parts
}

/// Whether a character is a base64 digit, of the standard or the URL-safe
/// alphabet.
pub open spec fn b64_char(c: char) -> bool {
    ('A' <= c && c <= 'Z') || ('a' <= c && c <= 'z') || ('0' <= c && c <= '9') || c == '+' || c
        == '-' || c == '/' || c == '_'
}

/// The six-bit value of a base64 character.
pub open spec fn b64_code(c: char) -> u8 {
    if 'A' <= c && c <= 'Z' {
        (c as int - 65) as u8
    } else if 'a' <= c && c <= 'z' {
        (c as int - 71) as u8
    } else if '0' <= c && c <= '9' {
        (c as int + 4) as u8
    } else if c == '+' || c == '-' {
        62
    } else {
        63
    }
}

/// Reads base64 text as the stored hashes are read: line breaks are
/// skipped, the first `=` ends the data, after it only `=` and line breaks
/// may follow. The result holds the six-bit codes read, whether an `=` was
/// met, and whether the text was rejected.
pub open spec fn b64_scan(s: Seq<char>) -> (Seq<u8>, bool, bool)
    decreases s.len(),
{
    if s.len() == 0 {
        (Seq::empty(), false, false)
    } else {
        let (codes, padded, bad) = b64_scan(s.drop_last());
        let c = s.last();
        if bad {
            (codes, padded, true)
        } else if padded {
            (codes, true, !(c == '=' || c == '\r' || c == '\n'))
        } else if c == '\r' || c == '\n' {
            (codes, false, false)
        } else if c == '=' {
            (codes, true, false)
        } else if b64_char(c) {
            (codes.push(b64_code(c)), false, false)
        } else {
            (codes, false, true)
        }
    }
}

/// The six-bit codes of base64 text, or `None` when it is rejected.
pub open spec fn b64_codes(s: Seq<char>) -> Option<Seq<u8>> {
    let (codes, _, bad) = b64_scan(s);
    if bad {
        None
    } else {
        Some(codes)
    }
}

/// The three bytes that four codes from position `k` decode to.
pub open spec fn group_bytes(c: Seq<u8>, k: int) -> Seq<int> {
    seq![
        c[k] * 4 + c[k + 1] / 16,
        (c[k + 1] % 16) * 16 + c[k + 2] / 4,
        (c[k + 2] % 4) * 64 + c[k + 3],
    ]
}

/// The little-endian 32-bit number in four bytes from position `i`.
pub open spec fn le32(b: Seq<int>, i: int) -> int {
    b[i] + b[i + 1] * 256 + b[i + 2] * 65536 + b[i + 3] * 16777216
}

/// The scrypt parameters (log2 N, r, p) that a hash's format and parameter
/// codes give: three bytes in the compact format, one byte and two
/// little-endian 32-bit numbers in the expanded one.
pub open spec fn scrypt_params(format: Seq<char>, codes: Seq<u8>) -> Option<(int, int, int)> {
    if format == "0"@ && codes.len() == 4 {
        let b = group_bytes(codes, 0);
        Some((b[0], b[1], b[2]))
    } else if format == "1"@ && codes.len() == 12 {
        let b = group_bytes(codes, 0) + group_bytes(codes, 4) + group_bytes(codes, 8);
        Some((b[0], le32(b, 1), le32(b, 5)))
    } else {
        None
    }
}

/// Two to the power `e`.
pub open spec fn pow2(e: nat) -> nat
    decreases e,
{
    if e == 0 {
        1
    } else {
        2 * pow2((e - 1) as nat)
    }
}

proof fn lemma_pow2_grows(a: nat, b: nat)
    requires
        a <= b,
    ensures
        pow2(a) <= pow2(b),
        pow2(a) >= 1,
    decreases b,
{
    if a < b {
        lemma_pow2_grows(a, (b - 1) as nat);
    } else if a > 0 {
        lemma_pow2_grows((a - 1) as nat, (a - 1) as nat);
    }
}

/// The most memory, in bytes, that checking a password may take.
pub const SCRYPT_MEMORY_LIMIT: u64 = 1073741824;

/// The most mixing work, in bytes mixed, that checking a password may take.
pub const SCRYPT_WORK_LIMIT: u64 = 17179869184;

/// Whether scrypt accepts parameters (log2 N, r, p) and they stay within
/// the cost limits: positive, log2 N below 64 and below 16 r, r p below
/// 2^30, the block sizes free of overflow, and memory and work bounded.
pub open spec fn params_ok(log_n: int, r: int, p: int) -> bool {
    &&& 0 < log_n < 64
    &&& 0 < r
    &&& 0 < p
    &&& r * 128 * pow2(log_n as nat) < 0x1_0000_0000_0000_0000
    &&& r * 128 * p < 0x1_0000_0000_0000_0000
    &&& log_n < r * 16
    &&& r * p < 0x4000_0000
    &&& pow2(log_n as nat) * (r * 128) <= SCRYPT_MEMORY_LIMIT
    &&& p * (r * 128) <= SCRYPT_MEMORY_LIMIT
    &&& p * (pow2(log_n as nat) * (r * 128)) <= SCRYPT_WORK_LIMIT
}

/// Whether a stored hash may be handed to scrypt: six `$` separators with
/// nothing before the first or after the last, the `rscrypt` tag, a format
/// whose parameter segment decodes to acceptable parameters, and a digest
/// segment that does not decode to nothing.
pub open spec fn admissible_hash(h: Seq<char>) -> bool {
    let parts = split_dollar(h);
    &&& h.len() <= u32::MAX
    &&& parts.len() == 7
    &&& parts[0].len() == 0
    &&& parts[1] == "rscrypt"@
    &&& parts[6].len() == 0
    &&& match b64_codes(parts[3]) {
        Some(codes) => match scrypt_params(parts[2], codes) {
            Some(t) => params_ok(t.0, t.1, t.2),
            None => false,
        },
        None => false,
    }
    &&& b64_codes(parts[5]) != Some(Seq::<u8>::empty())
}

/// The six-bit value of a base64 character.
fn code_of(c: char) -> (r: u8)
    requires
        b64_char(c),
    ensures
        r == b64_code(c),
        r < 64,
{
    if 'A' <= c && c <= 'Z' {
        (c as u32 - 65) as u8
    } else if 'a' <= c && c <= 'z' {
        (c as u32 - 71) as u8
    } else if '0' <= c && c <= '9' {
        (c as u32 + 4) as u8
    } else if c == '+' || c == '-' {
        62
    } else {
        63
    }
}

/// Whether a character is a base64 digit, of the standard or the URL-safe
/// alphabet.
pub fn is_b64_char(c: char) -> (r: bool)
    ensures
        r == b64_char(c),
{
    ('A' <= c && c <= 'Z') || ('a' <= c && c <= 'z') || ('0' <= c && c <= '9') || c == '+' || c
        == '-' || c == '/' || c == '_'
}

/// The six-bit codes of base64 text; `None` when it is rejected.
pub fn scan_b64(text: &str) -> (r: Option<Vec<u8>>)
    ensures
        match r {
            Some(v) => b64_codes(text@) == Some(v@) && forall|k: int| 0 <= k < v@.len() ==> v@[k] < 64,
            None => b64_codes(text@) is None,
        },
{
    let n = text.unicode_len();
    let mut codes: Vec<u8> = Vec::new();
    let mut padded = false;
    let mut bad = false;
    let mut i: usize = 0;
    while i < n
        invariant
            n == text@.len(),
            i <= n,
            b64_scan(text@.subrange(0, i as int)) == (codes@, padded, bad),
            forall|k: int| 0 <= k < codes@.len() ==> codes@[k] < 64,
        decreases n - i,
    {
        let ghost prefix = text@.subrange(0, i + 1);
        assert(prefix.drop_last() =~= text@.subrange(0, i as int));
        assert(prefix.last() == text@[i as int]);
        let c = text.get_char(i);
        if bad {
        } else if padded {
            bad = !(c == '=' || c == '\r' || c == '\n');
        } else if c == '\r' || c == '\n' {
        } else if c == '=' {
            padded = true;
        } else if is_b64_char(c) {
            codes.push(code_of(c));
        } else {
            bad = true;
        }
        i = i + 1;
    }
    assert(text@.subrange(0, n as int) =~= text@);
    if bad {
        None
    } else {
        Some(codes)
    }
}

/// The three bytes that four codes from position `k` decode to.
fn group_at(codes: &Vec<u8>, k: usize) -> (r: (u8, u8, u8))
    requires
        k + 3 < codes.len(),
        forall|j: int| 0 <= j < codes@.len() ==> codes@[j] < 64,
    ensures
        r.0 as int == group_bytes(codes@, k as int)[0],
        r.1 as int == group_bytes(codes@, k as int)[1],
        r.2 as int == group_bytes(codes@, k as int)[2],
{
    let c0 = codes[k];
    let c1 = codes[k + 1];
    let c2 = codes[k + 2];
    let c3 = codes[k + 3];
    (c0 * 4 + c1 / 16, (c1 % 16) * 16 + c2 / 4, (c2 % 4) * 64 + c3)
}

/// The little-endian 32-bit number of four bytes.
fn le32_of(b0: u8, b1: u8, b2: u8, b3: u8) -> (r: u32)
    ensures
        r as int == b0 + b1 * 256 + b2 * 65536 + b3 * 16777216,
{
    b0 as u32 + b1 as u32 * 256 + b2 as u32 * 65536 + b3 as u32 * 16777216
}

/// The scrypt parameters that a hash's format and parameter codes give.
pub fn read_params(format: &str, codes: &Vec<u8>) -> (r: Option<(u8, u32, u32)>)
    requires
        forall|j: int| 0 <= j < codes@.len() ==> codes@[j] < 64,
    ensures
        match r {
            Some(t) => scrypt_params(format@, codes@) == Some((t.0 as int, t.1 as int, t.2 as int)),
            None => scrypt_params(format@, codes@) is None,
        },
{
    if same_text(format, "0") && codes.len() == 4 {
        let g = group_at(codes, 0);
        Some((g.0, g.1 as u32, g.2 as u32))
    } else if same_text(format, "1") && codes.len() == 12 {
        let g0 = group_at(codes, 0);
        let g1 = group_at(codes, 4);
        let g2 = group_at(codes, 8);
        let ghost b = group_bytes(codes@, 0) + group_bytes(codes@, 4) + group_bytes(codes@, 8);
        assert(b[0] == g0.0 && b[1] == g0.1 && b[2] == g0.2 && b[3] == g1.0 && b[4] == g1.1 && b[5]
            == g1.2 && b[6] == g2.0 && b[7] == g2.1 && b[8] == g2.2);
        Some((g0.0, le32_of(g0.1, g0.2, g1.0, g1.1), le32_of(g1.2, g2.0, g2.1, g2.2)))
    } else {
        None
    }
}

/// Whether scrypt accepts parameters and they stay within the cost limits.
pub fn check_params(log_n: u8, r: u32, p: u32) -> (ok: bool)
    ensures
        ok == params_ok(log_n as int, r as int, p as int),
{
    if log_n == 0 || log_n >= 64 || r == 0 || p == 0 {
        return false;
    }
    proof {
        lemma_pow2_grows(0, log_n as nat);
    }
    let r128: u64 = r as u64 * 128;
    if r128 > SCRYPT_MEMORY_LIMIT {
        assert(pow2(log_n as nat) * (r * 128) >= r * 128) by (nonlinear_arith)
            requires
                pow2(log_n as nat) >= 1,
                r >= 0,
        ;
        return false;
    }
    assert(p * r128 <= 0xffff_ffff * SCRYPT_MEMORY_LIMIT) by (nonlinear_arith)
        requires
            p <= 0xffff_ffff,
            r128 <= SCRYPT_MEMORY_LIMIT,
    ;
    let pr: u64 = p as u64 * r128;
    if pr > SCRYPT_MEMORY_LIMIT {
        return false;
    }
    let mut n: u64 = 1;
    let mut i: u8 = 0;
    while i < log_n
        invariant
            i <= log_n < 64,
            n == pow2(i as nat),
            n * r128 <= SCRYPT_MEMORY_LIMIT,
            r128 == r * 128,
            r128 >= 128,
        decreases log_n - i,
    {
        assert(n * r128 <= SCRYPT_MEMORY_LIMIT ==> n <= SCRYPT_MEMORY_LIMIT) by (nonlinear_arith)
            requires
                r128 >= 128,
        ;
        assert(n * 2 * r128 == 2 * (n * r128)) by (nonlinear_arith);
        if n * 2 * r128 > SCRYPT_MEMORY_LIMIT {
            proof {
                lemma_pow2_grows((i + 1) as nat, log_n as nat);
                assert(pow2((i + 1) as nat) == 2 * n);
                assert(pow2(log_n as nat) * (r * 128) >= (n * 2) * r128) by (nonlinear_arith)
                    requires
                        pow2(log_n as nat) >= n * 2,
                        r128 == r * 128,
                        r128 >= 0,
                ;
            }
            return false;
        }
        n = n * 2;
        i = i + 1;
    }
    let nr: u64 = n * r128;
    assert(p * nr <= 0xffff_ffff * SCRYPT_MEMORY_LIMIT) by (nonlinear_arith)
        requires
            p <= 0xffff_ffff,
            nr <= SCRYPT_MEMORY_LIMIT,
    ;
    if p as u64 * nr > SCRYPT_WORK_LIMIT {
        return false;
    }
    if log_n as u64 >= r as u64 * 16 {
        return false;
    }
    assert(r * p <= 0xffff_ffff * 0xffff_ffff) by (nonlinear_arith)
        requires
            r <= 0xffff_ffff,
            p <= 0xffff_ffff,
    ;
    if r as u64 * p as u64 >= 0x4000_0000 {
        return false;
    }
    assert(r * 128 * p == p * r128) by (nonlinear_arith)
        requires
            r128 == r * 128,
    ;
    assert(r * 128 * pow2(log_n as nat) == nr) by (nonlinear_arith)
        requires
            r128 == r * 128,
            nr == n * r128,
            n == pow2(log_n as nat),
    ;
    true
}

/// Whether a stored hash may be handed to scrypt.
pub fn is_admissible_hash(hash: &str) -> (r: bool)
    ensures
        r == admissible_hash(hash@),
{
    proof {
        reveal_strlit("rscrypt");
    }
    let n = hash.unicode_len();
    if n > u32::MAX as usize {
        return false;
    }
    let parts = split_at_dollars(hash);
    let ghost pv = split_dollar(hash@);
    if parts.len() != 7 {
        return false;
    }
    assert(forall|k: int| 0 <= k < 7 ==> pv[k] == parts@[k]@);
    if !parts[0].as_str().is_empty() || !same_text(parts[1].as_str(), "rscrypt")
        || !parts[6].as_str().is_empty() {
        return false;
    }
    let codes = match scan_b64(parts[3].as_str()) {
        Some(c) => c,
        None => {
            return false;
        },
    };
    let params = match read_params(parts[2].as_str(), &codes) {
        Some(t) => t,
        None => {
            return false;
        },
    };
    if !check_params(params.0, params.1, params.2) {
        return false;
    }
    match scan_b64(parts[5].as_str()) {
        Some(d) => {
            assert(d@.len() == 0 ==> d@ =~= Seq::<u8>::empty());
            d.len() != 0
        },
        None => true,
    }
}

/// What scrypt_check makes of a password and a stored hash: `Some(true)`
/// when they match, `Some(false)` when not, `None` when the hash cannot be
/// read.
pub uninterp spec fn scrypt_outcome(password: Seq<char>, hash: Seq<char>) -> Option<bool>;

/// Relies on crypto::scrypt::scrypt_check (rust-crypto): it splits the hash
/// at `$`, reads format, parameters, salt and digest, hashes the password
/// with them and compares in fixed time; an unreadable hash is an error. It
/// panics on parameters that ScryptParams::new refuses and on a digest that
/// decodes to nothing, and runs without bound on huge parameters; an
/// admissible hash has none of these.
#[verifier::external_body]
fn scrypt_check(password: &str, hash: &str) -> (r: Result<bool, &'static str>)
    requires
        admissible_hash(hash@),
    ensures
        r is Ok <==> scrypt_outcome(password@, hash@) is Some,
        r is Ok ==> scrypt_outcome(password@, hash@) == Some(r->Ok_0),
{
    crypto::scrypt::scrypt_check(password, hash)
}

/// Whether a submitted password matches a stored hash: the hash is
/// admissible and scrypt finds the password matching.
pub open spec fn password_accepted(password: Seq<char>, hash: Seq<char>) -> bool {
    admissible_hash(hash) && scrypt_outcome(password, hash) == Some(true)
}

/// Checks a submitted password against a stored hash. A hash that is not
/// admissible, or that scrypt cannot read, is a mismatch; nothing here
/// fails or panics on malformed input.
pub fn verify_password(password: &str, hash: &str) -> (r: bool)
    ensures
        r == password_accepted(password@, hash@),
{
    if !is_admissible_hash(hash) {
        return false;
    }
    match scrypt_check(password, hash) {
        Ok(matched) => matched,
        Err(_) => false,
    }
}

/// Why a login failed.
#[derive(Clone, Copy, Debug, PartialEq, Eq)]
pub enum LoginError {
    /// Unknown user name or wrong password; which of the two is not said.
    CredentialMismatch,
    /// The token could not be issued.
    InfrastructureFailure,
}

impl LoginError {
    /// The HTTP status of the failure: 401 for a credential mismatch, 500
    /// otherwise.
    pub fn status(&self) -> (r: u16)
        ensures
            *self == LoginError::CredentialMismatch ==> r == 401,
            *self == LoginError::InfrastructureFailure ==> r == 500,
    {
        match self {
            LoginError::CredentialMismatch => 401,
            LoginError::InfrastructureFailure => 500,
        }
    }
}

/// The outcome of a login at time `now`, given the stored user found under
/// the submitted name (`None` when there is none) and whether the submitted
/// password matched that user's hash.
pub open spec fn login_outcome(user: Option<User>, accepted: bool, now: int) -> Result<
    Claims,
    LoginError,
> {
    match user {
        None => Err(LoginError::CredentialMismatch),
        Some(u) => if !accepted {
            Err(LoginError::CredentialMismatch)
        } else {
            match issued_claims(user_principal(u), now) {
                Some(c) => Ok(c),
                None => Err(LoginError::InfrastructureFailure),
            }
        },
    }
}

/// Decides a login at time `now` once the password has been checked: a
/// found user whose password matched gets the claims of a token valid for
/// one week from `now`; an unknown user or a wrong password is a credential
/// mismatch, and the two are not told apart.
pub fn login_decision(user: Option<User>, accepted: bool, now: i64) -> (r: Result<Claims, LoginError>)
    ensures
        r == login_outcome(user, accepted, now as int),
{
    match user {
        None => Err(LoginError::CredentialMismatch),
        Some(u) => {
            if !accepted {
                return Err(LoginError::CredentialMismatch);
            }
            let principal = Principal { user_id: u.id, name: u.name };
            match crate::claims::claims_for(principal, now) {
                Some(c) => Ok(c),
                None => Err(LoginError::InfrastructureFailure),
            }
        },
    }
}

/// Whether the submitted password matches the found user's stored hash
/// (never, when no user was found).
pub open spec fn user_accepts(user: Option<User>, password: Seq<char>) -> bool {
    match user {
        Some(u) => password_accepted(password, u.password@),
        None => false,
    }
}

/// Logs a user in at time `now`: checks the submitted password against the
/// stored hash of the user found under the submitted name, then decides.
pub fn login(user: Option<User>, password: &str, now: i64) -> (r: Result<Claims, LoginError>)
    ensures
        r == login_outcome(user, user_accepts(user, password@), now as int),
{
    let accepted = match &user {
        Some(u) => verify_password(password, u.password.as_str()),
        None => false,
    };
    login_decision(user, accepted, now)
}

/// Logs a user in at the current time.
pub fn login_now(user: Option<User>, password: &str) -> (r: Result<Claims, LoginError>)
    ensures
        exists|now: i64| r == login_outcome(user, user_accepts(user, password@), now as int),
{
    let now = crate::claims::now_timestamp();
    login(user, password, now)
}

/// A user who logs in with a matching password receives claims that the
/// gateway admits, as exactly that user, at any time from the login until
/// before the expiry a week later. The only premise beyond the match is
/// that the expiry fits the clock's range.
pub proof fn lemma_login_claims_admit(u: User, password: Seq<char>, now: int, checked_at: int)
    requires
        password_accepted(password, u.password@),
        now + TOKEN_LIFETIME_SECS <= i64::MAX,
        now <= checked_at < now + TOKEN_LIFETIME_SECS,
    ensures
        login_outcome(Some(u), user_accepts(Some(u), password), now) is Ok,
        decision_of(
            claims_verdict_at(
                Some(login_outcome(Some(u), user_accepts(Some(u), password), now)->Ok_0),
                checked_at,
            ),
        ) == Decision::Admit(user_principal(u)),
{
}

} // verus!
