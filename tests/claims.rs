use timelog::claims::{
    claims_for, claims_verdict, claims_verdict_now, SignedClaims, TOKEN_LIFETIME_SECS,
};
use timelog::gateway::Verdict;
use timelog::model::{Claims, Principal};

fn alice() -> Principal {
    Principal { user_id: 7, name: "alice".to_string() }
}

fn claims(exp: i64) -> Claims {
    Claims { sub: 7, name: "alice".to_string(), exp }
}

fn payload(c: &Claims) -> String {
    format!("{{\"sub\":{},\"name\":\"{}\",\"exp\":{}}}", c.sub, c.name, c.exp)
}

#[test]
fn issued_claims_expire_one_week_later() {
    assert_eq!(TOKEN_LIFETIME_SECS, 7 * 24 * 60 * 60);
    assert_eq!(claims_for(alice(), 1_000), Some(claims(1_000 + 604_800)));
}

#[test]
fn issuing_at_the_end_of_time_fails() {
    assert_eq!(claims_for(alice(), i64::MAX), None);
    assert_eq!(claims_for(alice(), i64::MAX - 604_800), Some(claims(i64::MAX)));
}

#[test]
fn expiry_boundary() {
    let now = 1_700_000_000;
    assert_eq!(claims_verdict(Some(claims(now - 1)), now), Verdict::Invalid);
    assert_eq!(claims_verdict(Some(claims(now)), now), Verdict::Invalid);
    assert_eq!(claims_verdict(Some(claims(now + 1)), now), Verdict::Valid(alice()));
}

#[test]
fn unreadable_claims_are_invalid() {
    assert_eq!(claims_verdict(None, 0), Verdict::Invalid);
}

#[test]
fn repeated_validation_yields_the_same_principal() {
    let c = claims(2_000);
    assert_eq!(claims_verdict(Some(c.clone()), 1_000), Verdict::Valid(alice()));
    assert_eq!(claims_verdict(Some(c), 1_500), Verdict::Valid(alice()));
}

#[test]
fn verdict_against_the_clock() {
    assert_eq!(claims_verdict_now(Some(claims(i64::MAX))), Verdict::Valid(alice()));
    assert_eq!(claims_verdict_now(Some(claims(0))), Verdict::Invalid);
}

#[test]
fn signed_payload_opens_to_itself() {
    let authority = SignedClaims::new(b"process secret".to_vec());
    let text = payload(&claims(1_234));
    let token = authority.sign(&text).expect("signing a JSON object succeeds");
    assert_ne!(token, text);
    assert_eq!(token.split('.').count(), 3);
    assert_eq!(authority.open(&token), Some(text));
}

#[test]
fn signing_is_deterministic() {
    let authority = SignedClaims::new(b"k".to_vec());
    let text = payload(&claims(5));
    assert_eq!(authority.sign(&text), authority.sign(&text));
}

#[test]
fn non_json_payload_is_not_signed() {
    let authority = SignedClaims::new(b"k".to_vec());
    assert_eq!(authority.sign("not json"), None);
}

#[test]
fn other_secret_does_not_open() {
    let issuer = SignedClaims::new(b"one".to_vec());
    let other = SignedClaims::new(b"two".to_vec());
    let token = issuer.sign(&payload(&claims(9))).unwrap();
    assert_eq!(other.open(&token), None);
}

#[test]
fn garbage_does_not_open() {
    let authority = SignedClaims::new(b"k".to_vec());
    assert_eq!(authority.open("garbage"), None);
    assert_eq!(authority.open(""), None);
    assert_eq!(authority.open("a.b.c"), None);
}

#[test]
fn flipping_any_signature_bit_invalidates() {
    let authority = SignedClaims::new(b"process secret".to_vec());
    let token = authority.sign(&payload(&claims(1_234))).unwrap();
    let start = token.rfind('.').unwrap() + 1;
    let bytes = token.as_bytes().to_vec();
    for i in start..bytes.len() {
        for bit in 0..7 {
            let mut changed = bytes.clone();
            changed[i] ^= 1 << bit;
            let forged = String::from_utf8(changed).unwrap();
            assert_eq!(authority.open(&forged), None, "position {} bit {}", i, bit);
        }
    }
}
