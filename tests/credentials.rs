use timelog::credentials::{
    check_params, is_admissible_hash, login, login_decision, login_now, read_params, scan_b64,
    split_at_dollars, verify_password, LoginError,
};
use timelog::model::{Claims, User};

const ALICE_HASH: &str =
    "$rscrypt$0$EAgB$AAECAwQFBgcICQoLDA0ODw==$xEnThjdnhVobsJOEMqsBrepx5AvsohJ9uiJu4WRITMk=$";

fn alice() -> User {
    User { id: 7, name: "alice".to_string(), password: ALICE_HASH.to_string() }
}

const HATTER_COMPACT: &str =
    "$rscrypt$0$CggC$c2FsdHNhbHRzYWx0c2FsdA==$hQxDkOCfFW7dU9jpVRY0EEiqN8ywTWMBZz+EbNmTwRA=$";
const HATTER_EXPANDED: &str =
    "$rscrypt$1$DAQAAAABAAAA$c2FsdHNhbHRzYWx0c2FsdA==$LpDG6BDHquXWZTsSKd9lrulbWohWbXE1Pt3GCbG4+JI=$";

#[test]
fn admissible_hash_format() {
    assert!(is_admissible_hash(ALICE_HASH));
    assert!(is_admissible_hash(HATTER_COMPACT));
    assert!(is_admissible_hash(HATTER_EXPANDED));
    assert!(is_admissible_hash("$rscrypt$0$EAgB$salt$ab$"));
    assert!(is_admissible_hash("$rscrypt$0$EAgB$salt$a$"));
    assert!(!is_admissible_hash("$rscrypt$0$EAgB$salt$$"));
    assert!(!is_admissible_hash("$rscrypt$0$EAgB$salt$==$"));
    assert!(!is_admissible_hash("$rscrypt$0$EAgB$salt$ab"));
    assert!(!is_admissible_hash("$rscrypt$0$EAgB$salt$ab$x"));
    assert!(!is_admissible_hash("$rscrypt$2$EAgB$salt$ab$"));
    assert!(!is_admissible_hash("$rscrypt$1$EAgB$salt$ab$"));
    assert!(!is_admissible_hash("x$rscrypt$0$EAgB$salt$ab$"));
    assert!(!is_admissible_hash("garbage"));
    assert!(!is_admissible_hash(""));
}

#[test]
fn parameters_that_scrypt_refuses_are_not_admissible() {
    // log2 N of zero, r of zero, log2 N not below 16 r
    assert!(!is_admissible_hash("$rscrypt$0$AAgB$salt$ab$"));
    assert!(!is_admissible_hash("$rscrypt$0$EAAB$salt$ab$"));
    assert!(!is_admissible_hash("$rscrypt$0$EAEB$salt$ab$"));
    // r p not below 2^30
    assert!(!is_admissible_hash("$rscrypt$1$AQAAEAAAEAAA$salt$ab$"));
    // memory beyond the limit
    assert!(!is_admissible_hash("$rscrypt$0$HggB$salt$ab$"));
}

#[test]
fn split_keeps_empty_segments() {
    assert_eq!(split_at_dollars("$a$$b$"), vec!["", "a", "", "b", ""]);
    assert_eq!(split_at_dollars(""), vec![""]);
    assert_eq!(split_at_dollars("abc"), vec!["abc"]);
}

#[test]
fn base64_scan() {
    assert_eq!(scan_b64("EAgB"), Some(vec![4, 0, 32, 1]));
    assert_eq!(scan_b64("-_+/"), Some(vec![62, 63, 62, 63]));
    assert_eq!(scan_b64("E\r\nA=="), Some(vec![4, 0]));
    assert_eq!(scan_b64("EA=x"), None);
    assert_eq!(scan_b64("E*"), None);
    assert_eq!(scan_b64(""), Some(vec![]));
}

#[test]
fn parameters_read_from_codes() {
    assert_eq!(read_params("0", &vec![4, 0, 32, 1]), Some((16, 8, 1)));
    assert_eq!(read_params("0", &vec![4, 0, 32]), None);
    assert_eq!(read_params("2", &vec![4, 0, 32, 1]), None);
    let codes = scan_b64("DAQAAAABAAAA").unwrap();
    assert_eq!(read_params("1", &codes), Some((12, 4, 1)));
    let codes = scan_b64("AQAAEAAAEAAA").unwrap();
    assert_eq!(read_params("1", &codes), Some((1, 1 << 20, 1 << 12)));
}

#[test]
fn parameter_checks() {
    assert!(check_params(16, 8, 1));
    assert!(check_params(1, 1, 1));
    assert!(!check_params(0, 8, 1));
    assert!(!check_params(16, 0, 1));
    assert!(!check_params(16, 8, 0));
    assert!(!check_params(16, 1, 1));
    assert!(!check_params(64, 8, 1));
    assert!(check_params(20, 8, 1));
    assert!(!check_params(21, 8, 1));
    assert!(check_params(17, 8, 128));
    assert!(!check_params(17, 8, 129));
    assert!(!check_params(1, 1 << 20, 1 << 12));
}

#[test]
fn correct_password_matches_other_parameters() {
    assert!(verify_password("hatter", HATTER_COMPACT));
    assert!(!verify_password("march hare", HATTER_COMPACT));
}

#[test]
fn correct_password_matches_expanded_format() {
    assert!(verify_password("hatter", HATTER_EXPANDED));
    assert!(!verify_password("march hare", HATTER_EXPANDED));
}

#[test]
fn correct_password_matches() {
    assert!(verify_password("wonderland", ALICE_HASH));
}

#[test]
fn wrong_password_does_not_match() {
    assert!(!verify_password("looking-glass", ALICE_HASH));
}

#[test]
fn malformed_hash_is_a_mismatch() {
    assert!(!verify_password("wonderland", "garbage"));
    assert!(!verify_password("wonderland", "$rscrypt$0$EAgB$salt$$"));
    assert!(!verify_password("wonderland", "$rscrypt$0$EAgB$s*lt$AAAA$"));
    assert!(!verify_password("wonderland", "$rscrypt$0$EAgB$AAAA$AAAA$extra"));
    assert!(!verify_password("wonderland", "$rscrypt$0$AAAA$AAAA$AAAA$"));
    assert!(!verify_password("wonderland", "$rscrypt$0$AAgB$AAAA$AAAA$"));
}

#[test]
fn login_of_unknown_user_is_a_mismatch() {
    assert_eq!(login(None, "wonderland", 0), Err(LoginError::CredentialMismatch));
}

#[test]
fn login_with_wrong_password_is_a_mismatch() {
    assert_eq!(login(Some(alice()), "looking-glass", 0), Err(LoginError::CredentialMismatch));
}

#[test]
fn login_issues_week_long_claims() {
    let now = 1_700_000_000;
    assert_eq!(
        login(Some(alice()), "wonderland", now),
        Ok(Claims { sub: 7, name: "alice".to_string(), exp: now + 604_800 })
    );
}

#[test]
fn login_at_the_end_of_time_is_an_infrastructure_failure() {
    assert_eq!(login(Some(alice()), "wonderland", i64::MAX), Err(LoginError::InfrastructureFailure));
}

#[test]
fn login_error_statuses() {
    assert_eq!(LoginError::CredentialMismatch.status(), 401);
    assert_eq!(LoginError::InfrastructureFailure.status(), 500);
}

#[test]
fn login_decision_after_the_password_check() {
    assert_eq!(login_decision(None, true, 5), Err(LoginError::CredentialMismatch));
    assert_eq!(login_decision(Some(alice()), false, 5), Err(LoginError::CredentialMismatch));
    assert_eq!(
        login_decision(Some(alice()), true, 5),
        Ok(Claims { sub: 7, name: "alice".to_string(), exp: 5 + 604_800 })
    );
    assert_eq!(login_decision(Some(alice()), true, i64::MAX - 604_799), Err(LoginError::InfrastructureFailure));
}

#[test]
fn login_now_expires_a_week_from_now() {
    let before = chrono::Utc::now().timestamp();
    let claims = login_now(Some(alice()), "wonderland").unwrap();
    let after = chrono::Utc::now().timestamp();
    assert!(before + 604_800 <= claims.exp && claims.exp <= after + 604_800);
}
