use piapi::cache::CredentialCache;
use piapi::gate::{
    auth_checker, AuthDecision, CredentialVerifier, PresentedCredential, RejectReason,
    VerificationPolicy,
};

fn cache() -> CredentialCache {
    CredentialCache::build(&vec![
        ("abc123".to_string(), "topsecret".to_string()),
        ("other".to_string(), "pw".to_string()),
    ])
}

fn rejected(d: &AuthDecision) -> Option<RejectReason> {
    match d {
        AuthDecision::Rejected(r) => Some(*r),
        AuthDecision::Authorized(_) => None,
    }
}

#[test]
fn known_key_is_authorized() {
    let d = auth_checker(&cache(), Some("abc123".to_string()));
    match d {
        AuthDecision::Authorized(k) => assert_eq!(k, "abc123"),
        AuthDecision::Rejected(_) => panic!("expected authorized"),
    }
}

#[test]
fn unknown_key_is_rejected_with_401() {
    let d = auth_checker(&cache(), Some("abc124".to_string()));
    let r = rejected(&d).unwrap();
    assert_eq!(r, RejectReason::UnknownCredential);
    assert_eq!(r.http_status(), 401);
    assert_eq!(r.message(), "Api token not found.");
}

#[test]
fn missing_header_is_rejected_with_401() {
    let d = auth_checker(&cache(), None);
    let r = rejected(&d).unwrap();
    assert_eq!(r, RejectReason::MissingCredential);
    assert_eq!(r.http_status(), 401);
    assert_eq!(r.message(), "Api token not found.");
}

#[test]
fn empty_header_is_rejected() {
    let d = auth_checker(&cache(), Some(String::new()));
    assert_eq!(rejected(&d), Some(RejectReason::MissingCredential));
}

#[test]
fn rejection_reasons_look_alike_to_client() {
    for r in [RejectReason::MissingCredential, RejectReason::UnknownCredential, RejectReason::SecretMismatch] {
        assert_eq!(r.http_status(), 401);
        assert_eq!(r.message(), "Api token not found.");
    }
}

#[test]
fn key_presence_policy_ignores_secret() {
    let v = CredentialVerifier::new(cache(), VerificationPolicy::KeyPresence);
    let d = v.verify(PresentedCredential { key: Some("abc123".to_string()), secret: Some("wrong".to_string()) });
    assert_eq!(rejected(&d), None);
}

#[test]
fn key_and_secret_policy_checks_secret() {
    let v = CredentialVerifier::new(cache(), VerificationPolicy::KeyAndSecret);
    let ok = v.verify(PresentedCredential { key: Some("abc123".to_string()), secret: Some("topsecret".to_string()) });
    assert_eq!(rejected(&ok), None);
    let wrong = v.verify(PresentedCredential { key: Some("abc123".to_string()), secret: Some("pw".to_string()) });
    assert_eq!(rejected(&wrong), Some(RejectReason::SecretMismatch));
    let none = v.verify(PresentedCredential { key: Some("abc123".to_string()), secret: None });
    assert_eq!(rejected(&none), Some(RejectReason::SecretMismatch));
    let unknown = v.verify(PresentedCredential { key: Some("nope".to_string()), secret: Some("pw".to_string()) });
    assert_eq!(rejected(&unknown), Some(RejectReason::UnknownCredential));
}
