//! The authentication gate: decides for each request whether it may reach a
//! protected handler.

use vstd::prelude::*;
use crate::cache::CredentialCache;

verus! {

/// Why a request was turned away. Every reason yields the same status and
/// message to the client, so the client cannot tell them apart.
#[derive(Debug, Clone, Copy, PartialEq, Eq, Structural)]
pub enum RejectReason {
    /// No credential was presented, or an empty one.
    MissingCredential,
    /// The presented public key is not in the cache.
    UnknownCredential,
    /// The key is known but the presented secret does not match its own.
    SecretMismatch,
}

/// HTTP status of every rejection: 401 Unauthorized.
pub const UNAUTHORIZED_STATUS: u16 = 401;

impl RejectReason {
    /// The HTTP status sent back, the same for every reason.
    pub fn http_status(&self) -> (r: u16)
        ensures
            r == UNAUTHORIZED_STATUS,
    {
        UNAUTHORIZED_STATUS
    }

    /// The plain-text body sent back, the same for every reason.
    pub fn message(&self) -> (r: &'static str)
        ensures
            r@ == "Api token not found."@,
    {
        "Api token not found."
    }
}

/// Outcome of authenticating one request.
pub enum AuthDecision {
    /// The request may proceed; it carries the presented public key.
    Authorized(String),
    /// The request is refused with a 401.
    Rejected(RejectReason),
}

/// What a request presents: the `Authorization` header value, and a secret
/// where the transport carries one.
pub struct PresentedCredential {
    pub key: Option<String>,
    pub secret: Option<String>,
}

/// Which check the verifier applies to a presented credential.
#[derive(Debug, Clone, Copy, PartialEq, Eq, Structural)]
pub enum VerificationPolicy {
    /// The public key must be known; the secret is not consulted.
    KeyPresence,
    /// The public key must be known and the presented secret must equal its
    /// stored secret.
    KeyAndSecret,
}

/// A key was presented and it is not empty.
pub open spec fn key_presented(key: Option<String>) -> bool {
    key is Some && key->0@.len() > 0
}

/// The decision owed for a presented credential against the cache contents
/// `m` under `policy`, written as the rejection reason, or `None` when the
/// request is authorized.
pub open spec fn rejection_for(
    m: Map<Seq<char>, Seq<char>>,
    policy: VerificationPolicy,
    key: Option<String>,
    secret: Option<String>,
) -> Option<RejectReason> {
    if !key_presented(key) {
        Some(RejectReason::MissingCredential)
    } else if !m.contains_key(key->0@) {
        Some(RejectReason::UnknownCredential)
    } else if policy == VerificationPolicy::KeyAndSecret && !(secret is Some && secret->0@
        == m[key->0@]) {
        Some(RejectReason::SecretMismatch)
    } else {
        None
    }
}

/// `d` is the decision that `rejection_for` gives, authorizing the key itself.
pub open spec fn decision_is(d: AuthDecision, expected: Option<RejectReason>, key: Option<String>) -> bool {
    match d {
        AuthDecision::Authorized(k) => expected is None && k@ == key->0@,
        AuthDecision::Rejected(reason) => expected == Some(reason),
    }
}

/// Checks a presented public key against the cache: the request is
/// authorized exactly when the key is present, non-empty and known.
pub fn auth_checker(cache: &CredentialCache, key: Option<String>) -> (r: AuthDecision)
    requires
        cache.wf(),
    ensures
        decision_is(r, rejection_for(cache@, VerificationPolicy::KeyPresence, key, None), key),
{
    let presented = PresentedCredential { key, secret: None };
    check(cache, VerificationPolicy::KeyPresence, presented)
}

fn check(cache: &CredentialCache, policy: VerificationPolicy, presented: PresentedCredential) -> (r: AuthDecision)
    requires
        cache.wf(),
    ensures
        decision_is(r, rejection_for(cache@, policy, presented.key, presented.secret), presented.key),
{
    let key = match presented.key {
        Some(k) => k,
        None => return AuthDecision::Rejected(RejectReason::MissingCredential),
    };
    if key.as_str().is_empty() {
        return AuthDecision::Rejected(RejectReason::MissingCredential);
    }
    let stored = cache.lookup(&key);
    let stored = match stored {
        Some(s) => s,
        None => return AuthDecision::Rejected(RejectReason::UnknownCredential),
    };
    match policy {
        VerificationPolicy::KeyPresence => AuthDecision::Authorized(key),
        VerificationPolicy::KeyAndSecret => {
            let ok = match &presented.secret {
                Some(s) => *s == stored,
                None => false,
            };
            if ok {
                AuthDecision::Authorized(key)
            } else {
                AuthDecision::Rejected(RejectReason::SecretMismatch)
            }
        },
    }
}

/// A loaded cache together with the policy to apply to each presented
/// credential.
pub struct CredentialVerifier {
    cache: CredentialCache,
    policy: VerificationPolicy,
}

impl CredentialVerifier {
    /// The verifier's cache contents.
    pub closed spec fn cache_view(&self) -> Map<Seq<char>, Seq<char>> {
        self.cache@
    }

    /// The policy the verifier applies.
    pub closed spec fn policy_view(&self) -> VerificationPolicy {
        self.policy
    }

    /// The verifier holds a well-formed cache.
    pub closed spec fn wf(&self) -> bool {
        self.cache.wf()
    }

    pub fn new(cache: CredentialCache, policy: VerificationPolicy) -> (r: CredentialVerifier)
        requires
            cache.wf(),
        ensures
            r.wf(),
            r.cache_view() == cache@,
            r.policy_view() == policy,
    {
        CredentialVerifier { cache, policy }
    }

    /// Decides whether the presented credential may pass.
    pub fn verify(&self, presented: PresentedCredential) -> (r: AuthDecision)
        requires
            self.wf(),
        ensures
            decision_is(
                r,
                rejection_for(self.cache_view(), self.policy_view(), presented.key, presented.secret),
                presented.key,
            ),
    {
        check(&self.cache, self.policy, presented)
    }
}

} // verus!
