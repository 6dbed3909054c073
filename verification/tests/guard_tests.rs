use hmac::Hmac;
use hmac::Mac;
use idlib::error::AuthError;
use idlib::error::RefreshError;
use idlib::error::Refusal;
use idlib::guard::Capability;
use idlib::guard::Guard;
use idlib::guard::GuardAction;
use idlib::guard::GuardEvent;
use idlib::guard::GuardState;
use idlib::key::SecretKey;
use idlib::policy::Identity;
use idlib::policy::PolicyRule;
use idlib::policy::PolicySet;
use idlib::refresh::NewToken;
use sha2::Sha256;

const KEY: &[u8] = b"guard test key";

fn mint(key: &[u8], username: &str, groups: &[&str], issued_at: i64, expires_at: i64) -> String {
    let groups: Vec<serde_json::Value> =
        groups.iter().map(|g| serde_json::Value::from(g.to_string())).collect();
    let mut object = serde_json::Map::new();
    object.insert("username".to_string(), serde_json::Value::from(username));
    object.insert("groups".to_string(), serde_json::Value::from(groups));
    object.insert("issued_at".to_string(), serde_json::Value::from(issued_at));
    object.insert("expires_at".to_string(), serde_json::Value::from(expires_at));
    let payload = serde_json::to_vec(&serde_json::Value::Object(object)).unwrap();
    let signed = format!(
        "{}.{}",
        base64::encode_config(b"{\"alg\":\"HS256\"}", base64::URL_SAFE_NO_PAD),
        base64::encode_config(&payload, base64::URL_SAFE_NO_PAD)
    );
    let mut mac = Hmac::<Sha256>::new_from_slice(key).unwrap();
    mac.update(signed.as_bytes());
    let tag = mac.finalize().into_bytes();
    format!("{}.{}", signed, base64::encode_config(&tag, base64::URL_SAFE_NO_PAD))
}

fn rule(subject: &str, resource: &str, action: &str) -> PolicyRule {
    PolicyRule::new(subject.to_string(), resource.to_string(), action.to_string())
}

fn alice_may_read() -> PolicySet {
    PolicySet { policy: vec![rule("alice", "invite", "read")], group_policy: vec![] }
}

fn capability(resource: &str, action: &str) -> Capability {
    Capability::new(resource.to_string(), action.to_string())
}

fn request(token: Option<&str>) -> GuardEvent {
    GuardEvent::Request { token: token.map(|t| t.to_string()) }
}

fn identity(name: &str, groups: &[&str]) -> Identity {
    Identity { username: name.to_string(), groups: groups.iter().map(|g| g.to_string()).collect() }
}

#[test]
fn end_to_end_read_is_authorized_and_write_is_denied() {
    let key = SecretKey::from_bytes(KEY.to_vec());
    let policy = alice_may_read();
    let token = mint(KEY, "alice", &[], 1000, 2000);

    let read = capability("invite", "read");
    let state = Guard::new(&key, &policy, &read).step(GuardState::start(), request(Some(&token)), 1500);
    assert_eq!(state, GuardState::Authorized { identity: identity("alice", &[]), renewed: None });
    assert_eq!(state.action(), GuardAction::Proceed);
    assert_eq!(state.refused_for(), None);

    let write = capability("invite", "write");
    let state = Guard::new(&key, &policy, &write).step(GuardState::start(), request(Some(&token)), 1500);
    assert_eq!(state, GuardState::Forbidden);
    assert_eq!(state.action(), GuardAction::Deny);
    assert_eq!(state.refused_for(), Some(AuthError::InsufficientCapability));
    assert_eq!(AuthError::InsufficientCapability.refusal(), Refusal::CapabilityDenied);
}

#[test]
fn request_without_token_is_sent_to_login() {
    let key = SecretKey::from_bytes(KEY.to_vec());
    let policy = alice_may_read();
    let read = capability("invite", "read");
    let state = Guard::new(&key, &policy, &read).step(GuardState::start(), request(None), 1500);
    assert_eq!(state, GuardState::LoginRequired { reason: AuthError::MissingToken });
    assert_eq!(state.action(), GuardAction::RedirectToLogin);
}

#[test]
fn forged_token_is_invalid_and_never_refreshed() {
    let key = SecretKey::from_bytes(KEY.to_vec());
    let policy = alice_may_read();
    let read = capability("invite", "read");
    let guard = Guard::new(&key, &policy, &read);

    let forged = mint(b"some other key", "alice", &[], 1000, 2000);
    let state = guard.step(GuardState::start(), request(Some(&forged)), 5000);
    assert_eq!(state, GuardState::Invalid { reason: AuthError::InvalidSignature });
    assert_eq!(state.action(), GuardAction::RedirectToLogin);

    let state = guard.step(GuardState::start(), request(Some("no token at all")), 1500);
    assert_eq!(state, GuardState::Invalid { reason: AuthError::MalformedToken });
    assert_eq!(state.action(), GuardAction::RedirectToLogin);
}

#[test]
fn expired_token_asks_for_a_refresh() {
    let key = SecretKey::from_bytes(KEY.to_vec());
    let policy = alice_may_read();
    let read = capability("invite", "read");
    let token = mint(KEY, "alice", &[], 1000, 2000);
    let state = Guard::new(&key, &policy, &read).step(GuardState::start(), request(Some(&token)), 2000);
    assert_eq!(state, GuardState::Refreshing { token: token.clone() });
    assert_eq!(state.action(), GuardAction::CallRefresh);
    assert_eq!(state.refused_for(), None);
}

#[test]
fn expired_token_is_refreshed_even_without_the_capability() {
    let key = SecretKey::from_bytes(KEY.to_vec());
    let policy = PolicySet::empty();
    let read = capability("invite", "read");
    let token = mint(KEY, "alice", &[], 1000, 2000);
    let state = Guard::new(&key, &policy, &read).step(GuardState::start(), request(Some(&token)), 3000);
    assert_eq!(state, GuardState::Refreshing { token });
}

#[test]
fn successful_refresh_uses_the_new_claims() {
    let key = SecretKey::from_bytes(KEY.to_vec());
    let policy = PolicySet {
        policy: vec![],
        group_policy: vec![rule("admins", "invite", "read")],
    };
    let read = capability("invite", "read");
    let guard = Guard::new(&key, &policy, &read);

    let old = mint(KEY, "alice", &[], 1000, 2000);
    let state = guard.step(GuardState::start(), request(Some(&old)), 2500);
    assert_eq!(state.action(), GuardAction::CallRefresh);

    let fresh = NewToken { token: mint(KEY, "alice", &["admins"], 2500, 3500), expires_at: 3500 };
    let state = guard.step(state, GuardEvent::Refreshed { outcome: Ok(fresh.clone()) }, 2501);
    assert_eq!(
        state,
        GuardState::Authorized { identity: identity("alice", &["admins"]), renewed: Some(fresh) }
    );
    assert_eq!(state.action(), GuardAction::Proceed);
}

#[test]
fn successful_refresh_can_still_be_denied_by_the_rules() {
    let key = SecretKey::from_bytes(KEY.to_vec());
    let policy = alice_may_read();
    let write = capability("invite", "write");
    let guard = Guard::new(&key, &policy, &write);
    let old = mint(KEY, "alice", &[], 1000, 2000);
    let state = guard.step(GuardState::start(), request(Some(&old)), 2500);
    let fresh = NewToken { token: mint(KEY, "alice", &[], 2500, 3500), expires_at: 3500 };
    let state = guard.step(state, GuardEvent::Refreshed { outcome: Ok(fresh) }, 2501);
    assert_eq!(state, GuardState::Forbidden);
    assert_eq!(state.action(), GuardAction::Deny);
}

#[test]
fn failed_refresh_is_sent_to_login() {
    let key = SecretKey::from_bytes(KEY.to_vec());
    let policy = alice_may_read();
    let read = capability("invite", "read");
    let guard = Guard::new(&key, &policy, &read);
    let old = mint(KEY, "alice", &[], 1000, 2000);

    for (failure, reason) in [
        (RefreshError::Unavailable, AuthError::RefreshUnavailable),
        (RefreshError::Rejected, AuthError::RefreshRejected),
    ] {
        let state = guard.step(GuardState::start(), request(Some(&old)), 2500);
        let state = guard.step(state, GuardEvent::Refreshed { outcome: Err(failure) }, 2501);
        assert_eq!(state, GuardState::LoginRequired { reason });
        assert_eq!(state.action(), GuardAction::RedirectToLogin);
        assert_eq!(state.refused_for(), Some(reason));
        assert_eq!(reason.refusal(), Refusal::LoginRedirect);
    }
}

#[test]
fn failed_refresh_is_sent_to_login_even_without_the_capability() {
    let key = SecretKey::from_bytes(KEY.to_vec());
    let policy = PolicySet::empty();
    let read = capability("invite", "read");
    let guard = Guard::new(&key, &policy, &read);
    let old = mint(KEY, "alice", &[], 1000, 2000);
    let state = guard.step(GuardState::start(), request(Some(&old)), 2500);
    let state = guard.step(state, GuardEvent::Refreshed { outcome: Err(RefreshError::Rejected) }, 2501);
    assert_eq!(state.action(), GuardAction::RedirectToLogin);
}

#[test]
fn unusable_new_token_is_sent_to_login_without_another_refresh() {
    let key = SecretKey::from_bytes(KEY.to_vec());
    let policy = alice_may_read();
    let read = capability("invite", "read");
    let guard = Guard::new(&key, &policy, &read);
    let old = mint(KEY, "alice", &[], 1000, 2000);

    let stale = NewToken { token: mint(KEY, "alice", &[], 1000, 2100), expires_at: 2100 };
    let state = guard.step(GuardState::start(), request(Some(&old)), 2500);
    let state = guard.step(state, GuardEvent::Refreshed { outcome: Ok(stale) }, 2501);
    assert_eq!(state, GuardState::LoginRequired { reason: AuthError::Expired });

    let forged = NewToken { token: mint(b"other", "alice", &[], 2500, 3500), expires_at: 3500 };
    let state = guard.step(GuardState::start(), request(Some(&old)), 2500);
    let state = guard.step(state, GuardEvent::Refreshed { outcome: Ok(forged) }, 2501);
    assert_eq!(state, GuardState::LoginRequired { reason: AuthError::InvalidSignature });

    let garbage = NewToken { token: "garbage".to_string(), expires_at: 3500 };
    let state = guard.step(GuardState::start(), request(Some(&old)), 2500);
    let state = guard.step(state, GuardEvent::Refreshed { outcome: Ok(garbage) }, 2501);
    assert_eq!(state, GuardState::LoginRequired { reason: AuthError::MalformedToken });
}

#[test]
fn events_that_a_state_does_not_wait_for_change_nothing() {
    let key = SecretKey::from_bytes(KEY.to_vec());
    let policy = alice_may_read();
    let read = capability("invite", "read");
    let guard = Guard::new(&key, &policy, &read);
    let token = mint(KEY, "alice", &[], 1000, 2000);
    let fresh = NewToken { token: token.clone(), expires_at: 2000 };

    let state = guard.step(GuardState::start(), GuardEvent::Refreshed { outcome: Ok(fresh.clone()) }, 1500);
    assert_eq!(state, GuardState::NoToken);
    assert_eq!(state.action(), GuardAction::AwaitRequest);

    let waiting = GuardState::Refreshing { token: token.clone() };
    let state = guard.step(waiting.clone(), request(Some(&token)), 1500);
    assert_eq!(state, waiting);

    for done in [
        GuardState::Forbidden,
        GuardState::Invalid { reason: AuthError::InvalidSignature },
        GuardState::LoginRequired { reason: AuthError::MissingToken },
        GuardState::Authorized { identity: identity("alice", &[]), renewed: None },
    ] {
        assert_eq!(guard.step(done.clone(), request(Some(&token)), 1500), done);
        assert_eq!(
            guard.step(done.clone(), GuardEvent::Refreshed { outcome: Ok(fresh.clone()) }, 1500),
            done
        );
    }
}

#[test]
fn decide_asks_the_rules() {
    let key = SecretKey::from_bytes(KEY.to_vec());
    let policy = alice_may_read();
    let read = capability("invite", "read");
    let guard = Guard::new(&key, &policy, &read);
    let claims = idlib::token::Claims {
        username: "alice".to_string(),
        groups: vec![],
        issued_at: 1,
        expires_at: 2,
    };
    assert_eq!(
        guard.decide(claims, None),
        GuardState::Authorized { identity: identity("alice", &[]), renewed: None }
    );
    let claims = idlib::token::Claims {
        username: "bob".to_string(),
        groups: vec![],
        issued_at: 1,
        expires_at: 2,
    };
    assert_eq!(guard.decide(claims, None), GuardState::Forbidden);
}
