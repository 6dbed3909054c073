use idlib::error::AuthError;
use idlib::error::RefreshError;
use idlib::error::Refusal;
use idlib::error::TokenError;
use idlib::text::same_bytes;
use idlib::text::same_text;

#[test]
fn only_a_missing_capability_is_denied() {
    assert_eq!(AuthError::InsufficientCapability.refusal(), Refusal::CapabilityDenied);
    for reason in [
        AuthError::MissingToken,
        AuthError::MalformedToken,
        AuthError::InvalidSignature,
        AuthError::Expired,
        AuthError::RefreshUnavailable,
        AuthError::RefreshRejected,
    ] {
        assert_eq!(reason.refusal(), Refusal::LoginRedirect);
    }
}

#[test]
fn token_errors_keep_their_kind() {
    assert_eq!(AuthError::of_token_error(TokenError::Malformed), AuthError::MalformedToken);
    assert_eq!(AuthError::of_token_error(TokenError::InvalidSignature), AuthError::InvalidSignature);
    assert_eq!(AuthError::of_token_error(TokenError::Expired), AuthError::Expired);
}

#[test]
fn refresh_errors_keep_their_kind() {
    assert_eq!(AuthError::of_refresh_error(RefreshError::Unavailable), AuthError::RefreshUnavailable);
    assert_eq!(AuthError::of_refresh_error(RefreshError::Rejected), AuthError::RefreshRejected);
}

#[test]
fn text_comparison_is_exact() {
    assert!(same_text("", ""));
    assert!(same_text("invite", "invite"));
    assert!(!same_text("invite", "Invite"));
    assert!(!same_text("invite", "invit"));
    assert!(!same_text("e\u{301}", "\u{e9}"));
    assert!(same_bytes(b"abc", b"abc"));
    assert!(!same_bytes(b"abc", b"abd"));
    assert!(!same_bytes(b"abc", b"ab"));
}

#[test]
fn main_items_are_reachable_from_the_root() {
    let key = idlib::SecretKey::from_bytes(b"k".to_vec());
    assert_eq!(idlib::decode_and_verify("x", &key, 0), Err(idlib::TokenError::Malformed));
    let set = idlib::PolicySet::empty();
    let nobody = idlib::Identity { username: String::new(), groups: vec![] };
    assert!(!idlib::is_authorized(&nobody, "invite", "read", &set));
    let response = idlib::PermissionResponse { policy: vec![], group_policy: vec![] };
    assert_eq!(idlib::PolicySet::from_response(&response), Some(set));
}
