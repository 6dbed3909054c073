use idlib::policy::field_matches;
use idlib::policy::in_groups;
use idlib::policy::is_authorized;
use idlib::policy::is_wildcard;
use idlib::policy::rules_from_rows;
use idlib::policy::Identity;
use idlib::policy::PermissionResponse;
use idlib::policy::PolicyCache;
use idlib::policy::PolicyRule;
use idlib::policy::PolicySet;

fn rule(subject: &str, resource: &str, action: &str) -> PolicyRule {
    PolicyRule::new(subject.to_string(), resource.to_string(), action.to_string())
}

fn user(name: &str, groups: &[&str]) -> Identity {
    Identity { username: name.to_string(), groups: groups.iter().map(|g| g.to_string()).collect() }
}

fn row(fields: &[&str]) -> Vec<String> {
    fields.iter().map(|f| f.to_string()).collect()
}

#[test]
fn user_rule_permits_what_it_names_only() {
    let set = PolicySet { policy: vec![rule("alice", "invite", "read")], group_policy: vec![] };
    assert!(is_authorized(&user("alice", &[]), "invite", "read", &set));
    assert!(!is_authorized(&user("alice", &[]), "invite", "write", &set));
    assert!(!is_authorized(&user("alice", &[]), "users", "read", &set));
    assert!(!is_authorized(&user("bob", &[]), "invite", "read", &set));
}

#[test]
fn wildcard_subject_permits_every_user() {
    let set = PolicySet { policy: vec![rule("*", "invite", "read")], group_policy: vec![] };
    for name in ["alice", "bob", "", "*", "Alice", "zo\u{eb}"] {
        assert!(is_authorized(&user(name, &[]), "invite", "read", &set));
        assert!(!is_authorized(&user(name, &[]), "invite", "write", &set));
    }
}

#[test]
fn group_rule_permits_members_only() {
    let set = PolicySet { policy: vec![], group_policy: vec![rule("admins", "invite", "write")] };
    assert!(is_authorized(&user("alice", &["admins"]), "invite", "write", &set));
    assert!(is_authorized(&user("bob", &["staff", "admins"]), "invite", "write", &set));
    assert!(!is_authorized(&user("carol", &[]), "invite", "write", &set));
    assert!(!is_authorized(&user("dave", &["staff"]), "invite", "write", &set));
    assert!(!is_authorized(&user("alice", &["admins"]), "invite", "read", &set));
}

#[test]
fn group_rule_does_not_match_a_username() {
    let set = PolicySet { policy: vec![], group_policy: vec![rule("admins", "invite", "write")] };
    assert!(!is_authorized(&user("admins", &[]), "invite", "write", &set));
}

#[test]
fn user_rule_does_not_match_a_group() {
    let set = PolicySet { policy: vec![rule("admins", "invite", "write")], group_policy: vec![] };
    assert!(!is_authorized(&user("alice", &["admins"]), "invite", "write", &set));
}

#[test]
fn wildcard_group_rule_permits_users_without_groups() {
    let set = PolicySet { policy: vec![], group_policy: vec![rule("*", "invite", "read")] };
    assert!(is_authorized(&user("alice", &[]), "invite", "read", &set));
}

#[test]
fn empty_policy_set_denies_every_request() {
    let set = PolicySet::empty();
    assert!(!is_authorized(&user("alice", &["admins"]), "invite", "read", &set));
    assert!(!is_authorized(&user("*", &["*"]), "*", "*", &set));
    assert!(!is_authorized(&user("", &[]), "", "", &set));
}

#[test]
fn wildcards_in_resource_and_action() {
    let set = PolicySet {
        policy: vec![rule("alice", "*", "read"), rule("bob", "invite", "*")],
        group_policy: vec![],
    };
    assert!(is_authorized(&user("alice", &[]), "anything", "read", &set));
    assert!(!is_authorized(&user("alice", &[]), "anything", "write", &set));
    assert!(is_authorized(&user("bob", &[]), "invite", "delete", &set));
    assert!(!is_authorized(&user("bob", &[]), "users", "delete", &set));
}

#[test]
fn wildcard_in_a_request_is_an_ordinary_value() {
    let set = PolicySet { policy: vec![rule("alice", "invite", "read")], group_policy: vec![] };
    assert!(!is_authorized(&user("alice", &[]), "*", "read", &set));
    assert!(!is_authorized(&user("*", &[]), "invite", "read", &set));
}

#[test]
fn matching_is_exact_and_case_sensitive() {
    let set = PolicySet { policy: vec![rule("alice", "invite", "read")], group_policy: vec![] };
    assert!(!is_authorized(&user("Alice", &[]), "invite", "read", &set));
    assert!(!is_authorized(&user("alice", &[]), "Invite", "read", &set));
    assert!(!is_authorized(&user("alice", &[]), "invite/1", "read", &set));
    assert!(!is_authorized(&user("alice", &[]), "invit", "read", &set));
    assert!(!is_authorized(&user("alice", &[]), "invite", "rea*", &set));
}

#[test]
fn any_matching_rule_wins() {
    let set = PolicySet {
        policy: vec![rule("bob", "x", "y"), rule("carol", "invite", "read")],
        group_policy: vec![rule("staff", "x", "y"), rule("admins", "invite", "read")],
    };
    assert!(is_authorized(&user("carol", &[]), "invite", "read", &set));
    assert!(is_authorized(&user("dave", &["admins"]), "invite", "read", &set));
    assert!(!is_authorized(&user("dave", &["guests"]), "invite", "read", &set));
}

#[test]
fn small_matchers() {
    assert!(is_wildcard("*"));
    assert!(!is_wildcard("**"));
    assert!(!is_wildcard(""));
    assert!(!is_wildcard("a"));
    assert!(field_matches("*", "anything"));
    assert!(field_matches("a", "a"));
    assert!(!field_matches("a", "*"));
    assert!(!field_matches("a", "b"));
    assert!(in_groups("b", &vec!["a".to_string(), "b".to_string()]));
    assert!(!in_groups("c", &vec!["a".to_string(), "b".to_string()]));
    assert!(!in_groups("a", &vec![]));
}

#[test]
fn rule_methods_agree_with_the_engine() {
    let r = rule("admins", "invite", "*");
    assert!(r.permits_user("admins", "invite", "read"));
    assert!(!r.permits_user("alice", "invite", "read"));
    assert!(r.permits_groups(&vec!["admins".to_string()], "invite", "write"));
    assert!(!r.permits_groups(&vec!["staff".to_string()], "invite", "write"));
}

#[test]
fn response_becomes_a_policy_set() {
    let response = PermissionResponse {
        policy: vec![row(&["alice", "invite", "read"]), row(&["*", "home", "*"])],
        group_policy: vec![row(&["admins", "invite", "write"])],
    };
    let set = PolicySet::from_response(&response).unwrap();
    assert_eq!(
        set,
        PolicySet {
            policy: vec![rule("alice", "invite", "read"), rule("*", "home", "*")],
            group_policy: vec![rule("admins", "invite", "write")],
        }
    );
}

#[test]
fn response_with_a_row_that_is_no_triple_gives_nothing() {
    let short = PermissionResponse {
        policy: vec![row(&["alice", "invite", "read"]), row(&["bob", "invite"])],
        group_policy: vec![],
    };
    assert_eq!(PolicySet::from_response(&short), None);
    let long = PermissionResponse {
        policy: vec![],
        group_policy: vec![row(&["admins", "invite", "write", "extra"])],
    };
    assert_eq!(PolicySet::from_response(&long), None);
    assert_eq!(rules_from_rows(&vec![row(&[])]), None);
    assert_eq!(rules_from_rows(&vec![]), Some(vec![]));
}

#[test]
fn cache_starts_empty_and_is_replaced_as_a_whole() {
    let mut cache = PolicyCache::new();
    assert_eq!(cache.snapshot(), &PolicySet::empty());
    assert!(!is_authorized(&user("alice", &[]), "invite", "read", cache.snapshot()));

    let first = PermissionResponse {
        policy: vec![row(&["alice", "invite", "read"])],
        group_policy: vec![row(&["admins", "invite", "write"])],
    };
    assert!(cache.absorb(Some(&first)));
    assert!(is_authorized(&user("alice", &[]), "invite", "read", cache.snapshot()));

    let second = PermissionResponse { policy: vec![row(&["bob", "invite", "read"])], group_policy: vec![] };
    assert!(cache.absorb(Some(&second)));
    assert!(!is_authorized(&user("alice", &[]), "invite", "read", cache.snapshot()));
    assert!(!is_authorized(&user("x", &["admins"]), "invite", "write", cache.snapshot()));
    assert!(is_authorized(&user("bob", &[]), "invite", "read", cache.snapshot()));
}

#[test]
fn cache_keeps_the_last_good_rules_when_a_fetch_fails() {
    let mut cache = PolicyCache::new();
    let good = PermissionResponse { policy: vec![row(&["alice", "invite", "read"])], group_policy: vec![] };
    assert!(cache.absorb(Some(&good)));
    let before = cache.snapshot().clone();

    assert!(!cache.absorb(None));
    assert_eq!(cache.snapshot(), &before);

    let bad = PermissionResponse {
        policy: vec![row(&["bob", "invite", "read"]), row(&["broken"])],
        group_policy: vec![],
    };
    assert!(!cache.absorb(Some(&bad)));
    assert_eq!(cache.snapshot(), &before);
    assert!(!is_authorized(&user("bob", &[]), "invite", "read", cache.snapshot()));
}

#[test]
fn absorbing_the_same_answer_twice_changes_nothing() {
    let mut cache = PolicyCache::new();
    let good = PermissionResponse { policy: vec![row(&["alice", "invite", "read"])], group_policy: vec![] };
    assert!(cache.absorb(Some(&good)));
    let once = cache.snapshot().clone();
    assert!(cache.absorb(Some(&good)));
    assert_eq!(cache.snapshot(), &once);
}

#[test]
fn cache_replace_installs_the_set() {
    let mut cache = PolicyCache::new();
    let set = PolicySet { policy: vec![rule("alice", "invite", "read")], group_policy: vec![] };
    cache.replace(set.clone());
    assert_eq!(cache.snapshot(), &set);
}
