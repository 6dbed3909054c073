use idlib::guard::Capability;
use idlib::routes::RouteTable;

fn capability(resource: &str, action: &str) -> Capability {
    Capability::new(resource.to_string(), action.to_string())
}

#[test]
fn registered_operations_are_found() {
    let mut table = RouteTable::new();
    assert!(table.register("invite.page".to_string(), capability("invite", "read")));
    assert!(table.register("invite.create".to_string(), capability("invite", "write")));
    assert_eq!(table.capability_of("invite.page"), Some(&capability("invite", "read")));
    assert_eq!(table.capability_of("invite.create"), Some(&capability("invite", "write")));
    assert_eq!(table.capability_of("invite.delete"), None);
    assert_eq!(table.capability_of(""), None);
    assert_eq!(table.capability_of("Invite.page"), None);
}

#[test]
fn an_operation_is_registered_once() {
    let mut table = RouteTable::new();
    assert!(table.register("invite.page".to_string(), capability("invite", "read")));
    let before = table.clone();
    assert!(!table.register("invite.page".to_string(), capability("invite", "write")));
    assert_eq!(table, before);
    assert_eq!(table.capability_of("invite.page"), Some(&capability("invite", "read")));
}

#[test]
fn empty_table_knows_nothing() {
    let table = RouteTable::new();
    assert_eq!(table.capability_of("invite.page"), None);
    assert_eq!(table.first_unregistered(&vec![]), None);
    assert_eq!(table.first_unregistered(&vec!["invite.page".to_string()]), Some(0));
}

#[test]
fn first_unregistered_names_the_first_gap() {
    let mut table = RouteTable::new();
    table.register("a".to_string(), capability("x", "read"));
    table.register("c".to_string(), capability("x", "write"));
    let all = |names: &[&str]| names.iter().map(|n| n.to_string()).collect::<Vec<_>>();
    assert_eq!(table.first_unregistered(&all(&["a", "c"])), None);
    assert_eq!(table.first_unregistered(&all(&["c", "a", "a"])), None);
    assert_eq!(table.first_unregistered(&all(&["a", "b", "c", "d"])), Some(1));
    assert_eq!(table.first_unregistered(&all(&["a", "c", "d"])), Some(2));
}
