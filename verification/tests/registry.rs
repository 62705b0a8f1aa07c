use agama_network::registry::{valid_object_paths, ObjectsRegistry};

#[test]
fn a_new_registry_is_empty() {
    let objects = ObjectsRegistry::new();
    assert_eq!(objects.devices_paths(), Vec::<String>::new());
    assert_eq!(objects.connections_paths(), Vec::<String>::new());
    assert_eq!(objects.connection_path("eth0"), None);
}

#[test]
fn paths_keep_the_order_of_registration() {
    let mut objects = ObjectsRegistry::new();
    objects.add_connection("b", "/c/0");
    objects.add_connection("a", "/c/1");
    objects.add_connection("c", "/c/2");
    assert_eq!(objects.connections_paths(), vec!["/c/0", "/c/1", "/c/2"]);
    assert_eq!(objects.connection_path("a"), Some("/c/1".to_string()));
    assert_eq!(objects.connection_path("d"), None);
    assert_eq!(objects.devices_paths(), Vec::<String>::new());
}

#[test]
fn registering_an_id_again_replaces_its_path() {
    let mut objects = ObjectsRegistry::new();
    objects.add_connection("a", "/c/0");
    objects.add_connection("b", "/c/1");
    objects.add_connection("a", "/c/7");
    assert_eq!(objects.connections_paths(), vec!["/c/7", "/c/1"]);
    assert_eq!(objects.connection_path("a"), Some("/c/7".to_string()));
    objects.add_device("eth0", "/d/0");
    objects.add_device("eth0", "/d/1");
    assert_eq!(objects.devices_paths(), vec!["/d/1"]);
}

#[test]
fn removing_takes_one_entry_out() {
    let mut objects = ObjectsRegistry::new();
    objects.add_connection("a", "/c/0");
    objects.add_connection("b", "/c/1");
    objects.add_connection("c", "/c/2");
    assert!(objects.remove_connection("b"));
    assert!(!objects.remove_connection("b"));
    assert!(!objects.remove_connection("zz"));
    assert_eq!(objects.connections_paths(), vec!["/c/0", "/c/2"]);
    assert_eq!(objects.connection_path("b"), None);
    assert_eq!(objects.connection_path("c"), Some("/c/2".to_string()));
}

#[test]
fn devices_and_connections_do_not_mix() {
    let mut objects = ObjectsRegistry::new();
    objects.add_device("eth0", "/d/0");
    assert_eq!(objects.connection_path("eth0"), None);
    assert!(!objects.remove_connection("eth0"));
    assert_eq!(objects.devices_paths(), vec!["/d/0"]);
}

#[test]
fn object_paths_follow_the_rules_of_the_bus() {
    let all: Vec<String> = [
        "/", "/a", "/a/b", "/A_1/b2", "", "a", "//", "/a/", "/a//b", "/a-b", "/a.b", "/a b",
        "/\u{e9}", "/a/b/c/d/e/f",
    ]
    .iter()
    .map(|s| s.to_string())
    .collect();
    assert_eq!(
        valid_object_paths(all),
        vec!["/", "/a", "/a/b", "/A_1/b2", "/a/b/c/d/e/f"]
    );
}
