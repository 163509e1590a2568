use codex_sdk::Environment;

#[test]
fn new_environment_is_empty() {
    let env = Environment::new();
    assert_eq!(env.len(), 0);
    assert_eq!(env.get("A"), None);
    assert_eq!(env.contains_key("A"), false);
    assert_eq!(env.to_pairs(), Vec::<(String, String)>::new());
}

#[test]
fn insert_replaces_and_keeps_first_place() {
    let mut env = Environment::new();
    env.insert("A".to_string(), "1".to_string());
    env.insert("B".to_string(), "2".to_string());
    env.insert("A".to_string(), "3".to_string());
    assert_eq!(env.len(), 2);
    assert_eq!(env.get("A").map(|value| value.as_str()), Some("3"));
    assert_eq!(
        env.to_pairs(),
        vec![
            ("A".to_string(), "3".to_string()),
            ("B".to_string(), "2".to_string())
        ]
    );
}

#[test]
fn insert_if_absent_leaves_what_is_set() {
    let mut env = Environment::new();
    env.insert_if_absent("A".to_string(), "1".to_string());
    env.insert_if_absent("A".to_string(), "2".to_string());
    assert_eq!(env.get("A").map(|value| value.as_str()), Some("1"));
    assert_eq!(env.len(), 1);
}

#[test]
fn from_pairs_lets_the_later_pair_decide() {
    let env = Environment::from_pairs(vec![
        ("A".to_string(), "1".to_string()),
        ("B".to_string(), "2".to_string()),
        ("A".to_string(), "9".to_string()),
    ]);
    assert_eq!(env.len(), 2);
    assert_eq!(env.get("A").map(|value| value.as_str()), Some("9"));
    assert_eq!(env.contains_key("B"), true);
    assert_eq!(env.contains_key("b"), false);
}

#[test]
fn clone_holds_the_same_variables() {
    let env = Environment::from_pairs(vec![("A".to_string(), "1".to_string())]);
    let copy = env.clone();
    assert_eq!(env.to_pairs(), copy.to_pairs());
}

#[test]
fn environments_are_equal_whatever_the_order() {
    let a = Environment::from_pairs(vec![
        ("A".to_string(), "1".to_string()),
        ("B".to_string(), "2".to_string()),
    ]);
    let b = Environment::from_pairs(vec![
        ("B".to_string(), "2".to_string()),
        ("A".to_string(), "1".to_string()),
    ]);
    let c = Environment::from_pairs(vec![("A".to_string(), "1".to_string())]);
    let d = Environment::from_pairs(vec![
        ("A".to_string(), "1".to_string()),
        ("B".to_string(), "other".to_string()),
    ]);
    assert_eq!(a.same_as(&b), true);
    assert_eq!(a, b);
    assert_ne!(a, c);
    assert_ne!(c, a);
    assert_ne!(a, d);
}
