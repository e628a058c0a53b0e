use teeny_tiny::names::NameSet;

#[test]
fn name_set_keeps_each_name_once_in_order() {
    let mut set = NameSet::new();
    assert_eq!(set.len(), 0);
    assert!(!set.contains(&"a".to_string()));
    assert!(set.insert("b".to_string()));
    assert!(set.insert("a".to_string()));
    assert!(!set.insert("b".to_string()));
    assert_eq!(set.len(), 2);
    assert!(set.contains(&"a".to_string()));
    assert!(set.contains(&"b".to_string()));
    assert!(!set.contains(&"ab".to_string()));
    assert_eq!(set.names, vec!["b".to_string(), "a".to_string()]);
}

#[test]
fn first_missing_goes_by_the_order_of_insertion() {
    let mut wanted = NameSet::new();
    let mut have = NameSet::new();
    assert_eq!(wanted.first_missing_in(&have), None);
    wanted.insert("x".to_string());
    wanted.insert("y".to_string());
    wanted.insert("z".to_string());
    assert_eq!(wanted.first_missing_in(&have), Some("x".to_string()));
    have.insert("x".to_string());
    have.insert("z".to_string());
    assert_eq!(wanted.first_missing_in(&have), Some("y".to_string()));
    have.insert("y".to_string());
    assert_eq!(wanted.first_missing_in(&have), None);
}
