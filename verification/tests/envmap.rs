use ohrs::envmap::EnvMap;

#[test]
fn a_later_binding_replaces_an_earlier_one() {
    let mut m = EnvMap::new();
    m.insert("A".to_string(), "1".to_string());
    m.insert("B".to_string(), "2".to_string());
    m.insert("A".to_string(), "3".to_string());
    assert_eq!(m.get("A"), Some("3".to_string()));
    assert_eq!(m.get("B"), Some("2".to_string()));
    assert_eq!(m.get("C"), None);
    assert_eq!(
        m.to_pairs(),
        vec![("A".to_string(), "3".to_string()), ("B".to_string(), "2".to_string())]
    );
}

#[test]
fn pairs_set_in_turn_keep_the_last_value() {
    let m = EnvMap::from_pairs(vec![
        ("X".to_string(), "a".to_string()),
        ("X".to_string(), "b".to_string()),
    ]);
    assert_eq!(m.get("X"), Some("b".to_string()));
    assert_eq!(m.to_pairs().len(), 1);
}
