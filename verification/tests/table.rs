use minghe_sip::table::Table;

#[test]
fn a_table_keeps_one_value_for_each_key() {
    let mut table: Table<String> = Table::new();
    assert_eq!(table.len(), 0);
    table.insert("a".to_string(), "1".to_string());
    table.insert("b".to_string(), "2".to_string());
    table.insert("a".to_string(), "3".to_string());
    assert_eq!(table.len(), 2);
    assert_eq!(table.get("a").map(|v| v.as_str()), Some("3"));
    assert_eq!(table.value_at(1), "2");
    *table.get_mut("b").unwrap() = "4".to_string();
    assert_eq!(table.remove("b").as_deref(), Some("4"));
    assert_eq!(table.remove("b"), None);
    assert!(!table.contains_key("b"));
    assert!(table.get_mut("b").is_none());
}

#[test]
fn retain_keeps_what_is_marked() {
    let mut table: Table<String> = Table::new();
    for key in ["a", "b", "c", "d"] {
        table.insert(key.to_string(), key.to_uppercase());
    }
    table.retain(&vec![false, true, false, true]);
    assert_eq!(table.len(), 2);
    assert_eq!(table.get("b").map(|v| v.as_str()), Some("B"));
    assert_eq!(table.get("d").map(|v| v.as_str()), Some("D"));
    assert!(table.get("a").is_none());
}
