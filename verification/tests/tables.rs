use zher::table::{StrSet, Table};

#[test]
fn a_set_holds_each_string_once() {
    let mut set = StrSet::new();
    assert!(set.is_empty());
    assert!(set.insert("a".to_string()));
    assert!(set.insert("b".to_string()));
    assert!(!set.insert("a".to_string()));
    assert_eq!(set.len(), 2);
    assert!(set.contains("a"));
    assert!(!set.contains("c"));
    assert_eq!(set.get(0), "a");
    assert_eq!(set.get(1), "b");
    assert!(set.remove("a"));
    assert!(!set.remove("a"));
    assert_eq!(set.len(), 1);
    assert_eq!(set.get(0), "b");
    assert!(set.remove("b"));
    assert!(set.is_empty());
}

#[test]
fn a_table_keeps_its_keys_in_order() {
    let mut table: Table<u32> = Table::new();
    assert_eq!(table.len(), 0);
    assert_eq!(table.insert("one".to_string(), 1), None);
    assert_eq!(table.insert("two".to_string(), 2), None);
    assert_eq!(table.insert("three".to_string(), 3), None);
    assert_eq!(table.insert("two".to_string(), 22), Some(2));
    assert_eq!(table.len(), 3);
    assert_eq!(table.key_at(1), "two");
    assert_eq!(*table.value_at(1), 22);
    assert_eq!(table.get("three"), Some(&3));
    assert_eq!(table.get("four"), None);
    assert_eq!(table.position("three"), Some(2));
    assert!(table.contains_key("one"));
    assert_eq!(table.remove("one"), Some(1));
    assert_eq!(table.remove("one"), None);
    assert_eq!(table.key_at(0), "two");
    assert_eq!(table.position("three"), Some(1));
    *table.value_at_mut(1) += 30;
    assert_eq!(table.get("three"), Some(&33));
    table.set_value_at(0, 0);
    assert_eq!(table.get("two"), Some(&0));
    assert_eq!(table.remove_at(0), 0);
    assert_eq!(table.len(), 1);
    assert_eq!(table.key_at(0), "three");
}
