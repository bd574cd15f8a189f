use weld_jni::handles::HandleTable;

#[test]
fn handle_table_life_cycle() {
    let mut t: HandleTable<String> = HandleTable::new();
    assert!(!t.contains(0));
    let a = t.insert("a".to_string());
    let b = t.insert("b".to_string());
    assert_eq!((a, b), (1, 2));
    assert_eq!(t.get(a).map(|s| s.as_str()), Some("a"));
    if let Some(s) = t.get_mut(b) {
        s.push('!');
    }
    assert_eq!(t.get(b).map(|s| s.as_str()), Some("b!"));
    assert_eq!(t.remove(a), Some("a".to_string()));
    assert_eq!(t.remove(a), None);
    assert!(t.get(a).is_none());
    assert!(t.get(0).is_none());
    assert!(t.get(-3).is_none());
    assert!(t.get(9).is_none());
    let c = t.insert("c".to_string());
    assert_eq!(c, (1i64 << 32) | 1);
    assert!(t.get(a).is_none());
    assert_eq!(t.remove(a), None);
    assert_eq!(t.get(c).map(|s| s.as_str()), Some("c"));
    assert_eq!(t.insert("d".to_string()), 3);
    assert!(t.has_room_exec());
}
