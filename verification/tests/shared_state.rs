use async_playground::shared_state::{
    entry_key, writer_entry, Db, READER_COUNT, READ_PAUSE_MS, READ_ROUNDS, WRITE_COUNT,
    WRITE_PAUSE_MS,
};

#[test]
fn entry_names_are_decimal() {
    assert_eq!(entry_key(0), "key_0");
    assert_eq!(entry_key(7), "key_7");
    assert_eq!(entry_key(10), "key_10");
    assert_eq!(entry_key(4096), "key_4096");
    assert_eq!(entry_key(u32::MAX), format!("key_{}", u32::MAX));
}

#[test]
fn writer_entries_hold_ten_times_their_number() {
    assert_eq!(writer_entry(0), ("key_0".to_string(), 0));
    assert_eq!(writer_entry(3), ("key_3".to_string(), 30));
    assert_eq!(writer_entry(214748364), ("key_214748364".to_string(), 2147483640));
}

#[test]
fn read_after_write_gives_back_the_value() {
    let mut db = Db::new();
    assert_eq!(db.get("key_1"), None);
    db.insert("key_1".to_string(), 10);
    assert_eq!(db.get("key_1"), Some(10));
    db.insert("key_2".to_string(), 20);
    assert_eq!(db.get("key_1"), Some(10));
    db.insert("key_1".to_string(), 11);
    assert_eq!(db.get("key_1"), Some(11));
    assert_eq!(db.get("key_2"), Some(20));
    assert_eq!(db.len(), 2);
}

#[test]
fn names_list_each_key_once() {
    let mut db = Db::new();
    assert!(db.names().is_empty());
    db.insert("b".to_string(), 1);
    db.insert("a".to_string(), 2);
    db.insert("b".to_string(), 3);
    let mut names = db.names();
    names.sort();
    assert_eq!(names, vec!["a".to_string(), "b".to_string()]);
    let mut entries = db.entries();
    entries.sort();
    assert_eq!(entries, vec![("a".to_string(), 2), ("b".to_string(), 3)]);
}

#[test]
fn full_writer_run_fills_the_database() {
    let mut db = Db::new();
    for i in 0..WRITE_COUNT {
        let (k, v) = writer_entry(i);
        db.insert(k, v);
        // After each write a reader sees exactly the entries written so far.
        let mut names = db.names();
        names.sort();
        let mut expected: Vec<String> = (0..=i).map(|j| format!("key_{}", j)).collect();
        expected.sort();
        assert_eq!(names, expected);
    }
    let mut entries = db.entries();
    entries.sort();
    assert_eq!(
        entries,
        vec![
            ("key_0".to_string(), 0),
            ("key_1".to_string(), 10),
            ("key_2".to_string(), 20),
            ("key_3".to_string(), 30),
            ("key_4".to_string(), 40),
        ]
    );
    assert_eq!((READER_COUNT, READ_ROUNDS, READ_PAUSE_MS), (5, 3, 100));
    assert_eq!((WRITE_COUNT, WRITE_PAUSE_MS), (5, 150));
}
