use dbwrap::level::DataLevel;
use dbwrap::store::{
    collect_prefix_entries, db_full_path, is_db_path_allowed, plan_put_batch, prepare_put, stored_value, PrefixScan,
};
use dbwrap::DbError;

#[test]
fn db_paths_accepted_and_refused() {
    assert!(is_db_path_allowed("users"));
    assert!(is_db_path_allowed("a/b/c"));
    assert!(is_db_path_allowed("a/./b"));
    assert!(is_db_path_allowed("..."));
    assert!(is_db_path_allowed("a/..b/c"));
    assert!(is_db_path_allowed(""));
    assert!(!is_db_path_allowed("/etc"));
    assert!(!is_db_path_allowed(".."));
    assert!(!is_db_path_allowed("../x"));
    assert!(!is_db_path_allowed("a/../b"));
    assert!(!is_db_path_allowed("a/.."));
    assert!(!is_db_path_allowed("a//../b"));
}

#[test]
fn full_path_joins_with_slash() {
    assert_eq!(db_full_path("/data", "users"), Ok(String::from("/data/users")));
    assert_eq!(db_full_path("base", "x/y"), Ok(String::from("base/x/y")));
    assert_eq!(
        db_full_path("/data", "../etc"),
        Err(DbError::InvalidPath { path: String::from("../etc") })
    );
    let e = db_full_path("/data", "/root").unwrap_err();
    assert_eq!(e.message(), "invalid db path: /root");
}

#[test]
fn get_returns_payload() {
    assert_eq!(stored_value(None), None);
    assert_eq!(stored_value(Some(vec![b'\n', 1, b'\n', 42])), Some(vec![42]));
    assert_eq!(stored_value(Some(vec![42, 43])), Some(vec![42, 43]));
}

#[test]
fn put_then_get_roundtrip() {
    let stored = prepare_put(&Ok(None), b"value", 2, false).unwrap();
    assert_eq!(stored, vec![b'\n', 2, b'\n', b'v', b'a', b'l', b'u', b'e']);
    assert_eq!(stored_value(Some(stored)), Some(b"value".to_vec()));
}

#[test]
fn put_level_conflict_and_force() {
    let old = b"x".to_vec().data_with_lv(1);
    let refused = prepare_put(&Ok(Some(old.clone())), b"y", 2, false);
    assert_eq!(refused, Err(DbError::LevelConflict { new_lv: 2, old_lv: 1 }));
    assert_eq!(
        refused.unwrap_err().message(),
        "can't put data with level 2 which exists with level 1 without force"
    );
    assert!(prepare_put(&Ok(Some(old.clone())), b"y", 2, true).is_ok());
    assert!(prepare_put(&Ok(Some(old)), b"y", 1, false).is_ok());
    // A failed read does not stop the write.
    assert_eq!(prepare_put(&Err(String::from("io")), b"y", 9, false), Ok(vec![b'\n', 9, b'\n', b'y']));
}

#[test]
fn put_batch_all_or_nothing() {
    let items = vec![
        (b"a".to_vec(), b"1".to_vec(), Ok(None)),
        (b"b".to_vec(), b"2".to_vec(), Ok(Some(b"old".to_vec().data_with_lv(5)))),
    ];
    assert_eq!(
        plan_put_batch(items, 4, false),
        Ok(vec![(b"a".to_vec(), vec![b'\n', 4, b'\n', b'1']), (b"b".to_vec(), vec![b'\n', 4, b'\n', b'2'])])
    );
    let items = vec![
        (b"a".to_vec(), b"1".to_vec(), Ok(None)),
        (b"b".to_vec(), b"2".to_vec(), Ok(Some(b"old".to_vec().data_with_lv(1)))),
        (b"c".to_vec(), b"3".to_vec(), Ok(Some(b"old".to_vec().data_with_lv(0)))),
    ];
    assert_eq!(plan_put_batch(items.clone(), 4, false), Err(DbError::LevelConflict { new_lv: 4, old_lv: 1 }));
    assert_eq!(plan_put_batch(items, 4, true).map(|ops| ops.len()), Ok(3));
    assert_eq!(plan_put_batch(vec![], 1, false), Ok(vec![]));
}

#[test]
fn prefix_search_selects_keys_by_value() {
    let mut scan = PrefixScan::new(b"a");
    assert!(scan.visit(Some(b"b"), Some(b"a")));
    assert!(scan.visit(Some(b"a"), Some(b"b")));
    assert!(scan.visit(Some(b"c"), Some(b"abc")));
    assert!(scan.visit(Some(b"d"), Some(b"")));
    assert_eq!(scan.finish(Ok(())), Ok(vec![b"b".to_vec(), b"c".to_vec()]));
}

#[test]
fn prefix_search_stops_without_key_or_value() {
    let mut scan = PrefixScan::new(b"x");
    assert!(scan.visit(Some(b"k1"), Some(b"xy")));
    assert!(!scan.visit(None, Some(b"x")));
    assert!(!scan.visit(Some(b"k2"), None));
    assert_eq!(scan.finish(Ok(())), Ok(vec![b"k1".to_vec()]));
}

#[test]
fn prefix_search_reports_iterator_error() {
    let mut scan = PrefixScan::new(b"x");
    assert!(scan.visit(Some(b"k1"), Some(b"x")));
    let e = scan.finish(Err(String::from("boom"))).unwrap_err();
    assert_eq!(e, DbError::Iterator { message: String::from("boom") });
    assert_eq!(e.message(), "iterator error: boom");
}

#[test]
fn empty_prefix_matches_every_value() {
    let mut scan = PrefixScan::new(b"");
    assert!(scan.visit(Some(b"k1"), Some(b"")));
    assert!(scan.visit(Some(b"k2"), Some(b"zzz")));
    assert_eq!(scan.finish(Ok(())).map(|ks| ks.len()), Ok(2));
}

#[test]
fn value_prefix_sees_the_level_header() {
    let framed = b"abc".to_vec().data_with_lv(3);
    let mut scan = PrefixScan::new(b"a");
    assert!(scan.visit(Some(b"k"), Some(&framed)));
    assert_eq!(scan.finish(Ok(())), Ok(vec![]));
    let mut scan = PrefixScan::new(&[b'\n', 3]);
    assert!(scan.visit(Some(b"k"), Some(&framed)));
    assert_eq!(scan.finish(Ok(())), Ok(vec![b"k".to_vec()]));
}

#[test]
fn prefix_entries_collect_present_values() {
    let reads = vec![
        (b"k1".to_vec(), Ok(Some(b"v1".to_vec().data_with_lv(2)))),
        (b"k2".to_vec(), Ok(None)),
        (b"k3".to_vec(), Ok(Some(b"raw".to_vec()))),
    ];
    assert_eq!(
        collect_prefix_entries(reads),
        Ok(vec![(b"k1".to_vec(), b"v1".to_vec()), (b"k3".to_vec(), b"raw".to_vec())])
    );
    let reads = vec![
        (b"k1".to_vec(), Ok(None)),
        (b"k2".to_vec(), Err(String::from("first"))),
        (b"k3".to_vec(), Err(String::from("second"))),
    ];
    let e = collect_prefix_entries(reads).unwrap_err();
    assert_eq!(e, DbError::GetKey { message: String::from("first") });
    assert_eq!(e.message(), "database get key error: first");
}
