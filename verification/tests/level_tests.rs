use dbwrap::level::{check_level, DataLevel, DEFAULT_LEVEL, SEG};
use dbwrap::DbError;

#[test]
fn data_with_lv_prepends_header() {
    let v: Vec<u8> = vec![7, 8, 9];
    assert_eq!(v.data_with_lv(1), vec![SEG, 1, SEG, 7, 8, 9]);
    let empty: Vec<u8> = vec![];
    assert_eq!(empty.data_with_lv(0), vec![b'\n', 0, b'\n']);
}

#[test]
fn data_lv_reads_header_or_default() {
    let framed: Vec<u8> = vec![b'\n', 5, b'\n', 1, 2];
    assert_eq!(framed.data_lv(), 5);
    let short: Vec<u8> = vec![b'\n', 5];
    assert_eq!(short.data_lv(), DEFAULT_LEVEL);
    let plain: Vec<u8> = vec![1, 2, 3, 4];
    assert_eq!(plain.data_lv(), 3);
    let bad_sep: Vec<u8> = vec![b'\n', 1, b'x', 4];
    assert_eq!(bad_sep.data_lv(), 3);
}

#[test]
fn data_without_lv_strips_only_a_header() {
    let framed: Vec<u8> = vec![b'\n', 2, b'\n', 10, 11];
    assert_eq!(framed.data_without_lv(), vec![10, 11]);
    let just_header: Vec<u8> = vec![b'\n', 2, b'\n'];
    assert_eq!(just_header.data_without_lv(), Vec::<u8>::new());
    let plain: Vec<u8> = vec![1, 2];
    assert_eq!(plain.data_without_lv(), vec![1, 2]);
}

#[test]
fn level_roundtrip_on_values() {
    for lv in [0u8, 1, 3, 10, 255] {
        let v: Vec<u8> = b"hello".to_vec();
        let framed = v.data_with_lv(lv);
        assert_eq!(framed.data_lv(), lv);
        assert_eq!(framed.data_without_lv(), v);
        assert_eq!(framed.len(), v.len() + 3);
    }
}

#[test]
fn str_and_slice_framing() {
    assert_eq!("ab".data_with_lv(2), vec![b'\n', 2, b'\n', b'a', b'b']);
    let s: &[u8] = &[b'\n', 9, b'\n', 1];
    assert_eq!(s.data_lv(), 9);
    assert_eq!(String::from("\n4\nz").data_lv(), b'4');
    let arr: [u8; 4] = [b'\n', 6, b'\n', 0];
    assert_eq!(arr.data_lv(), 6);
    assert_eq!(arr.data_without_lv(), vec![0]);
}

#[test]
fn check_level_rules() {
    let old: Vec<u8> = vec![b'\n', 2, b'\n', 1];
    assert_eq!(check_level(&old, 2, false), Ok(()));
    assert_eq!(check_level(&old, 1, false), Ok(()));
    assert_eq!(check_level(&old, 3, false), Err(DbError::LevelConflict { new_lv: 3, old_lv: 2 }));
    assert_eq!(check_level(&old, 3, true), Ok(()));
    let plain: Vec<u8> = vec![1, 2, 3, 4];
    assert_eq!(check_level(&plain, 3, false), Ok(()));
    assert_eq!(check_level(&plain, 4, false), Err(DbError::LevelConflict { new_lv: 4, old_lv: 3 }));
}

#[test]
fn rewrite_at_same_level_is_allowed() {
    let stored = b"v".to_vec().data_with_lv(7);
    assert_eq!(check_level(&stored, 7, false), Ok(()));
    assert_eq!(check_level(&stored, 0, false), Ok(()));
    assert!(check_level(&stored, 8, false).is_err());
}
