use dbwrap::config::{RecoveryMode, RocksdbOptions};
use dbwrap::server::{authorize, call_and_serialize, token_matches, DbConfig, DbReply, HttpRequest, RequestType};
use dbwrap::text::u8_to_decimal;
use dbwrap::DbError;

#[test]
fn tokens_compare_exactly() {
    assert!(token_matches("s3cret", "s3cret"));
    assert!(!token_matches("s3cret", "s3cre"));
    assert!(!token_matches("s3cret", "s3creT"));
    assert!(token_matches("", ""));
    assert!(token_matches("ключ", "ключ"));
}

#[test]
fn authorize_refuses_wrong_token() {
    let req = HttpRequest { token: String::from("abc"), req: RequestType::Get(vec![1]), path: String::from("db") };
    assert_eq!(authorize("abc", &req), Ok(()));
    assert_eq!(authorize("abd", &req), Err(String::from("Invalid token")));
}

#[test]
fn request_labels() {
    assert_eq!(RequestType::Get(vec![]).label(), "db_get");
    assert_eq!(RequestType::Put(vec![], vec![], 0, false).label(), "db_put");
    assert_eq!(RequestType::PutBatch(vec![], 0, false).label(), "db_put_batch");
    assert_eq!(RequestType::Delete(vec![]).label(), "db_delete");
    assert_eq!(RequestType::DeleteBatch(vec![]).label(), "db_delete_batch");
    assert_eq!(RequestType::GetPrefix(vec![]).label(), "db_get_prefix");
    assert_eq!(RequestType::DeletePrefix(vec![]).label(), "db_delete_prefix");
}

#[test]
fn replies_serialize_as_json() {
    assert_eq!(call_and_serialize(Ok(DbReply::Done), "db_put"), Ok(String::from("null")));
    assert_eq!(call_and_serialize(Ok(DbReply::Value(None)), "db_get"), Ok(String::from("null")));
    assert_eq!(call_and_serialize(Ok(DbReply::Value(Some(vec![1, 200]))), "db_get"), Ok(String::from("[1,200]")));
    assert_eq!(call_and_serialize(Ok(DbReply::Value(Some(vec![]))), "db_get"), Ok(String::from("[]")));
    assert_eq!(
        call_and_serialize(Ok(DbReply::Entries(vec![(vec![1], vec![2, 3]), (vec![], vec![4])])), "db_get_prefix"),
        Ok(String::from("[[[1],[2,3]],[[],[4]]]"))
    );
    assert_eq!(call_and_serialize(Ok(DbReply::Entries(vec![])), "db_get_prefix"), Ok(String::from("[]")));
}

#[test]
fn failures_are_reported_with_their_message() {
    assert_eq!(
        call_and_serialize(Err(DbError::LevelConflict { new_lv: 10, old_lv: 255 }), "db_put"),
        Err(String::from("db_req failed for: can't put data with level 10 which exists with level 255 without force"))
    );
    assert_eq!(
        call_and_serialize(Err(DbError::Storage { message: String::from("IO error") }), "db_get"),
        Err(String::from("db_req failed for: IO error"))
    );
    assert_eq!(
        call_and_serialize(Err(DbError::InvalidPath { path: String::from("../x") }), "db_get"),
        Err(String::from("db_req failed for: invalid db path: ../x"))
    );
}

#[test]
fn decimal_rendering() {
    assert_eq!(u8_to_decimal(0), "0");
    assert_eq!(u8_to_decimal(7), "7");
    assert_eq!(u8_to_decimal(10), "10");
    assert_eq!(u8_to_decimal(99), "99");
    assert_eq!(u8_to_decimal(100), "100");
    assert_eq!(u8_to_decimal(255), "255");
}

#[test]
fn config_option_settings() {
    let mut cfg = DbConfig {
        port: 8080,
        num_workers: 4,
        db_path: String::from("/data"),
        token: String::from("t"),
        options: None,
    };
    assert_eq!(cfg.option_settings(), None);
    cfg.options = Some(RocksdbOptions::default());
    let s = cfg.option_settings().unwrap();
    assert_eq!(s.wal_recovery_mode, RecoveryMode::AbsoluteConsistency);
    assert_eq!(s.keep_log_file_num, 2);
}

#[test]
fn request_debug_text_matches_derived_debug() {
    let reqs = vec![
        RequestType::Get(vec![1, 2]),
        RequestType::Put(vec![1], vec![], 7, true),
        RequestType::PutBatch(vec![(vec![1], vec![2, 3]), (vec![], vec![255])], 0, false),
        RequestType::Delete(vec![]),
        RequestType::DeleteBatch(vec![vec![1], vec![2, 3]]),
        RequestType::GetPrefix(vec![9]),
        RequestType::DeletePrefix(vec![10, 100]),
    ];
    for r in reqs {
        assert_eq!(r.debug_text(), format!("{:?}", r));
    }
    assert_eq!(RequestType::Put(vec![1, 2], vec![], 7, true).debug_text(), "Put([1, 2], [], 7, true)");
}

#[test]
fn redacted_debug_hides_the_token() {
    let a = HttpRequest { token: String::from("s3cret"), req: RequestType::Get(vec![1]), path: String::from("db\"x") };
    let b = HttpRequest { token: String::from("other"), req: RequestType::Get(vec![1]), path: String::from("db\"x") };
    let text = a.redacted_debug();
    assert_eq!(text, "HttpRequest { token: \"[REDACTED]\", req: Get([1]), path: \"db\\\"x\" }");
    assert!(!text.contains("s3cret"));
    assert_eq!(text, b.redacted_debug());
}
