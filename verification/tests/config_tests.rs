use dbwrap::config::{parse_recovery_mode, OptionSettings, RecoveryMode, RocksdbOptions};

#[test]
fn recovery_mode_names_and_numbers() {
    assert_eq!(parse_recovery_mode(Some("0")), RecoveryMode::TolerateCorruptedTailRecords);
    assert_eq!(parse_recovery_mode(Some("TolerateCorruptedTailRecords")), RecoveryMode::TolerateCorruptedTailRecords);
    assert_eq!(parse_recovery_mode(Some("1")), RecoveryMode::AbsoluteConsistency);
    assert_eq!(parse_recovery_mode(Some("AbsoluteConsistency")), RecoveryMode::AbsoluteConsistency);
    assert_eq!(parse_recovery_mode(Some("2")), RecoveryMode::PointInTime);
    assert_eq!(parse_recovery_mode(Some("PointInTime")), RecoveryMode::PointInTime);
    assert_eq!(parse_recovery_mode(Some("3")), RecoveryMode::SkipAnyCorruptedRecord);
    assert_eq!(parse_recovery_mode(Some("SkipAnyCorruptedRecord")), RecoveryMode::SkipAnyCorruptedRecord);
    assert_eq!(parse_recovery_mode(None), RecoveryMode::PointInTime);
    assert_eq!(parse_recovery_mode(Some("absoluteconsistency")), RecoveryMode::PointInTime);
    assert_eq!(parse_recovery_mode(Some("")), RecoveryMode::PointInTime);
}

#[test]
fn recovery_mode_ignores_surrounding_white_space() {
    assert_eq!(parse_recovery_mode(Some("  1 ")), RecoveryMode::AbsoluteConsistency);
    assert_eq!(parse_recovery_mode(Some("\tSkipAnyCorruptedRecord\n")), RecoveryMode::SkipAnyCorruptedRecord);
    assert_eq!(parse_recovery_mode(Some("\u{3000}0\u{a0}")), RecoveryMode::TolerateCorruptedTailRecords);
    assert_eq!(parse_recovery_mode(Some("1 1")), RecoveryMode::PointInTime);
    assert_eq!(parse_recovery_mode(Some("   ")), RecoveryMode::PointInTime);
}

#[test]
fn default_options() {
    let o = RocksdbOptions::default();
    assert!(o.create_if_missing);
    assert!(o.atomic_flush);
    assert_eq!(o.log_file_num, Some(2));
    assert_eq!(o.log_file_size, Some(20 * 1000 * 1000));
    assert_eq!(o.use_fsync, Some(true));
    assert_eq!(o.wal_ttl_seconds, Some(0));
    assert_eq!(o.wal_size_limit_mb, Some(0));
    assert_eq!(o.wal_recovery_mode.as_deref(), Some("AbsoluteConsistency"));
    assert_eq!(o.manual_wal_flush, Some(false));
}

#[test]
fn default_options_settings() {
    let s = RocksdbOptions::default().option_settings();
    assert_eq!(
        s,
        OptionSettings {
            create_if_missing: true,
            atomic_flush: true,
            keep_log_file_num: 2,
            max_log_file_size: 20_000_000,
            use_fsync: true,
            wal_ttl_seconds: None,
            wal_size_limit_mb: None,
            wal_recovery_mode: RecoveryMode::AbsoluteConsistency,
            manual_wal_flush: false,
        }
    );
}

#[test]
fn absent_options_take_defaults_and_limits_apply_when_positive() {
    let o = RocksdbOptions {
        create_if_missing: false,
        atomic_flush: false,
        log_file_num: None,
        log_file_size: None,
        use_fsync: None,
        wal_ttl_seconds: None,
        wal_size_limit_mb: None,
        wal_recovery_mode: None,
        manual_wal_flush: None,
    };
    let s = o.option_settings();
    assert!(!s.create_if_missing);
    assert!(!s.atomic_flush);
    assert_eq!(s.keep_log_file_num, 2);
    assert_eq!(s.max_log_file_size, 20_000_000);
    assert!(s.use_fsync);
    assert_eq!(s.wal_ttl_seconds, None);
    assert_eq!(s.wal_size_limit_mb, None);
    assert_eq!(s.wal_recovery_mode, RecoveryMode::PointInTime);
    assert!(!s.manual_wal_flush);

    let o = RocksdbOptions {
        create_if_missing: true,
        atomic_flush: false,
        log_file_num: Some(7),
        log_file_size: Some(1024),
        use_fsync: Some(false),
        wal_ttl_seconds: Some(60),
        wal_size_limit_mb: Some(512),
        wal_recovery_mode: Some(String::from(" 3 ")),
        manual_wal_flush: Some(true),
    };
    let s = o.option_settings();
    assert_eq!(s.keep_log_file_num, 7);
    assert_eq!(s.max_log_file_size, 1024);
    assert!(!s.use_fsync);
    assert_eq!(s.wal_ttl_seconds, Some(60));
    assert_eq!(s.wal_size_limit_mb, Some(512));
    assert_eq!(s.wal_recovery_mode, RecoveryMode::SkipAnyCorruptedRecord);
    assert!(s.manual_wal_flush);
}
