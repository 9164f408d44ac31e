//! Storage-engine options: the user-facing settings with their defaults, and the
//! concrete settings they resolve to.

use vstd::prelude::*;
use crate::text::chars_of;

verus! {

/// Default number of info-log files to keep.
pub const DEFAULT_LOG_FILE_NUM: usize = 2;

/// Default maximum size of an info-log file, in bytes (20 MB).
pub const DEFAULT_LOG_FILE_SIZE: usize = 20000000;

/// User-facing options of the storage engine.
///
/// The `Option` fields fall back to a default when absent: two log files of
/// 20 MB, `fsync` on, no WAL time or size limit, `PointInTime` recovery and
/// automatic WAL flushing.
#[derive(Clone, Debug)]
pub struct RocksdbOptions {
    pub create_if_missing: bool,
    pub atomic_flush: bool,
    /// Number of info-log files to keep (default 2).
    pub log_file_num: Option<usize>,
    /// Maximum size of an info-log file (default 20 MB).
    pub log_file_size: Option<usize>,
    /// Use `fsync` rather than `fdatasync` when flushing writes to disk, so that
    /// data survives several layers of buffering (default on).
    pub use_fsync: Option<bool>,
    /// WAL time-to-live in seconds; 0 keeps WAL files (default 0).
    pub wal_ttl_seconds: Option<u64>,
    /// WAL size limit in MB; 0 means no limit (default 0).
    pub wal_size_limit_mb: Option<u64>,
    /// WAL recovery mode, by name or number: "TolerateCorruptedTailRecords" (0),
    /// "AbsoluteConsistency" (1), "PointInTime" (2, the engine's default),
    /// "SkipAnyCorruptedRecord" (3).
    pub wal_recovery_mode: Option<String>,
    /// When on, writes are not flushed to the WAL automatically.
    pub manual_wal_flush: Option<bool>,
}

/// The WAL recovery modes of the storage engine.
#[derive(Clone, Copy, Debug, PartialEq, Eq, Structural)]
pub enum RecoveryMode {
    TolerateCorruptedTailRecords,
    AbsoluteConsistency,
    PointInTime,
    SkipAnyCorruptedRecord,
}

/// The concrete settings applied to a fresh set of engine options.
///
/// `use_fsync` and `manual_wal_flush` say whether that switch is turned on (it is
/// left at the engine's default otherwise); the WAL limits are set only when
/// present.
#[derive(Clone, Copy, Debug, PartialEq, Eq, Structural)]
pub struct OptionSettings {
    pub create_if_missing: bool,
    pub atomic_flush: bool,
    pub keep_log_file_num: usize,
    pub max_log_file_size: usize,
    pub use_fsync: bool,
    pub wal_ttl_seconds: Option<u64>,
    pub wal_size_limit_mb: Option<u64>,
    pub wal_recovery_mode: RecoveryMode,
    pub manual_wal_flush: bool,
}

/// Whether `c` is white space in the sense of `char::is_whitespace` (the Unicode
/// `White_Space` property).
pub open spec fn is_white_space(c: char) -> bool {
    let u = c as u32;
    ||| 9 <= u <= 13
    ||| u == 32
    ||| u == 0x85
    ||| u == 0xA0
    ||| u == 0x1680
    ||| 0x2000 <= u <= 0x200A
    ||| u == 0x2028
    ||| u == 0x2029
    ||| u == 0x202F
    ||| u == 0x205F
    ||| u == 0x3000
}

/// `s` without its leading white space.
pub open spec fn trim_start(s: Seq<char>) -> Seq<char>
    decreases s.len(),
{
    if s.len() > 0 && is_white_space(s[0]) {
        trim_start(s.drop_first())
    } else {
        s
    }
}

/// `s` without its trailing white space.
pub open spec fn trim_end(s: Seq<char>) -> Seq<char>
    decreases s.len(),
{
    if s.len() > 0 && is_white_space(s.last()) {
        trim_end(s.drop_last())
    } else {
        s
    }
}

/// `s` without leading and trailing white space, as `str::trim` gives it.
pub open spec fn trim(s: Seq<char>) -> Seq<char> {
    trim_end(trim_start(s))
}

/// The recovery mode named by `mode`, surrounding white space ignored; an absent
/// or unknown name gives `PointInTime`.
pub open spec fn recovery_mode_of(mode: Option<Seq<char>>) -> RecoveryMode {
    match mode {
        Some(s) => {
            let t = trim(s);
            if t == "0"@ || t == "TolerateCorruptedTailRecords"@ {
                RecoveryMode::TolerateCorruptedTailRecords
            } else if t == "1"@ || t == "AbsoluteConsistency"@ {
                RecoveryMode::AbsoluteConsistency
            } else if t == "3"@ || t == "SkipAnyCorruptedRecord"@ {
                RecoveryMode::SkipAnyCorruptedRecord
            } else {
                RecoveryMode::PointInTime
            }
        },
        None => RecoveryMode::PointInTime,
    }
}

/// The value of an optional setting, or `default` when it is absent.
pub open spec fn or_default<T>(o: Option<T>, default: T) -> T {
    match o {
        Some(v) => v,
        None => default,
    }
}

/// A WAL limit as it is applied: set when it is above zero, left alone otherwise.
pub open spec fn positive_limit(v: Option<u64>) -> Option<u64> {
    if or_default(v, 0u64) > 0 {
        Some(or_default(v, 0u64))
    } else {
        None
    }
}

/// The view of an optional string as characters.
pub open spec fn opt_chars(s: Option<String>) -> Option<Seq<char>> {
    match s {
        Some(v) => Some(v@),
        None => None,
    }
}

/// The settings that the options `o` resolve to.
pub open spec fn settings_of(o: RocksdbOptions) -> OptionSettings {
    OptionSettings {
        create_if_missing: o.create_if_missing,
        atomic_flush: o.atomic_flush,
        keep_log_file_num: or_default(o.log_file_num, DEFAULT_LOG_FILE_NUM),
        max_log_file_size: or_default(o.log_file_size, DEFAULT_LOG_FILE_SIZE),
        use_fsync: or_default(o.use_fsync, true),
        wal_ttl_seconds: positive_limit(o.wal_ttl_seconds),
        wal_size_limit_mb: positive_limit(o.wal_size_limit_mb),
        wal_recovery_mode: recovery_mode_of(opt_chars(o.wal_recovery_mode)),
        manual_wal_flush: or_default(o.manual_wal_flush, false),
    }
}

proof fn lemma_trim_start_shape(x: Seq<char>)
    ensures
        trim_start(x).len() <= x.len(),
        trim_start(x).len() > 0 ==> !is_white_space(trim_start(x)[0]),
    decreases x.len(),
{
    if x.len() > 0 && is_white_space(x[0]) {
        lemma_trim_start_shape(x.drop_first());
    }
}

proof fn lemma_trim_end_shape(x: Seq<char>)
    ensures
        trim_end(x).len() <= x.len(),
        trim_end(x) == x.take(trim_end(x).len() as int),
        trim_end(x).len() > 0 ==> !is_white_space(trim_end(x).last()),
    decreases x.len(),
{
    if x.len() > 0 && is_white_space(x.last()) {
        lemma_trim_end_shape(x.drop_last());
        assert(x.drop_last().take(trim_end(x).len() as int) =~= x.take(trim_end(x).len() as int));
    } else {
        assert(x.take(x.len() as int) =~= x);
    }
}

/// Trimming twice gives what trimming once gives.
pub proof fn lemma_trim_idempotent(s: Seq<char>)
    ensures
        trim(trim(s)) == trim(s),
{
    let ts = trim_start(s);
    let t = trim_end(ts);
    lemma_trim_start_shape(s);
    lemma_trim_end_shape(ts);
    if t.len() > 0 {
        assert(t[0] == ts[0]);
        assert(trim_start(t) == t);
        assert(trim_end(t) == t);
    } else {
        assert(trim_start(t) == t);
        assert(trim_end(t) == t);
    }
}

/// White space around a recovery-mode name does not change the mode it names.
pub proof fn lemma_recovery_mode_ignores_white_space(s: Seq<char>)
    ensures
        recovery_mode_of(Some(s)) == recovery_mode_of(Some(trim(s))),
{
    lemma_trim_idempotent(s);
}

/// Each resolved setting follows the option it is named after: the two switches
/// are copied as given; an absent log-file count, log-file size, `fsync` switch or
/// manual-flush switch takes 2, 20 000 000, on and off; a WAL limit is applied
/// exactly when it is given and above zero, with its value; and an absent
/// recovery mode gives `PointInTime`.
pub proof fn lemma_settings_follow_options(o: RocksdbOptions)
    ensures
        settings_of(o).create_if_missing == o.create_if_missing,
        settings_of(o).atomic_flush == o.atomic_flush,
        settings_of(o).keep_log_file_num == (match o.log_file_num {
            Some(n) => n,
            None => 2usize,
        }),
        settings_of(o).max_log_file_size == (match o.log_file_size {
            Some(n) => n,
            None => 20000000usize,
        }),
        settings_of(o).use_fsync == (match o.use_fsync {
            Some(b) => b,
            None => true,
        }),
        settings_of(o).manual_wal_flush == (match o.manual_wal_flush {
            Some(b) => b,
            None => false,
        }),
        settings_of(o).wal_ttl_seconds == (match o.wal_ttl_seconds {
            Some(n) => if n > 0 {
                Some(n)
            } else {
                None
            },
            None => None,
        }),
        settings_of(o).wal_size_limit_mb == (match o.wal_size_limit_mb {
            Some(n) => if n > 0 {
                Some(n)
            } else {
                None
            },
            None => None,
        }),
        o.wal_recovery_mode is None ==> settings_of(o).wal_recovery_mode == RecoveryMode::PointInTime,
{
}

/// A name with no white space at either end names the mode it spells: the digit
/// or the full name of each mode, and `PointInTime` for anything else.
pub proof fn lemma_recovery_mode_names(s: Seq<char>)
    requires
        s.len() == 0 || (!is_white_space(s[0]) && !is_white_space(s.last())),
    ensures
        (s == "0"@ || s == "TolerateCorruptedTailRecords"@) ==> recovery_mode_of(Some(s))
            == RecoveryMode::TolerateCorruptedTailRecords,
        (s == "1"@ || s == "AbsoluteConsistency"@) ==> recovery_mode_of(Some(s)) == RecoveryMode::AbsoluteConsistency,
        (s == "3"@ || s == "SkipAnyCorruptedRecord"@) ==> recovery_mode_of(Some(s))
            == RecoveryMode::SkipAnyCorruptedRecord,
        !(s == "0"@ || s == "TolerateCorruptedTailRecords"@ || s == "1"@ || s == "AbsoluteConsistency"@ || s
            == "3"@ || s == "SkipAnyCorruptedRecord"@) ==> recovery_mode_of(Some(s)) == RecoveryMode::PointInTime,
{
    reveal_strlit("0");
    reveal_strlit("1");
    reveal_strlit("3");
    reveal_strlit("TolerateCorruptedTailRecords");
    reveal_strlit("AbsoluteConsistency");
    reveal_strlit("SkipAnyCorruptedRecord");
    assert(trim_start(s) == s);
    assert(trim_end(s) == s);
    assert(trim(s) == s);
}

fn is_white_space_char(c: char) -> (r: bool)
    ensures
        r == is_white_space(c),
{
    let u = c as u32;
    (9 <= u && u <= 13) || u == 32 || u == 0x85 || u == 0xA0 || u == 0x1680 || (0x2000 <= u && u
        <= 0x200A) || u == 0x2028 || u == 0x2029 || u == 0x202F || u == 0x205F || u == 0x3000
}

/// The bounds of `s` without leading and trailing white space.
fn trim_bounds(cs: &Vec<char>) -> (r: (usize, usize))
    ensures
        r.0 <= r.1 <= cs@.len(),
        cs@.subrange(r.0 as int, r.1 as int) == trim(cs@),
{
    let n = cs.len();
    let mut a: usize = 0;
    assert(cs@.skip(0) =~= cs@);
    while a < n && is_white_space_char(cs[a])
        invariant
            a <= n == cs@.len(),
            trim_start(cs@) == trim_start(cs@.skip(a as int)),
        decreases n - a,
    {
        proof {
            assert(cs@.skip(a as int).drop_first() =~= cs@.skip(a + 1));
        }
        a = a + 1;
    }
    assert(trim_start(cs@) == cs@.subrange(a as int, n as int)) by {
        assert(cs@.skip(a as int) =~= cs@.subrange(a as int, n as int));
    }
    let mut b: usize = n;
    while b > a && is_white_space_char(cs[b - 1])
        invariant
            a <= b <= n == cs@.len(),
            trim(cs@) == trim_end(cs@.subrange(a as int, b as int)),
        decreases b,
    {
        proof {
            assert(cs@.subrange(a as int, b as int).drop_last() =~= cs@.subrange(a as int, b - 1));
        }
        b = b - 1;
    }
    (a, b)
}

fn range_is(cs: &Vec<char>, a: usize, b: usize, lit: &str) -> (r: bool)
    requires
        a <= b <= cs@.len(),
    ensures
        r == (cs@.subrange(a as int, b as int) == lit@),
{
    let n = lit.unicode_len();
    if b - a != n {
        return false;
    }
    let mut i: usize = 0;
    while i < n
        invariant
            n == lit@.len() == b - a,
            a <= b <= cs@.len(),
            i <= n,
            forall|j: int| 0 <= j < i ==> cs@[a + j] == lit@[j],
        decreases n - i,
    {
        if cs[a + i] != lit.get_char(i) {
            assert(cs@.subrange(a as int, b as int)[i as int] != lit@[i as int]);
            return false;
        }
        i = i + 1;
    }
    assert(cs@.subrange(a as int, b as int) =~= lit@);
    true
}

/// The recovery mode named by `mode` (see `recovery_mode_of`).
pub fn parse_recovery_mode(mode: Option<&str>) -> (m: RecoveryMode)
    ensures
        m == recovery_mode_of(
            match mode {
                Some(s) => Some(s@),
                None => None,
            },
        ),
{
    match mode {
        None => RecoveryMode::PointInTime,
        Some(s) => {
            let cs = chars_of(s);
            let (a, b) = trim_bounds(&cs);
            if range_is(&cs, a, b, "0") || range_is(&cs, a, b, "TolerateCorruptedTailRecords") {
                RecoveryMode::TolerateCorruptedTailRecords
            } else if range_is(&cs, a, b, "1") || range_is(&cs, a, b, "AbsoluteConsistency") {
                RecoveryMode::AbsoluteConsistency
            } else if range_is(&cs, a, b, "3") || range_is(&cs, a, b, "SkipAnyCorruptedRecord") {
                RecoveryMode::SkipAnyCorruptedRecord
            } else {
                RecoveryMode::PointInTime
            }
        },
    }
}

impl RocksdbOptions {
    /// The settings these options resolve to: each absent value takes its default,
    /// the WAL limits are set only when above zero, and the recovery mode is parsed
    /// from its name.
    pub fn option_settings(&self) -> (s: OptionSettings)
        ensures
            s == settings_of(*self),
    {
        let wal_ttl = match self.wal_ttl_seconds {
            Some(v) => v,
            None => 0,
        };
        let wal_limit = match self.wal_size_limit_mb {
            Some(v) => v,
            None => 0,
        };
        let mode = match &self.wal_recovery_mode {
            Some(m) => parse_recovery_mode(Some(m.as_str())),
            None => parse_recovery_mode(None),
        };
        OptionSettings {
            create_if_missing: self.create_if_missing,
            atomic_flush: self.atomic_flush,
            keep_log_file_num: match self.log_file_num {
                Some(v) => v,
                None => DEFAULT_LOG_FILE_NUM,
            },
            max_log_file_size: match self.log_file_size {
                Some(v) => v,
                None => DEFAULT_LOG_FILE_SIZE,
            },
            use_fsync: match self.use_fsync {
                Some(v) => v,
                None => true,
            },
            wal_ttl_seconds: if wal_ttl > 0 {
                Some(wal_ttl)
            } else {
                None
            },
            wal_size_limit_mb: if wal_limit > 0 {
                Some(wal_limit)
            } else {
                None
            },
            wal_recovery_mode: mode,
            manual_wal_flush: match self.manual_wal_flush {
                Some(v) => v,
                None => false,
            },
        }
    }
}

impl Default for RocksdbOptions {
    /// Durable defaults: create the database when missing, atomic flushes, two
    /// log files of 20 MB, `fsync`, no WAL limits, `AbsoluteConsistency` recovery
    /// and automatic WAL flushing.
    fn default() -> (o: Self)
        ensures
            o.create_if_missing,
            o.atomic_flush,
            o.log_file_num == Some(DEFAULT_LOG_FILE_NUM),
            o.log_file_size == Some(DEFAULT_LOG_FILE_SIZE),
            o.use_fsync == Some(true),
            o.wal_ttl_seconds == Some(0u64),
            o.wal_size_limit_mb == Some(0u64),
            opt_chars(o.wal_recovery_mode) == Some("AbsoluteConsistency"@),
            o.manual_wal_flush == Some(false),
    {
        RocksdbOptions {
            create_if_missing: true,
            atomic_flush: true,
            log_file_num: Some(DEFAULT_LOG_FILE_NUM),
            log_file_size: Some(DEFAULT_LOG_FILE_SIZE),
            use_fsync: Some(true),
            wal_ttl_seconds: Some(0),
            wal_size_limit_mb: Some(0),
            wal_recovery_mode: Some(String::from_str("AbsoluteConsistency")),
            manual_wal_flush: Some(false),
        }
    }
}

} // verus!
