//! Data levels: every stored value is framed as `[SEG, level, SEG, data...]`.
//!
//! A value without that three-byte header has the default level. Data of a
//! level may only replace stored data whose level is not below it, unless the
//! write is forced.

use vstd::prelude::*;
use vstd::string::StringSliceAdditionalSpecFns;
use crate::error::DbError;

verus! {

/// The separator byte around the level (`b'\n'`).
pub const SEG: u8 = 10;

/// The level of data that carries no level header.
pub const DEFAULT_LEVEL: u8 = 3;

/// Whether `d` starts with a level header.
pub open spec fn has_level_header(d: Seq<u8>) -> bool {
    d.len() >= 3 && d[0] == SEG && d[2] == SEG
}

/// The level of the framed data `d`.
pub open spec fn level_of(d: Seq<u8>) -> u8 {
    if has_level_header(d) {
        d[1]
    } else {
        DEFAULT_LEVEL
    }
}

/// `d` framed with level `lv`.
pub open spec fn with_level(d: Seq<u8>, lv: u8) -> Seq<u8> {
    seq![SEG, lv, SEG] + d
}

/// The payload of the framed data `d`: `d` without its level header, if it has one.
pub open spec fn without_level(d: Seq<u8>) -> Seq<u8> {
    if has_level_header(d) {
        d.skip(3)
    } else {
        d
    }
}

/// Whether data of level `new_lv` may replace the stored data `old`.
pub open spec fn overwrite_allowed(old: Seq<u8>, new_lv: u8, force: bool) -> bool {
    force || new_lv <= level_of(old)
}

fn level_of_bytes(d: &[u8]) -> (lv: u8)
    ensures
        lv == level_of(d@),
{
    if d.len() < 3 {
        DEFAULT_LEVEL
    } else if d[0] == SEG && d[2] == SEG {
        d[1]
    } else {
        DEFAULT_LEVEL
    }
}

fn copy_from(d: &[u8], start: usize) -> (out: Vec<u8>)
    requires
        start <= d@.len(),
    ensures
        out@ == d@.skip(start as int),
{
    let mut out: Vec<u8> = Vec::new();
    let mut i: usize = start;
    while i < d.len()
        invariant
            start <= i <= d@.len(),
            out@ == d@.subrange(start as int, i as int),
        decreases d@.len() - i,
    {
        out.push(d[i]);
        i = i + 1;
    }
    out
}

fn frame_bytes(d: &[u8], lv: u8) -> (out: Vec<u8>)
    ensures
        out@ == with_level(d@, lv),
{
    let mut out: Vec<u8> = Vec::new();
    out.push(SEG);
    out.push(lv);
    out.push(SEG);
    let mut i: usize = 0;
    while i < d.len()
        invariant
            i <= d@.len(),
            out@ == seq![SEG, lv, SEG] + d@.take(i as int),
        decreases d@.len() - i,
    {
        out.push(d[i]);
        proof {
            assert(d@.take(i + 1) == d@.take(i as int).push(d@[i as int]));
        }
        i = i + 1;
    }
    proof {
        assert(d@.take(d@.len() as int) == d@);
    }
    out
}

fn strip_bytes(d: &[u8]) -> (out: Vec<u8>)
    ensures
        out@ == without_level(d@),
{
    if d.len() < 3 {
        copy_from(d, 0)
    } else if d[0] == SEG && d[2] == SEG {
        copy_from(d, 3)
    } else {
        copy_from(d, 0)
    }
}

/// Level framing of byte strings.
pub trait DataLevel {
    /// The bytes that are framed.
    spec fn level_data(&self) -> Seq<u8>;

    /// The bytes that are framed.
    fn level_bytes(&self) -> (b: &[u8])
        ensures
            b@ == self.level_data(),
    ;

    /// The level of this data: the byte between the separators of its header,
    /// or `DEFAULT_LEVEL` when it has no header.
    fn data_lv(&self) -> (lv: u8)
        ensures
            lv == level_of(self.level_data()),
    {
        level_of_bytes(self.level_bytes())
    }

    /// This data framed with level `lv`.
    fn data_with_lv(&self, lv: u8) -> (out: Vec<u8>)
        ensures
            out@ == with_level(self.level_data(), lv),
    {
        frame_bytes(self.level_bytes(), lv)
    }

    /// This data without its level header; data without a header comes back as it is.
    fn data_without_lv(&self) -> (out: Vec<u8>)
        ensures
            out@ == without_level(self.level_data()),
    {
        strip_bytes(self.level_bytes())
    }
}

impl DataLevel for [u8] {
    open spec fn level_data(&self) -> Seq<u8> {
        self@
    }

    fn level_bytes(&self) -> (b: &[u8]) {
        self
    }
}

impl DataLevel for Vec<u8> {
    open spec fn level_data(&self) -> Seq<u8> {
        self@
    }

    fn level_bytes(&self) -> (b: &[u8]) {
        self.as_slice()
    }
}

impl<const N: usize> DataLevel for [u8; N] {
    open spec fn level_data(&self) -> Seq<u8> {
        self@
    }

    fn level_bytes(&self) -> (b: &[u8]) {
        self.as_slice()
    }
}

impl DataLevel for str {
    open spec fn level_data(&self) -> Seq<u8> {
        self.spec_bytes()
    }

    fn level_bytes(&self) -> (b: &[u8]) {
        self.as_bytes()
    }
}

impl DataLevel for String {
    open spec fn level_data(&self) -> Seq<u8> {
        vstd::utf8::encode_utf8(self@)
    }

    fn level_bytes(&self) -> (b: &[u8]) {
        self.as_str().as_bytes()
    }
}

/// Checks that data of level `new_lv` may replace the stored data `old`: it may
/// unless the level of `old` is below `new_lv` and the write is not forced.
pub fn check_level(old: &[u8], new_lv: u8, force: bool) -> (r: Result<(), DbError>)
    ensures
        r is Ok <==> overwrite_allowed(old@, new_lv, force),
        r is Err ==> r == Err::<(), DbError>(DbError::LevelConflict { new_lv, old_lv: level_of(old@) }),
{
    let old_lv = old.data_lv();
    if old_lv < new_lv && !force {
        Err(DbError::LevelConflict { new_lv, old_lv })
    } else {
        Ok(())
    }
}

/// Framing puts the three bytes `[b'\n', lv, b'\n']` before the data; a value
/// that starts with two `b'\n'` bytes around one byte has that byte as its level
/// and the rest as its payload; any other value has level 3 and is its own
/// payload.
pub proof fn lemma_framing_bytes(d: Seq<u8>, lv: u8, raw: Seq<u8>)
    ensures
        with_level(d, lv) == seq![10u8, lv, 10u8] + d,
        raw.len() >= 3 && raw[0] == 10u8 && raw[2] == 10u8 ==> level_of(raw) == raw[1] && without_level(raw)
            == raw.subrange(3, raw.len() as int),
        !(raw.len() >= 3 && raw[0] == 10u8 && raw[2] == 10u8) ==> level_of(raw) == 3u8 && without_level(raw)
            == raw,
        overwrite_allowed(raw, lv, false) <==> lv <= level_of(raw),
        overwrite_allowed(raw, lv, true),
{
    assert(raw.skip(3) =~= raw.subrange(3, raw.len() as int));
}

/// Framing data with a level and reading it back gives that level and the
/// data unchanged.
pub proof fn lemma_level_roundtrip(d: Seq<u8>, lv: u8)
    ensures
        has_level_header(with_level(d, lv)),
        level_of(with_level(d, lv)) == lv,
        without_level(with_level(d, lv)) == d,
        with_level(d, lv).len() == d.len() + 3,
{
    assert(with_level(d, lv).skip(3) =~= d);
}

/// Data without a level header has the default level and is its own payload.
pub proof fn lemma_unframed_data(d: Seq<u8>)
    requires
        !has_level_header(d),
    ensures
        level_of(d) == DEFAULT_LEVEL,
        without_level(d) == d,
{
}

/// Stored data of level `lv` may be replaced by data of any level up to `lv`,
/// and by data of a higher level only when the write is forced.
pub proof fn lemma_overwrite_by_level(d: Seq<u8>, lv: u8, new_lv: u8, force: bool)
    ensures
        overwrite_allowed(with_level(d, lv), new_lv, force) <==> (force || new_lv <= lv),
{
    lemma_level_roundtrip(d, lv);
}

} // verus!
