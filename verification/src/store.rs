//! The decisions around each operation of the store: which database paths are
//! accepted, what is written for a put, what a get hands back, which keys a
//! prefix search selects (those whose value begins with the prefix), and which
//! entries it hands back. The storage engine is driven by the
//! caller, which hands each of its results to these functions.

use vstd::prelude::*;
use crate::error::DbError;
use crate::text::chars_of;
use crate::level::{DataLevel, overwrite_allowed, with_level, without_level, level_of, check_level};

verus! {

/// Whether the path component `..` starts at index `i` of `p`.
pub open spec fn parent_component_at(p: Seq<char>, i: int) -> bool {
    &&& 0 <= i
    &&& i + 2 <= p.len()
    &&& p[i] == '.'
    &&& p[i + 1] == '.'
    &&& (i == 0 || p[i - 1] == '/')
    &&& (i + 2 == p.len() || p[i + 2] == '/')
}

/// Whether `p` is an acceptable database path: it is relative (it does not start
/// at the root) and none of its `/`-separated components is `..`. Paths are read
/// as on Unix-like systems, where `/` is the only separator and there are no
/// drive prefixes.
pub open spec fn db_path_allowed(p: Seq<char>) -> bool {
    &&& !(p.len() > 0 && p[0] == '/')
    &&& forall|i: int| !#[trigger] parent_component_at(p, i)
}

/// The location of the database `path` under the base directory `base`.
pub open spec fn full_db_path(base: Seq<char>, path: Seq<char>) -> Seq<char> {
    base + seq!['/'] + path
}

/// Whether `bytes` begins with `prefix`.
pub open spec fn has_prefix(bytes: Seq<u8>, prefix: Seq<u8>) -> bool {
    prefix.len() <= bytes.len() && bytes.take(prefix.len() as int) == prefix
}

/// What a get hands back for the raw stored value `raw`.
pub open spec fn value_read(raw: Option<Seq<u8>>) -> Option<Seq<u8>> {
    match raw {
        Some(d) => Some(without_level(d)),
        None => None,
    }
}

/// Whether a write of level `lv` passes the level check, given what reading
/// the key before the write gave (`Err` when the read failed).
pub open spec fn put_allowed(existing: Result<Option<Vec<u8>>, String>, lv: u8, force: bool) -> bool {
    match existing {
        Ok(Some(old)) => overwrite_allowed(old@, lv, force),
        _ => true,
    }
}

/// Whether `path` is an acceptable database path (see `db_path_allowed`).
pub fn is_db_path_allowed(path: &str) -> (ok: bool)
    ensures
        ok == db_path_allowed(path@),
{
    let cs = chars_of(path);
    let n = cs.len();
    if n > 0 && cs[0] == '/' {
        return false;
    }
    let mut i: usize = 0;
    while i < n
        invariant
            n == cs@.len(),
            cs@ == path@,
            i <= n,
            forall|j: int| 0 <= j < i ==> !#[trigger] parent_component_at(path@, j),
        decreases n - i,
    {
        if n - i >= 2 && cs[i] == '.' && cs[i + 1] == '.' && (i == 0 || cs[i - 1] == '/') && (
        n - i == 2 || cs[i + 2] == '/') {
            assert(parent_component_at(path@, i as int));
            return false;
        }
        i = i + 1;
    }
    assert forall|j: int| !#[trigger] parent_component_at(path@, j) by {
        if 0 <= j < n {
        }
    }
    true
}

/// The location of the database `path` under `base`, or `InvalidPath` when
/// `path` is absolute or has a `..` component.
pub fn db_full_path(base: &str, path: &str) -> (r: Result<String, DbError>)
    ensures
        r is Ok <==> db_path_allowed(path@),
        r matches Ok(full) ==> full@ == full_db_path(base@, path@),
        r matches Err(e) ==> e == (DbError::InvalidPath { path: e->path }) && e->path@ == path@,
{
    if !is_db_path_allowed(path) {
        return Err(DbError::InvalidPath { path: String::from_str(path) });
    }
    let mut full = String::from_str(base);
    full.append("/");
    full.append(path);
    proof {
        reveal_strlit("/");
    }
    Ok(full)
}

/// What a get hands back for the raw value read from the database: the stored
/// payload without its level header, or `None` when the key is absent.
pub fn stored_value(raw: Option<Vec<u8>>) -> (r: Option<Vec<u8>>)
    ensures
        match raw {
            Some(d) => r matches Some(v) && v@ == without_level(d@),
            None => r is None,
        },
{
    match raw {
        Some(d) => Some(d.data_without_lv()),
        None => None,
    }
}

/// The bytes to store for a put of `value` at level `lv`, given what reading the
/// key before the write gave. The write is refused with `LevelConflict` when the
/// key holds data of a lower level and the write is not forced; a failed read
/// does not stop the write.
pub fn prepare_put(existing: &Result<Option<Vec<u8>>, String>, value: &[u8], lv: u8, force: bool) -> (r: Result<Vec<u8>, DbError>)
    ensures
        r is Ok <==> put_allowed(*existing, lv, force),
        r matches Ok(stored) ==> stored@ == with_level(value@, lv),
        r matches Err(e) ==> (existing matches Ok(Some(old)) && e == (DbError::LevelConflict {
            new_lv: lv,
            old_lv: level_of(old@),
        })),
{
    if let Ok(Some(old)) = existing {
        if let Err(e) = check_level(old.as_slice(), lv, force) {
            return Err(e);
        }
    }
    Ok(value.data_with_lv(lv))
}

/// Adds a put of `value` under `key` at level `lv` to the batch `ops`, given what
/// reading `key` gave; the batch is left as it was when the level check refuses
/// the write.
fn add_batch_put(
    ops: &mut Vec<(Vec<u8>, Vec<u8>)>,
    key: Vec<u8>,
    value: &[u8],
    existing: &Result<Option<Vec<u8>>, String>,
    lv: u8,
    force: bool,
) -> (r: Result<(), DbError>)
    ensures
        r is Ok <==> put_allowed(*existing, lv, force),
        r is Ok ==> final(ops)@.len() == old(ops)@.len() + 1
            && final(ops)@.take(old(ops)@.len() as int) == old(ops)@
            && final(ops)@.last().0 == key
            && final(ops)@.last().1@ == with_level(value@, lv),
        r is Err ==> final(ops)@ == old(ops)@,
        r matches Err(e) ==> (existing matches Ok(Some(old)) && e == (DbError::LevelConflict {
            new_lv: lv,
            old_lv: level_of(old@),
        })),
{
    let stored = prepare_put(existing, value, lv, force)?;
    ops.push((key, stored));
    proof {
        assert(ops@.take(old(ops)@.len() as int) == old(ops)@);
    }
    Ok(())
}

fn owned_bytes(k: &[u8]) -> (owned: Vec<u8>)
    ensures
        owned@ == k@,
{
    let mut owned: Vec<u8> = Vec::new();
    let mut i: usize = 0;
    while i < k.len()
        invariant
            i <= k@.len(),
            owned@ == k@.take(i as int),
        decreases k@.len() - i,
    {
        owned.push(k[i]);
        proof {
            assert(k@.take(i + 1) == k@.take(i as int).push(k@[i as int]));
        }
        i = i + 1;
    }
    proof {
        assert(k@.take(k@.len() as int) == k@);
    }
    owned
}

fn starts_with(key: &[u8], prefix: &[u8]) -> (r: bool)
    ensures
        r == has_prefix(key@, prefix@),
{
    if prefix.len() > key.len() {
        return false;
    }
    let mut i: usize = 0;
    while i < prefix.len()
        invariant
            prefix@.len() <= key@.len(),
            i <= prefix@.len(),
            forall|j: int| 0 <= j < i ==> key@[j] == prefix@[j],
        decreases prefix@.len() - i,
    {
        if key[i] != prefix[i] {
            assert(key@.take(prefix@.len() as int)[i as int] != prefix@[i as int]);
            return false;
        }
        i = i + 1;
    }
    assert(key@.take(prefix@.len() as int) =~= prefix@);
    true
}

/// The keys, in the order visited, of the visited key-value pairs whose value
/// begins with `prefix`.
pub open spec fn keys_with_value_prefix(visited: Seq<(Seq<u8>, Seq<u8>)>, prefix: Seq<u8>) -> Seq<Seq<u8>>
    decreases visited.len(),
{
    if visited.len() == 0 {
        Seq::empty()
    } else {
        let rest = keys_with_value_prefix(visited.drop_last(), prefix);
        if has_prefix(visited.last().1, prefix) {
            rest.push(visited.last().0)
        } else {
            rest
        }
    }
}

/// The byte views of a list of keys.
pub open spec fn keys_view(keys: Seq<Vec<u8>>) -> Seq<Seq<u8>> {
    keys.map_values(|k: Vec<u8>| k@)
}

/// A search for the keys whose value begins with a prefix. The caller walks
/// every key-value pair of the database, in the database's order, and hands
/// each one to `visit`; `finish` gives the keys collected.
pub struct PrefixScan {
    prefix: Vec<u8>,
    keys: Vec<Vec<u8>>,
    visited: Ghost<Seq<(Seq<u8>, Seq<u8>)>>,
}

impl PrefixScan {
    /// The prefix searched for.
    pub closed spec fn prefix(&self) -> Seq<u8> {
        self.prefix@
    }

    /// The key-value pairs visited so far, in order.
    pub closed spec fn visited(&self) -> Seq<(Seq<u8>, Seq<u8>)> {
        self.visited@
    }

    /// Whether the keys collected are those of the visited pairs whose value
    /// begins with the prefix.
    pub closed spec fn wf(&self) -> bool {
        keys_view(self.keys@) == keys_with_value_prefix(self.visited@, self.prefix@)
    }

    /// A search for `prefix` that has visited nothing yet.
    pub fn new(prefix: &[u8]) -> (s: Self)
        ensures
            s.wf(),
            s.prefix() == prefix@,
            s.visited() == Seq::<(Seq<u8>, Seq<u8>)>::empty(),
    {
        let s = PrefixScan { prefix: owned_bytes(prefix), keys: Vec::new(), visited: Ghost(Seq::empty()) };
        assert(keys_view(s.keys@) =~= Seq::<Seq<u8>>::empty());
        s
    }

    /// Visits the pair under the iterator (`None` where it has no key or no
    /// value): the key is collected when its value begins with the prefix. The
    /// search goes on exactly when the iterator gave both.
    pub fn visit(&mut self, key: Option<&[u8]>, value: Option<&[u8]>) -> (go_on: bool)
        requires
            old(self).wf(),
        ensures
            final(self).wf(),
            final(self).prefix() == old(self).prefix(),
            go_on <==> (key is Some && value is Some),
            go_on ==> final(self).visited() == old(self).visited().push((key->0@, value->0@)),
            !go_on ==> final(self).visited() == old(self).visited(),
    {
        match (key, value) {
            (Some(k), Some(v)) => {
                let ghost pair = (k@, v@);
                let ghost before = self.visited@;
                if starts_with(v, self.prefix.as_slice()) {
                    self.keys.push(owned_bytes(k));
                }
                self.visited = Ghost(self.visited@.push(pair));
                proof {
                    assert(self.visited@.drop_last() =~= before);
                    assert(keys_view(self.keys@) =~= keys_with_value_prefix(self.visited@, self.prefix@));
                }
                true
            },
            _ => false,
        }
    }

    /// The keys whose value begins with the prefix, in the order visited, or
    /// `Iterator` when the walk ended in an error (`status` holds its text).
    pub fn finish(self, status: Result<(), String>) -> (r: Result<Vec<Vec<u8>>, DbError>)
        requires
            self.wf(),
        ensures
            r is Ok <==> status is Ok,
            r matches Ok(ks) ==> keys_view(ks@) == keys_with_value_prefix(self.visited(), self.prefix()),
            r matches Err(e) ==> e == (DbError::Iterator { message: status->Err_0 }),
    {
        match status {
            Ok(()) => Ok(self.keys),
            Err(message) => Err(DbError::Iterator { message }),
        }
    }
}

/// Adds to `entries` what reading `key` gave: the key with its payload when it
/// holds a value, nothing when it is absent, and `GetKey` when the read failed.
fn add_prefix_entry(
    entries: &mut Vec<(Vec<u8>, Vec<u8>)>,
    key: Vec<u8>,
    read: &Result<Option<Vec<u8>>, String>,
) -> (r: Result<(), DbError>)
    ensures
        r is Ok <==> read is Ok,
        read matches Ok(Some(data)) ==> final(entries)@.len() == old(entries)@.len() + 1
            && final(entries)@.take(old(entries)@.len() as int) == old(entries)@
            && final(entries)@.last().0 == key
            && final(entries)@.last().1@ == without_level(data@),
        !(read matches Ok(Some(_))) ==> final(entries)@ == old(entries)@,
        r matches Err(e) ==> e == (DbError::GetKey { message: read->Err_0 }),
{
    match read {
        Ok(Some(data)) => {
            let payload = data.data_without_lv();
            entries.push((key, payload));
            proof {
                assert(entries@.take(old(entries)@.len() as int) == old(entries)@);
            }
            Ok(())
        },
        Ok(None) => Ok(()),
        Err(message) => Err(DbError::GetKey { message: message.clone() }),
    }
}


/// The index of the first pair of a batch whose write the level check refuses.
pub open spec fn first_refused(items: Seq<(Vec<u8>, Vec<u8>, Result<Option<Vec<u8>>, String>)>, lv: u8, force: bool, i: int) -> bool {
    &&& 0 <= i < items.len()
    &&& !put_allowed(items[i].2, lv, force)
    &&& forall|j: int| 0 <= j < i ==> put_allowed(#[trigger] items[j].2, lv, force)
}

/// The pairs to write for a batch put at level `lv`: `items` holds each key, its
/// value, and what reading the key before the write gave. The batch is written
/// whole or not at all: it is refused, with the conflict of its first refused
/// pair, as soon as one pair fails the level check.
pub fn plan_put_batch(items: Vec<(Vec<u8>, Vec<u8>, Result<Option<Vec<u8>>, String>)>, lv: u8, force: bool) -> (r: Result<Vec<(Vec<u8>, Vec<u8>)>, DbError>)
    ensures
        r is Ok <==> forall|i: int| 0 <= i < items@.len() ==> put_allowed(#[trigger] items@[i].2, lv, force),
        r matches Ok(ops) ==> ops@.len() == items@.len() && forall|i: int| 0 <= i < items@.len() ==> (
        #[trigger] ops@[i]).0@ == items@[i].0@ && ops@[i].1@ == with_level(items@[i].1@, lv),
        r matches Err(e) ==> exists|i: int| first_refused(items@, lv, force, i) && (items@[i].2 matches Ok(Some(old)) && e == (DbError::LevelConflict {
            new_lv: lv,
            old_lv: level_of(old@),
        })),
{
    let mut ops: Vec<(Vec<u8>, Vec<u8>)> = Vec::new();
    let n = items.len();
    let mut i: usize = 0;
    while i < n
        invariant
            n == items@.len(),
            i <= n,
            ops@.len() == i,
            forall|j: int| 0 <= j < i ==> put_allowed(#[trigger] items@[j].2, lv, force),
            forall|j: int| 0 <= j < i ==> (#[trigger] ops@[j]).0@ == items@[j].0@ && ops@[j].1@ == with_level(items@[j].1@, lv),
        decreases n - i,
    {
        let ghost before = ops@;
        let key = owned_bytes(items[i].0.as_slice());
        match add_batch_put(&mut ops, key, items[i].1.as_slice(), &items[i].2, lv, force) {
            Ok(()) => {
                proof {
                    assert forall|j: int| 0 <= j < i + 1 implies (#[trigger] ops@[j]).0@ == items@[j].0@ && ops@[j].1@ == with_level(items@[j].1@, lv) by {
                        if j < i {
                            assert(ops@[j] == ops@.take(i as int)[j]);
                            assert(ops@[j] == before[j]);
                        }
                    }
                }
            },
            Err(e) => {
                assert(first_refused(items@, lv, force, i as int));
                return Err(e);
            },
        }
        i = i + 1;
    }
    Ok(ops)
}

/// The index of the first key of a prefix search whose read failed.
pub open spec fn first_failed_read(reads: Seq<(Vec<u8>, Result<Option<Vec<u8>>, String>)>, i: int) -> bool {
    &&& 0 <= i < reads.len()
    &&& reads[i].1 is Err
    &&& forall|j: int| 0 <= j < i ==> (#[trigger] reads[j]).1 is Ok
}

/// The entries a prefix search hands back, from each key it found with what
/// reading the key gave: the keys that hold a value, in order, each with its
/// payload; keys that turned out absent are left out, and the first failed read
/// fails the whole search with `GetKey`.
pub fn collect_prefix_entries(reads: Vec<(Vec<u8>, Result<Option<Vec<u8>>, String>)>) -> (r: Result<Vec<(Vec<u8>, Vec<u8>)>, DbError>)
    ensures
        r is Ok <==> forall|i: int| 0 <= i < reads@.len() ==> (#[trigger] reads@[i]).1 is Ok,
        r matches Ok(es) ==> es@.len() == present_count(reads@) && forall|i: int|
            0 <= i < reads@.len() && read_present(#[trigger] reads@[i].1) ==> es@[present_count(reads@.take(i)) as int].0@ == reads@[i].0@
                && es@[present_count(reads@.take(i)) as int].1@ == without_level(read_data(reads@[i].1)),
        r matches Err(e) ==> exists|i: int| first_failed_read(reads@, i) && e == (DbError::GetKey { message: reads@[i].1->Err_0 }),
{
    let mut entries: Vec<(Vec<u8>, Vec<u8>)> = Vec::new();
    let n = reads.len();
    let mut i: usize = 0;
    while i < n
        invariant
            n == reads@.len(),
            i <= n,
            entries@.len() == present_count(reads@.take(i as int)),
            forall|j: int| 0 <= j < i ==> (#[trigger] reads@[j]).1 is Ok,
            forall|j: int|
                0 <= j < i && read_present(#[trigger] reads@[j].1) ==> entries@[present_count(reads@.take(j)) as int].0@ == reads@[j].0@
                    && entries@[present_count(reads@.take(j)) as int].1@ == without_level(read_data(reads@[j].1)),
        decreases n - i,
    {
        let ghost before = entries@;
        proof {
            lemma_present_count_step(reads@, i as int);
        }
        let key = owned_bytes(reads[i].0.as_slice());
        match add_prefix_entry(&mut entries, key, &reads[i].1) {
            Ok(()) => {
                proof {
                    assert forall|j: int| 0 <= j < i + 1 && read_present(#[trigger] reads@[j].1) implies entries@[present_count(reads@.take(j)) as int].0@ == reads@[j].0@
                        && entries@[present_count(reads@.take(j)) as int].1@ == without_level(read_data(reads@[j].1)) by {
                        if j < i {
                            lemma_present_count_mono(reads@, j, i as int);
                            lemma_present_count_step(reads@, j);
                            assert(entries@[present_count(reads@.take(j)) as int] == before[present_count(reads@.take(j)) as int]);
                        }
                    }
                }
            },
            Err(e) => {
                assert(first_failed_read(reads@, i as int));
                return Err(e);
            },
        }
        i = i + 1;
    }
    proof {
        assert(reads@.take(n as int) =~= reads@);
    }
    Ok(entries)
}

/// Whether a read found a value.
pub open spec fn read_present(r: Result<Option<Vec<u8>>, String>) -> bool {
    r matches Ok(Some(_))
}

/// The value a successful read found (meaningful when `read_present`).
pub open spec fn read_data(r: Result<Option<Vec<u8>>, String>) -> Seq<u8> {
    match r {
        Ok(Some(d)) => d@,
        _ => Seq::empty(),
    }
}

/// How many of `reads` found a value.
pub open spec fn present_count(reads: Seq<(Vec<u8>, Result<Option<Vec<u8>>, String>)>) -> nat
    decreases reads.len(),
{
    if reads.len() == 0 {
        0
    } else {
        present_count(reads.drop_last()) + if read_present(reads.last().1) {
            1nat
        } else {
            0nat
        }
    }
}

proof fn lemma_present_count_step(reads: Seq<(Vec<u8>, Result<Option<Vec<u8>>, String>)>, i: int)
    requires
        0 <= i < reads.len(),
    ensures
        present_count(reads.take(i + 1)) == present_count(reads.take(i)) + if read_present(reads[i].1) {
            1nat
        } else {
            0nat
        },
{
    assert(reads.take(i + 1).drop_last() =~= reads.take(i));
}

proof fn lemma_present_count_mono(reads: Seq<(Vec<u8>, Result<Option<Vec<u8>>, String>)>, j: int, i: int)
    requires
        0 <= j < i <= reads.len(),
    ensures
        read_present(reads[j].1) ==> present_count(reads.take(j)) < present_count(reads.take(i)),
        present_count(reads.take(j + 1)) <= present_count(reads.take(i)),
    decreases i - j,
{
    lemma_present_count_step(reads, j);
    if j + 1 < i {
        lemma_present_count_mono(reads, j + 1, i);
        lemma_present_count_step(reads, j + 1);
    }
}

/// A prefix read counts no entries over no reads, and one more exactly when
/// the last read found a value.
pub proof fn lemma_present_count_counts(reads: Seq<(Vec<u8>, Result<Option<Vec<u8>>, String>)>, key: Vec<u8>, r: Result<Option<Vec<u8>>, String>)
    ensures
        present_count(Seq::empty()) == 0,
        present_count(reads.push((key, r))) == present_count(reads) + (if r matches Ok(Some(_)) {
            1nat
        } else {
            0nat
        }),
{
    assert(reads.push((key, r)).drop_last() =~= reads);
}

/// A value written by a put is what a later get of it hands back.
pub proof fn lemma_get_after_put(value: Seq<u8>, lv: u8)
    ensures
        value_read(Some(with_level(value, lv))) == Some(value),
{
    crate::level::lemma_level_roundtrip(value, lv);
}

/// A key that was written at level `lv` may be written again at any level up
/// to `lv` without force, and a forced write is never refused.
pub proof fn lemma_rewrite_allowed(stored: Vec<u8>, value: Seq<u8>, lv: u8, new_lv: u8, force: bool)
    requires
        stored@ == with_level(value, lv),
        new_lv <= lv || force,
    ensures
        put_allowed(Ok(Some(stored)), new_lv, force),
{
    crate::level::lemma_level_roundtrip(value, lv);
}

/// A value begins with a prefix exactly when the prefix is no longer than the
/// value and every byte of the prefix equals the value's byte at the same index.
pub proof fn lemma_has_prefix_bytewise(bytes: Seq<u8>, prefix: Seq<u8>)
    ensures
        has_prefix(bytes, prefix) <==> (prefix.len() <= bytes.len() && forall|i: int|
            0 <= i < prefix.len() ==> bytes[i] == prefix[i]),
{
    if prefix.len() <= bytes.len() && forall|i: int| 0 <= i < prefix.len() ==> bytes[i] == prefix[i] {
        assert(bytes.take(prefix.len() as int) =~= prefix);
    }
    if has_prefix(bytes, prefix) {
        assert forall|i: int| 0 <= i < prefix.len() implies bytes[i] == prefix[i] by {
            assert(bytes.take(prefix.len() as int)[i] == bytes[i]);
        }
    }
}

/// A prefix search over no pairs selects nothing; visiting one more pair adds
/// its key at the end exactly when every byte of the prefix equals the value's
/// byte at the same index, and leaves the selection as it was otherwise.
pub proof fn lemma_value_prefix_selection(visited: Seq<(Seq<u8>, Seq<u8>)>, prefix: Seq<u8>, key: Seq<u8>, value: Seq<u8>)
    ensures
        keys_with_value_prefix(Seq::empty(), prefix) == Seq::<Seq<u8>>::empty(),
        keys_with_value_prefix(visited.push((key, value)), prefix) == if prefix.len() <= value.len() && (
        forall|i: int| 0 <= i < prefix.len() ==> value[i] == prefix[i]) {
            keys_with_value_prefix(visited, prefix).push(key)
        } else {
            keys_with_value_prefix(visited, prefix)
        },
{
    lemma_has_prefix_bytewise(value, prefix);
    assert(visited.push((key, value)).drop_last() =~= visited);
}

/// A write at level `lv` over a value stored at level `lv0` (a payload framed as
/// `[b'\n', lv0, b'\n', ...]`) passes the level check exactly when it is forced
/// or `lv <= lv0`; over stored bytes without a level header, exactly when it is
/// forced or `lv <= 3`. Absent keys and failed reads never stop a write.
pub proof fn lemma_put_allowed_by_levels(stored: Vec<u8>, d: Seq<u8>, lv0: u8, lv: u8, force: bool, failed_read: String)
    ensures
        stored@ == seq![10u8, lv0, 10u8] + d ==> (put_allowed(Ok(Some(stored)), lv, force) <==> (force
            || lv <= lv0)),
        !(stored@.len() >= 3 && stored@[0] == 10u8 && stored@[2] == 10u8) ==> (put_allowed(
            Ok(Some(stored)),
            lv,
            force,
        ) <==> (force || lv <= 3)),
        put_allowed(Ok(None), lv, force),
        put_allowed(Err(failed_read), lv, force),
{
}

/// A path is allowed exactly when it does not start with `/` and no `..` stands
/// between separators (or the path's ends).
pub proof fn lemma_db_path_allowed_shape(p: Seq<char>)
    ensures
        db_path_allowed(p) <==> ((p.len() == 0 || p[0] != '/') && !exists|i: int|
            #![trigger p[i]]
            0 <= i && i + 2 <= p.len() && p[i] == '.' && p[i + 1] == '.' && (i == 0 || p[i - 1] == '/')
                && (i + 2 == p.len() || p[i + 2] == '/')),
{
    if exists|i: int|
        #![trigger p[i]]
        0 <= i && i + 2 <= p.len() && p[i] == '.' && p[i + 1] == '.' && (i == 0 || p[i - 1] == '/') && (i + 2
            == p.len() || p[i + 2] == '/') {
        let i = choose|i: int|
            #![trigger p[i]]
            0 <= i && i + 2 <= p.len() && p[i] == '.' && p[i + 1] == '.' && (i == 0 || p[i - 1] == '/') && (i
                + 2 == p.len() || p[i + 2] == '/');
        assert(parent_component_at(p, i));
    }
    if !db_path_allowed(p) && (p.len() == 0 || p[0] != '/') {
        let i = choose|i: int| parent_component_at(p, i);
        assert(0 <= i && i + 2 <= p.len() && p[i] == '.' && p[i + 1] == '.' && (i == 0 || p[i - 1] == '/')
                && (i + 2 == p.len() || p[i + 2] == '/'));
    }
}

/// A trailing `/` does not change whether a non-empty path is allowed.
pub proof fn lemma_db_path_trailing_slash(p: Seq<char>)
    requires
        p.len() > 0,
    ensures
        db_path_allowed(p.push('/')) == db_path_allowed(p),
{
    let q = p.push('/');
    assert(q[0] == p[0]);
    assert forall|i: int| parent_component_at(q, i) implies parent_component_at(p, i) by {
        assert(i + 2 <= p.len());
        assert(q[i] == p[i] && q[i + 1] == p[i + 1]);
        if i > 0 {
            assert(q[i - 1] == p[i - 1]);
        }
        if i + 2 < p.len() {
            assert(q[i + 2] == p[i + 2]);
        }
    }
    assert forall|i: int| parent_component_at(p, i) implies parent_component_at(q, i) by {
        assert(q[i] == p[i] && q[i + 1] == p[i + 1]);
        if i > 0 {
            assert(q[i - 1] == p[i - 1]);
        }
        if i + 2 < p.len() {
            assert(q[i + 2] == p[i + 2]);
        }
    }
}

} // verus!
