//! The HTTP front end: its configuration, its requests, the token check that
//! guards them, and the text of its replies.

use vstd::prelude::*;
use vstd::string::StringSliceAdditionalSpecFns;
use crate::config::{OptionSettings, RocksdbOptions, settings_of};
use crate::error::{DbError, error_message};
use crate::text::decimal;

verus! {

/// Configuration of the database server.
#[derive(Clone, Debug)]
pub struct DbConfig {
    pub port: u16,
    pub num_workers: u16,
    pub db_path: String,
    pub token: String,
    pub options: Option<RocksdbOptions>,
}

impl DbConfig {
    /// The engine settings these options resolve to, or `None` when the
    /// configuration gives no options (the engine's own defaults then apply).
    pub fn option_settings(&self) -> (s: Option<OptionSettings>)
        ensures
            match self.options {
                Some(o) => s == Some(settings_of(o)),
                None => s is None,
            },
    {
        match &self.options {
            Some(o) => Some(o.option_settings()),
            None => None,
        }
    }
}

/// The operations a client may ask for.
#[derive(Clone, Debug)]
pub enum RequestType {
    /// Read the value of a key.
    Get(Vec<u8>),
    /// Write a value under a key: key, value, level, force.
    Put(Vec<u8>, Vec<u8>, u8, bool),
    /// Write several pairs at one level: pairs, level, force.
    PutBatch(Vec<(Vec<u8>, Vec<u8>)>, u8, bool),
    /// Delete a key.
    Delete(Vec<u8>),
    /// Delete several keys.
    DeleteBatch(Vec<Vec<u8>>),
    /// Read every key whose stored value begins with a prefix, with its value.
    GetPrefix(Vec<u8>),
    /// Delete every key whose stored value begins with a prefix.
    DeletePrefix(Vec<u8>),
}

/// A request to the server: the client's token, the operation, and the path of
/// the database it applies to.
#[derive(Clone)]
pub struct HttpRequest {
    pub token: String,
    pub req: RequestType,
    pub path: String,
}

/// The label under which the reply to `req` is reported.
pub open spec fn request_label(req: RequestType) -> Seq<char> {
    match req {
        RequestType::Get(..) => "db_get"@,
        RequestType::Put(..) => "db_put"@,
        RequestType::PutBatch(..) => "db_put_batch"@,
        RequestType::Delete(..) => "db_delete"@,
        RequestType::DeleteBatch(..) => "db_delete_batch"@,
        RequestType::GetPrefix(..) => "db_get_prefix"@,
        RequestType::DeletePrefix(..) => "db_delete_prefix"@,
    }
}

impl RequestType {
    /// The label under which the reply to this request is reported.
    pub fn label(&self) -> (l: &'static str)
        ensures
            l@ == request_label(*self),
    {
        match self {
            RequestType::Get(..) => "db_get",
            RequestType::Put(..) => "db_put",
            RequestType::PutBatch(..) => "db_put_batch",
            RequestType::Delete(..) => "db_delete",
            RequestType::DeleteBatch(..) => "db_delete_batch",
            RequestType::GetPrefix(..) => "db_get_prefix",
            RequestType::DeletePrefix(..) => "db_delete_prefix",
        }
    }
}

/// Calls `subtle::ConstantTimeEq::ct_eq` on two byte slices and unwraps the
/// `Choice`. Trusted: the result is 1 when the slices are equal (same length,
/// same bytes) and 0 otherwise.
#[verifier::external_body]
fn ct_eq_bytes(a: &[u8], b: &[u8]) -> (r: u8)
    ensures
        r == (if a@ == b@ {
            1u8
        } else {
            0u8
        }),
{
    subtle::ConstantTimeEq::ct_eq(a, b).unwrap_u8()
}

/// Whether `given` equals the server's token `expected`, compared in constant
/// time over their bytes.
pub fn token_matches(expected: &str, given: &str) -> (ok: bool)
    ensures
        ok == (expected@ == given@),
{
    let r = ct_eq_bytes(expected.as_bytes(), given.as_bytes());
    proof {
        vstd::utf8::encode_utf8_decode_utf8(expected@);
        vstd::utf8::encode_utf8_decode_utf8(given@);
    }
    r != 0
}

/// Admits `request` when its token equals `token`, and answers
/// `Err("Invalid token")` otherwise.
pub fn authorize(token: &str, request: &HttpRequest) -> (r: Result<(), String>)
    ensures
        r is Ok <==> token@ == request.token@,
        r matches Err(m) ==> m@ == "Invalid token"@,
{
    if !token_matches(token, request.token.as_str()) {
        return Err(String::from_str("Invalid token"));
    }
    Ok(())
}

/// What a database operation answers a client with.
#[derive(Clone, Debug)]
pub enum DbReply {
    /// An operation that answers nothing.
    Done,
    /// The value read for a key, if any.
    Value(Option<Vec<u8>>),
    /// The key-value pairs found by a prefix search.
    Entries(Vec<(Vec<u8>, Vec<u8>)>),
}

/// The items of a JSON array separated by commas.
pub open spec fn json_join(items: Seq<Seq<char>>) -> Seq<char>
    decreases items.len(),
{
    if items.len() == 0 {
        Seq::empty()
    } else if items.len() == 1 {
        items[0]
    } else {
        json_join(items.drop_last()) + seq![','] + items.last()
    }
}

/// A compact JSON array of the given items.
pub open spec fn json_array(items: Seq<Seq<char>>) -> Seq<char> {
    seq!['['] + json_join(items) + seq![']']
}

/// Compact JSON of a byte vector: an array of decimal numbers.
pub open spec fn json_bytes(b: Seq<u8>) -> Seq<char> {
    json_array(b.map_values(|x: u8| decimal(x as nat)))
}

/// Compact JSON of an optional byte vector.
pub open spec fn json_opt_bytes(v: Option<Seq<u8>>) -> Seq<char> {
    match v {
        Some(b) => json_bytes(b),
        None => "null"@,
    }
}

/// Compact JSON of a list of byte-vector pairs: an array of two-element arrays.
pub open spec fn json_pairs(ps: Seq<(Seq<u8>, Seq<u8>)>) -> Seq<char> {
    json_array(ps.map_values(|p: (Seq<u8>, Seq<u8>)| json_array(seq![json_bytes(p.0), json_bytes(p.1)])))
}

/// The byte views of a list of pairs.
pub open spec fn pairs_view(ps: Seq<(Vec<u8>, Vec<u8>)>) -> Seq<(Seq<u8>, Seq<u8>)> {
    ps.map_values(|p: (Vec<u8>, Vec<u8>)| (p.0@, p.1@))
}

/// The byte view of an optional vector.
pub open spec fn opt_bytes_view(v: Option<Vec<u8>>) -> Option<Seq<u8>> {
    match v {
        Some(b) => Some(b@),
        None => None,
    }
}

/// The JSON text of a reply.
pub open spec fn reply_json(r: DbReply) -> Seq<char> {
    match r {
        DbReply::Done => "null"@,
        DbReply::Value(v) => json_opt_bytes(opt_bytes_view(v)),
        DbReply::Entries(ps) => json_pairs(pairs_view(ps@)),
    }
}

proof fn lemma_json_join_push(items: Seq<Seq<char>>, y: Seq<char>)
    ensures
        json_join(items.push(y)) == if items.len() == 0 {
            y
        } else {
            json_join(items) + seq![','] + y
        },
{
    assert(items.push(y).drop_last() =~= items);
}

/// The reply to an operation that answers nothing, and to a get of an absent
/// key, is `null`. The reply to a get of a value is a JSON array of its bytes:
/// `[]` for an empty value, `[d]` with the byte in decimal for one byte, and for
/// a longer value the reply for the value without its last byte with `,d]` in
/// place of the closing bracket. It always starts with `[` and ends with `]`.
pub proof fn lemma_value_reply_shape(v: Vec<u8>, w: Vec<u8>, x: u8)
    ensures
        reply_json(DbReply::Done) == "null"@,
        reply_json(DbReply::Value(None)) == "null"@,
        reply_json(DbReply::Value(Some(v))).len() >= 2,
        reply_json(DbReply::Value(Some(v)))[0] == '[',
        reply_json(DbReply::Value(Some(v))).last() == ']',
        v@.len() == 0 ==> reply_json(DbReply::Value(Some(v))) == seq!['[', ']'],
        v@.len() == 1 ==> reply_json(DbReply::Value(Some(v))) == seq!['['] + decimal(v@[0] as nat) + seq![']'],
        (w@.len() > 0 && v@ == w@.push(x)) ==> reply_json(DbReply::Value(Some(v))) == reply_json(
            DbReply::Value(Some(w)),
        ).drop_last() + seq![','] + decimal(x as nat) + seq![']'],
{
    let f = |b: u8| decimal(b as nat);
    let items = v@.map_values(f);
    if v@.len() == 0 {
        assert(items =~= Seq::<Seq<char>>::empty());
        assert(reply_json(DbReply::Value(Some(v))) =~= seq!['[', ']']);
    }
    if v@.len() == 1 {
        assert(items =~= Seq::<Seq<char>>::empty().push(decimal(v@[0] as nat)));
        lemma_json_join_push(Seq::empty(), decimal(v@[0] as nat));
        assert(reply_json(DbReply::Value(Some(v))) =~= seq!['['] + decimal(v@[0] as nat) + seq![']']);
    }
    if w@.len() > 0 && v@ == w@.push(x) {
        let witems = w@.map_values(f);
        assert(items =~= witems.push(decimal(x as nat)));
        lemma_json_join_push(witems, decimal(x as nat));
        let wj = seq!['['] + json_join(witems) + seq![']'];
        assert(wj.drop_last() =~= seq!['['] + json_join(witems));
        assert(reply_json(DbReply::Value(Some(v))) =~= wj.drop_last() + seq![','] + decimal(x as nat) + seq![']']);
    }
}

/// The reply to a prefix read is a JSON array with one `[key,value]` array per
/// entry, each side an array of bytes: `[]` when nothing was found, and for one
/// more entry the earlier reply with `,[key,value]]` (or `[[key,value]]` for the
/// first) in place of the closing bracket.
pub proof fn lemma_entries_reply_shape(ps: Vec<(Vec<u8>, Vec<u8>)>, qs: Vec<(Vec<u8>, Vec<u8>)>, k: Vec<u8>, v: Vec<u8>)
    ensures
        ps@.len() == 0 ==> reply_json(DbReply::Entries(ps)) == seq!['[', ']'],
        ps@ == qs@.push((k, v)) ==> reply_json(DbReply::Entries(ps)) == reply_json(DbReply::Entries(qs)).drop_last()
            + (if qs@.len() == 0 {
            Seq::<char>::empty()
        } else {
            seq![',']
        }) + seq!['['] + json_bytes(k@) + seq![','] + json_bytes(v@) + seq![']', ']'],
{
    let g = |p: (Seq<u8>, Seq<u8>)| json_array(seq![json_bytes(p.0), json_bytes(p.1)]);
    if ps@.len() == 0 {
        assert(pairs_view(ps@) =~= Seq::<(Seq<u8>, Seq<u8>)>::empty());
        assert(pairs_view(ps@).map_values(g) =~= Seq::<Seq<char>>::empty());
        assert(reply_json(DbReply::Entries(ps)) =~= seq!['[', ']']);
    }
    if ps@ == qs@.push((k, v)) {
        let qitems = pairs_view(qs@).map_values(g);
        let pair = json_array(seq![json_bytes(k@), json_bytes(v@)]);
        assert(pairs_view(ps@) =~= pairs_view(qs@).push((k@, v@)));
        assert(pairs_view(ps@).map_values(g) =~= qitems.push(pair));
        lemma_json_join_push(qitems, pair);
        lemma_json_join_push(Seq::empty(), json_bytes(k@));
        lemma_json_join_push(seq![json_bytes(k@)], json_bytes(v@));
        assert(seq![json_bytes(k@)].push(json_bytes(v@)) =~= seq![json_bytes(k@), json_bytes(v@)]);
        assert(Seq::<Seq<char>>::empty().push(json_bytes(k@)) =~= seq![json_bytes(k@)]);
        assert(pair =~= seq!['['] + json_bytes(k@) + seq![','] + json_bytes(v@) + seq![']']);
        let qj = seq!['['] + json_join(qitems) + seq![']'];
        assert(qj.drop_last() =~= seq!['['] + json_join(qitems));
        if qs@.len() == 0 {
            assert(qitems.len() == 0);
        }
        assert(reply_json(DbReply::Entries(ps)) =~= qj.drop_last() + (if qs@.len() == 0 {
            Seq::<char>::empty()
        } else {
            seq![',']
        }) + seq!['['] + json_bytes(k@) + seq![','] + json_bytes(v@) + seq![']', ']']);
    }
}

#[verifier::external_type_specification]
#[verifier::external_body]
pub struct ExJsonError(serde_json::Error);

/// Calls `serde_json::to_string` on `()`. Trusted: it succeeds (the text is
/// written into a `Vec`, and serializing a unit cannot fail) and the text is
/// `null`.
#[verifier::external_body]
fn json_unit() -> (r: Result<String, serde_json::Error>)
    ensures
        r is Ok,
        r->Ok_0@ == "null"@,
{
    serde_json::to_string(&())
}

/// Calls `serde_json::to_string` on an optional byte vector. Trusted: it
/// succeeds (the text is written into a `Vec`, and nothing on the path of an
/// option, a sequence or an integer can fail) and the text is `null` for `None`
/// and a compact array of the bytes in decimal for `Some`.
#[verifier::external_body]
fn json_value(v: &Option<Vec<u8>>) -> (r: Result<String, serde_json::Error>)
    ensures
        r is Ok,
        r->Ok_0@ == json_opt_bytes(opt_bytes_view(*v)),
{
    serde_json::to_string(v)
}

/// Calls `serde_json::to_string` on a list of byte-vector pairs. Trusted: it
/// succeeds (the text is written into a `Vec`, and nothing on the path of a
/// sequence, a tuple or an integer can fail) and the text is a compact array
/// that holds, for each pair, an array of its two byte arrays.
#[verifier::external_body]
fn json_entries(v: &Vec<(Vec<u8>, Vec<u8>)>) -> (r: Result<String, serde_json::Error>)
    ensures
        r is Ok,
        r->Ok_0@ == json_pairs(pairs_view(v@)),
{
    serde_json::to_string(v)
}

/// Formats a `serde_json::Error` with `Debug`. Nothing is promised of the text.
#[verifier::external_body]
fn json_error_text(e: &serde_json::Error) -> (s: String) {
    format!("{:?}", e)
}

/// The reply text for the outcome `result` of the operation labelled `label`:
/// its JSON on success, `db_req failed for: ` and the error's message when the
/// operation failed. (A JSON failure would be reported under the label with
/// `serialize err: `; none of the replies can fail to serialize.)
pub fn call_and_serialize(result: Result<DbReply, DbError>, label: &str) -> (r: Result<String, String>)
    ensures
        result matches Err(e) ==> r matches Err(m) && m@ == "db_req failed for: "@ + error_message(e),
        result matches Ok(v) ==> (r matches Ok(s) && s@ == reply_json(v)),
{
    match result {
        Err(e) => {
            let mut m = String::from_str("db_req failed for: ");
            m.append(e.message().as_str());
            Err(m)
        },
        Ok(v) => {
            let json = match &v {
                DbReply::Done => json_unit(),
                DbReply::Value(val) => json_value(val),
                DbReply::Entries(ps) => json_entries(ps),
            };
            match json {
                Ok(s) => Ok(s),
                Err(e) => {
                    let mut m = String::from_str(label);
                    m.append(" serialize err: ");
                    m.append(json_error_text(&e).as_str());
                    Err(m)
                },
            }
        },
    }
}

} // verus!
