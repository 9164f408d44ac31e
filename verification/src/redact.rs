//! The debug text of requests, with the client's token left out.

use vstd::prelude::*;
use crate::server::{HttpRequest, RequestType};
use crate::text::{decimal, u8_to_decimal};

verus! {

/// The items joined with `sep` between each two.
pub open spec fn join_with(items: Seq<Seq<char>>, sep: Seq<char>) -> Seq<char>
    decreases items.len(),
{
    if items.len() == 0 {
        Seq::empty()
    } else if items.len() == 1 {
        items[0]
    } else {
        join_with(items.drop_last(), sep) + sep + items.last()
    }
}

/// Debug text of a byte vector, as `{:?}` writes it: `[1, 2, 3]`.
pub open spec fn bytes_text(b: Seq<u8>) -> Seq<char> {
    "["@ + join_with(b.map_values(|x: u8| decimal(x as nat)), ", "@) + "]"@
}

/// Debug text of a pair of byte vectors: `([1], [2])`.
pub open spec fn pair_text(p: (Seq<u8>, Seq<u8>)) -> Seq<char> {
    "("@ + bytes_text(p.0) + ", "@ + bytes_text(p.1) + ")"@
}

/// Debug text of a list of byte-vector pairs.
pub open spec fn pairs_text(ps: Seq<(Vec<u8>, Vec<u8>)>) -> Seq<char> {
    "["@ + join_with(ps.map_values(|p: (Vec<u8>, Vec<u8>)| pair_text((p.0@, p.1@))), ", "@) + "]"@
}

/// Debug text of a list of byte vectors.
pub open spec fn keys_text(ks: Seq<Vec<u8>>) -> Seq<char> {
    "["@ + join_with(ks.map_values(|k: Vec<u8>| bytes_text(k@)), ", "@) + "]"@
}

/// Debug text of a flag.
pub open spec fn bool_text(b: bool) -> Seq<char> {
    if b {
        "true"@
    } else {
        "false"@
    }
}

/// Debug text of a request's operation, as `{:?}` writes it.
pub open spec fn request_type_text(r: RequestType) -> Seq<char> {
    match r {
        RequestType::Get(k) => "Get("@ + bytes_text(k@) + ")"@,
        RequestType::Put(k, v, lv, f) => "Put("@ + bytes_text(k@) + ", "@ + bytes_text(v@) + ", "@ + decimal(
            lv as nat,
        ) + ", "@ + bool_text(f) + ")"@,
        RequestType::PutBatch(ps, lv, f) => "PutBatch("@ + pairs_text(ps@) + ", "@ + decimal(lv as nat)
            + ", "@ + bool_text(f) + ")"@,
        RequestType::Delete(k) => "Delete("@ + bytes_text(k@) + ")"@,
        RequestType::DeleteBatch(ks) => "DeleteBatch("@ + keys_text(ks@) + ")"@,
        RequestType::GetPrefix(k) => "GetPrefix("@ + bytes_text(k@) + ")"@,
        RequestType::DeletePrefix(k) => "DeletePrefix("@ + bytes_text(k@) + ")"@,
    }
}

/// The quoted, escaped form of `s` that `{:?}` writes for a string.
pub uninterp spec fn str_debug(s: Seq<char>) -> Seq<char>;

/// Formats a string with `{:?}`. Trusted: the text is a function of the
/// string's characters alone.
#[verifier::external_body]
fn debug_str(s: &str) -> (t: String)
    ensures
        t@ == str_debug(s@),
{
    format!("{:?}", s)
}

/// The debug text of a request with its token replaced by `[REDACTED]`.
pub open spec fn redacted_request_text(r: HttpRequest) -> Seq<char> {
    "HttpRequest { token: \"[REDACTED]\", req: "@ + request_type_text(r.req) + ", path: "@ + str_debug(
        r.path@,
    ) + " }"@
}

proof fn lemma_join_step(items: Seq<Seq<char>>, i: int, sep: Seq<char>)
    requires
        0 <= i < items.len(),
    ensures
        join_with(items.take(i + 1), sep) == if i == 0 {
            items[0]
        } else {
            join_with(items.take(i), sep) + sep + items[i]
        },
{
    assert(items.take(i + 1).drop_last() =~= items.take(i));
    if i == 0 {
        assert(items.take(1).len() == 1);
    }
}

fn bool_text_of(b: bool) -> (s: &'static str)
    ensures
        s@ == bool_text(b),
{
    if b {
        "true"
    } else {
        "false"
    }
}

fn bytes_text_of(b: &[u8]) -> (s: String)
    ensures
        s@ == bytes_text(b@),
{
    let ghost items = b@.map_values(|x: u8| decimal(x as nat));
    let mut s = String::from_str("[");
    let mut i: usize = 0;
    while i < b.len()
        invariant
            i <= b@.len(),
            items == b@.map_values(|x: u8| decimal(x as nat)),
            s@ == "["@ + join_with(items.take(i as int), ", "@),
        decreases b@.len() - i,
    {
        proof {
            lemma_join_step(items, i as int, ", "@);
        }
        let ghost before = s@;
        if i > 0 {
            s.append(", ");
        }
        s.append(u8_to_decimal(b[i]).as_str());
        proof {
            assert(s@ =~= "["@ + join_with(items.take(i + 1), ", "@));
        }
        i = i + 1;
    }
    proof {
        assert(items.take(b@.len() as int) =~= items);
    }
    s.append("]");
    s
}

fn pairs_text_of(ps: &Vec<(Vec<u8>, Vec<u8>)>) -> (s: String)
    ensures
        s@ == pairs_text(ps@),
{
    let ghost items = ps@.map_values(|p: (Vec<u8>, Vec<u8>)| pair_text((p.0@, p.1@)));
    let mut s = String::from_str("[");
    let mut i: usize = 0;
    while i < ps.len()
        invariant
            i <= ps@.len(),
            items == ps@.map_values(|p: (Vec<u8>, Vec<u8>)| pair_text((p.0@, p.1@))),
            s@ == "["@ + join_with(items.take(i as int), ", "@),
        decreases ps@.len() - i,
    {
        proof {
            lemma_join_step(items, i as int, ", "@);
        }
        if i > 0 {
            s.append(", ");
        }
        s.append("(");
        s.append(bytes_text_of(ps[i].0.as_slice()).as_str());
        s.append(", ");
        s.append(bytes_text_of(ps[i].1.as_slice()).as_str());
        s.append(")");
        proof {
            assert(s@ =~= "["@ + join_with(items.take(i + 1), ", "@));
        }
        i = i + 1;
    }
    proof {
        assert(items.take(ps@.len() as int) =~= items);
    }
    s.append("]");
    s
}

fn keys_text_of(ks: &Vec<Vec<u8>>) -> (s: String)
    ensures
        s@ == keys_text(ks@),
{
    let ghost items = ks@.map_values(|k: Vec<u8>| bytes_text(k@));
    let mut s = String::from_str("[");
    let mut i: usize = 0;
    while i < ks.len()
        invariant
            i <= ks@.len(),
            items == ks@.map_values(|k: Vec<u8>| bytes_text(k@)),
            s@ == "["@ + join_with(items.take(i as int), ", "@),
        decreases ks@.len() - i,
    {
        proof {
            lemma_join_step(items, i as int, ", "@);
        }
        if i > 0 {
            s.append(", ");
        }
        s.append(bytes_text_of(ks[i].as_slice()).as_str());
        proof {
            assert(s@ =~= "["@ + join_with(items.take(i + 1), ", "@));
        }
        i = i + 1;
    }
    proof {
        assert(items.take(ks@.len() as int) =~= items);
    }
    s.append("]");
    s
}

impl RequestType {
    /// The debug text of this operation, as `{:?}` writes it.
    pub fn debug_text(&self) -> (s: String)
        ensures
            s@ == request_type_text(*self),
    {
        match self {
            RequestType::Get(k) => {
                let mut s = String::from_str("Get(");
                s.append(bytes_text_of(k.as_slice()).as_str());
                s.append(")");
                s
            },
            RequestType::Put(k, v, lv, f) => {
                let mut s = String::from_str("Put(");
                s.append(bytes_text_of(k.as_slice()).as_str());
                s.append(", ");
                s.append(bytes_text_of(v.as_slice()).as_str());
                s.append(", ");
                s.append(u8_to_decimal(*lv).as_str());
                s.append(", ");
                s.append(bool_text_of(*f));
                s.append(")");
                s
            },
            RequestType::PutBatch(ps, lv, f) => {
                let mut s = String::from_str("PutBatch(");
                s.append(pairs_text_of(ps).as_str());
                s.append(", ");
                s.append(u8_to_decimal(*lv).as_str());
                s.append(", ");
                s.append(bool_text_of(*f));
                s.append(")");
                s
            },
            RequestType::Delete(k) => {
                let mut s = String::from_str("Delete(");
                s.append(bytes_text_of(k.as_slice()).as_str());
                s.append(")");
                s
            },
            RequestType::DeleteBatch(ks) => {
                let mut s = String::from_str("DeleteBatch(");
                s.append(keys_text_of(ks).as_str());
                s.append(")");
                s
            },
            RequestType::GetPrefix(k) => {
                let mut s = String::from_str("GetPrefix(");
                s.append(bytes_text_of(k.as_slice()).as_str());
                s.append(")");
                s
            },
            RequestType::DeletePrefix(k) => {
                let mut s = String::from_str("DeletePrefix(");
                s.append(bytes_text_of(k.as_slice()).as_str());
                s.append(")");
                s
            },
        }
    }
}

impl HttpRequest {
    /// The debug text of this request, with the token replaced by `[REDACTED]`.
    pub fn redacted_debug(&self) -> (s: String)
        ensures
            s@ == redacted_request_text(*self),
    {
        let mut s = String::from_str("HttpRequest { token: \"[REDACTED]\", req: ");
        s.append(self.req.debug_text().as_str());
        s.append(", path: ");
        s.append(debug_str(self.path.as_str()).as_str());
        s.append(" }");
        s
    }
}

/// The debug text of a request does not depend on its token.
pub proof fn lemma_redacted_text_ignores_token(a: HttpRequest, b: HttpRequest)
    requires
        a.req == b.req,
        a.path@ == b.path@,
    ensures
        redacted_request_text(a) == redacted_request_text(b),
{
}

} // verus!
