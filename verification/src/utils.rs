//! Hashing and hex display helpers.

use vstd::prelude::*;

verus! {

/// The SHA-256 digest of `msg`.
pub uninterp spec fn sha256_digest(msg: Seq<u8>) -> Seq<u8>;

/// Calls `sha2::Sha256::digest` (through the `sha2::Digest` trait) and copies
/// the digest out. Trusted: the result is the SHA-256 digest of `msg`, a
/// function of `msg` alone, and it is 32 bytes long (the hasher's output size).
#[verifier::external_body]
fn sha256(msg: &[u8]) -> (d: Vec<u8>)
    ensures
        d@ == sha256_digest(msg@),
        d@.len() == 32,
{
    <sha2::Sha256 as sha2::Digest>::digest(msg).to_vec()
}

/// The lower-case hexadecimal digit for `n` (`n < 16`).
pub open spec fn hex_digit(n: u8) -> char {
    if n < 10 {
        ((48 + n) as u8) as char
    } else {
        ((87 + n) as u8) as char
    }
}

/// Lower-case hexadecimal encoding of `b`, two digits per byte, high nibble first.
pub open spec fn hex_lower(b: Seq<u8>) -> Seq<char>
    decreases b.len(),
{
    if b.len() == 0 {
        Seq::empty()
    } else {
        hex_lower(b.drop_last()) + seq![hex_digit(b.last() / 16), hex_digit(b.last() % 16)]
    }
}

/// Calls `hex::encode`. Trusted: the result is the lower-case hex encoding of
/// `bytes` (the crate's table `0123456789abcdef`, high nibble first).
#[verifier::external_body]
fn hex_encode(bytes: &[u8]) -> (s: String)
    ensures
        s@ == hex_lower(bytes@),
{
    hex::encode(bytes)
}

/// The hex display of `bytes` that shows the first `hl` and the last `el` bytes
/// around `pad`, or all of `bytes` (with no padding) when `hl + el` covers them.
pub open spec fn hide_hex(bytes: Seq<u8>, hl: nat, el: nat, pad: Seq<char>) -> Seq<char> {
    if hl + el >= bytes.len() {
        "0x"@ + hex_lower(bytes)
    } else {
        "0x"@ + hex_lower(bytes.take(hl as int)) + pad + hex_lower(bytes.skip(bytes.len() - el))
    }
}

/// The padding used when none is given.
pub open spec fn default_pad() -> Seq<char> {
    "..."@
}

proof fn lemma_hex_len(b: Seq<u8>)
    ensures
        hex_lower(b).len() == 2 * b.len(),
    decreases b.len(),
{
    if b.len() > 0 {
        lemma_hex_len(b.drop_last());
    }
}

/// The hex encoding of a concatenation is the concatenation of the encodings.
pub proof fn lemma_hex_concat(a: Seq<u8>, b: Seq<u8>)
    ensures
        hex_lower(a + b) == hex_lower(a) + hex_lower(b),
    decreases b.len(),
{
    if b.len() == 0 {
        assert(a + b =~= a);
        assert(hex_lower(a) + hex_lower(b) =~= hex_lower(a));
    } else {
        lemma_hex_concat(a, b.drop_last());
        assert((a + b).drop_last() =~= a + b.drop_last());
        assert((a + b).last() == b.last());
        assert(hex_lower(a + b) =~= hex_lower(a) + hex_lower(b));
    }
}

proof fn lemma_hex_split(b: Seq<u8>, k: int)
    requires
        0 <= k <= b.len(),
    ensures
        hex_lower(b).subrange(0, 2 * k) == hex_lower(b.take(k)),
        hex_lower(b).subrange(2 * k, 2 * (b.len() as int)) == hex_lower(b.skip(k)),
{
    assert(b =~= b.take(k) + b.skip(k));
    lemma_hex_concat(b.take(k), b.skip(k));
    lemma_hex_len(b.take(k));
    lemma_hex_len(b.skip(k));
    lemma_hex_len(b);
    assert(hex_lower(b).subrange(0, 2 * k) =~= hex_lower(b.take(k)));
    assert(hex_lower(b).subrange(2 * k, 2 * (b.len() as int)) =~= hex_lower(b.skip(k)));
}

/// The hex encoding has two characters per byte: at `2i` the digit of the high
/// nibble of byte `i` and at `2i + 1` that of its low nibble, where a nibble
/// below 10 is `'0'` plus the nibble and any other is `'a'` plus the nibble
/// less 10.
pub proof fn lemma_hex_digits(b: Seq<u8>, i: int)
    requires
        0 <= i < b.len(),
    ensures
        hex_lower(b).len() == 2 * b.len(),
        hex_lower(b)[2 * i] == hex_digit(b[i] / 16),
        hex_lower(b)[2 * i + 1] == hex_digit(b[i] % 16),
        forall|n: u8| n < 10 ==> (#[trigger] hex_digit(n)) as u32 == 48 + n,
        forall|n: u8| 10 <= n < 16 ==> (#[trigger] hex_digit(n)) as u32 == 87 + n,
    decreases b.len(),
{
    lemma_hex_len(b);
    lemma_hex_len(b.drop_last());
    if i < b.len() - 1 {
        lemma_hex_digits(b.drop_last(), i);
    }
}

/// When the shown bytes cover the input, the display is `0x` and the full hex
/// encoding, whatever the padding; otherwise it is `0x`, the encoding of the
/// first `hl` bytes, the padding, and the encoding of the last `el` bytes, and
/// its length is `2 + 2 * (hl + el)` plus the padding's.
pub proof fn lemma_hide_hex_layout(bytes: Seq<u8>, hl: nat, el: nat, pad: Seq<char>)
    ensures
        hl + el >= bytes.len() ==> hide_hex(bytes, hl, el, pad) == seq!['0', 'x'] + hex_lower(bytes),
        hl + el < bytes.len() ==> hide_hex(bytes, hl, el, pad) == seq!['0', 'x'] + hex_lower(bytes).subrange(
            0,
            2 * (hl as int),
        ) + pad + hex_lower(bytes).subrange(2 * (bytes.len() - el), 2 * (bytes.len() as int)),
        hl + el < bytes.len() ==> hide_hex(bytes, hl, el, pad).len() == 2 + 2 * (hl + el) + pad.len(),
{
    reveal_strlit("0x");
    assert("0x"@ =~= seq!['0', 'x']);
    if hl + el < bytes.len() {
        lemma_hex_split(bytes, hl as int);
        lemma_hex_split(bytes, bytes.len() - el);
        lemma_hex_len(bytes.take(hl as int));
        lemma_hex_len(bytes.skip(bytes.len() - el));
    }
}

/// Computes the SHA-256 digest of `msg` as raw bytes.
pub fn sha2_hash256(msg: &[u8]) -> (d: Vec<u8>)
    ensures
        d@ == sha256_digest(msg@),
        d@.len() == 32,
{
    sha256(msg)
}

/// Formats `bytes` as `0x`-prefixed lower-case hex that shows the first `hl`
/// and the last `el` bytes with `padding` (default `"..."`) in between; when
/// `hl + el` covers all of `bytes`, all of them are shown with no padding.
pub fn bytes_to_hide_hex(bytes: &[u8], hl: usize, el: usize, padding: Option<&str>) -> (s: String)
    requires
        hl + el <= usize::MAX,
        2 * bytes@.len() <= usize::MAX,
    ensures
        s@ == hide_hex(
            bytes@,
            hl as nat,
            el as nat,
            match padding {
                Some(p) => p@,
                None => default_pad(),
            },
        ),
{
    let length = bytes.len();
    let hex_str = hex_encode(bytes);
    proof {
        lemma_hex_len(bytes@);
    }
    let mut pad_str: &str = "...";
    if let Some(pad) = padding {
        pad_str = pad;
    }
    let mut hl = hl;
    let mut el = el;
    let l = hl + el;
    if l == length {
        pad_str = "";
    } else if l > length {
        hl = length;
        el = 0;
        pad_str = "";
    }
    let mut s = String::from_str("0x");
    s.append(hex_str.as_str().substring_char(0, hl * 2));
    s.append(pad_str);
    s.append(hex_str.as_str().substring_char((length - el) * 2, length * 2));
    proof {
        reveal_strlit("");
        lemma_hex_split(bytes@, hl as int);
        lemma_hex_split(bytes@, (length - el) as int);
        if l >= length {
            assert(bytes@.take(hl as int) + bytes@.skip((length - el) as int) =~= bytes@);
            lemma_hex_concat(bytes@.take(hl as int), bytes@.skip((length - el) as int));
        }
    }
    s
}

/// Shows the first and last six bytes of the SHA-256 digest of `data` as hex.
pub fn debug_hash_data(data: &[u8]) -> (s: String)
    ensures
        s@ == hide_hex(sha256_digest(data@), 6, 6, default_pad()),
{
    let digest = sha2_hash256(data);
    bytes_to_hide_hex(digest.as_slice(), 6, 6, None)
}

} // verus!
