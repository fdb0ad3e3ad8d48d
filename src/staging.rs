use vstd::prelude::*;
use vstd::utf8::encode_utf8;
use crate::error::CacheError;
use crate::key::{dir_prefix, joined, key_of_url, derive_key, join_path};

verus! {

/// The ASCII decimal digits of `n`, most significant first, without sign.
pub open spec fn digits_of(n: nat) -> Seq<u8>
    decreases n,
{
    if n < 10 {
        seq![(48 + n) as u8]
    } else {
        digits_of(n / 10).push((48 + n % 10) as u8)
    }
}

/// The ASCII decimal form of `n`, with a leading `-` when it is negative.
pub open spec fn decimal_of(n: int) -> Seq<u8> {
    if n < 0 {
        seq![45u8] + digits_of((-n) as nat)
    } else {
        digits_of(n as nat)
    }
}

/// The bytes that name a staging file: the UTF-8 form of the key, an
/// underscore, and the timestamp in decimal.
pub open spec fn payload_spec(key: Seq<char>, micros: int) -> Seq<u8> {
    encode_utf8(key) + seq![95u8] + decimal_of(micros)
}

/// The staging directory under a cache root.
pub open spec fn staging_dir_spec(root: Seq<char>) -> Seq<char> {
    joined(root, seq!['t', 'm', 'p'])
}

/// The staging file called `name` under a cache root.
pub open spec fn staging_path_spec(root: Seq<char>, name: Seq<char>) -> Seq<char> {
    joined(staging_dir_spec(root), name)
}

/// What RFC 4648 base-32 encoding without padding makes of a byte string.
pub uninterp spec fn base32_unpadded(b: Seq<u8>) -> Seq<char>;

/// A character of the RFC 4648 base-32 alphabet: `A` to `Z`, `2` to `7`.
pub open spec fn is_base32_char(c: char) -> bool {
    (65 <= c as u32 <= 90) || (50 <= c as u32 <= 55)
}

/// What the encoding is known to give for `b`: 8 characters for each 5
/// bytes, rounded up, all of them from the base-32 alphabet.
pub open spec fn base32_shape(b: Seq<u8>) -> bool {
    &&& base32_unpadded(b).len() == (8 * b.len() + 4) / 5
    &&& forall|i: int| 0 <= i < base32_unpadded(b).len() ==> is_base32_char(#[trigger] base32_unpadded(b)[i])
}

/// A staging file name: one path component, not empty, made of base-32
/// characters only (so without `/`, `.` or `=`).
pub open spec fn is_staging_name(n: Seq<char>) -> bool {
    n.len() > 0 && forall|i: int| 0 <= i < n.len() ==> is_base32_char(#[trigger] n[i])
}

/// The staging file name for `key` at time `micros`.
pub open spec fn staging_name_spec(key: Seq<char>, micros: int) -> Seq<char> {
    base32_unpadded(payload_spec(key, micros))
}

/// The staging path for the key of a URL at a given timestamp.
pub open spec fn tempfile_spec(root: Seq<char>, key: Seq<char>, micros: int) -> Seq<char> {
    staging_path_spec(root, staging_name_spec(key, micros))
}

proof fn lemma_digits_nonempty(n: nat)
    ensures
        digits_of(n).len() >= 1,
    decreases n,
{
    if n >= 10 {
        lemma_digits_nonempty(n / 10);
    }
}

proof fn lemma_utf8_len(s: Seq<char>)
    ensures
        encode_utf8(s).len() >= s.len(),
    decreases s.len(),
{
    if s.len() > 0 {
        lemma_utf8_len(s.drop_first());
    }
}

/// A staging name is longer than its key: the payload has at least as many
/// bytes as the key has characters, plus an underscore and a digit, and the
/// encoding is no shorter than the payload.
pub proof fn lemma_staging_name_len(key: Seq<char>, micros: int)
    requires
        base32_shape(payload_spec(key, micros)),
    ensures
        staging_name_spec(key, micros).len() >= key.len() + 2,
        is_staging_name(staging_name_spec(key, micros)),
{
    lemma_utf8_len(key);
    if micros < 0 {
        lemma_digits_nonempty((-micros) as nat);
    } else {
        lemma_digits_nonempty(micros as nat);
    }
    let pl = payload_spec(key, micros).len();
    assert(pl >= key.len() + 2);
    assert((8 * pl + 4) / 5 >= pl);
}

/// The staging file of a key never is the file published for any key
/// under the same root: it lies under `tmp/`, and its name is longer than
/// the rest of any key that would put the published file there.
pub proof fn lemma_staging_differs_from_final(root: Seq<char>, key: Seq<char>, micros: int, other: Seq<char>)
    requires
        base32_shape(payload_spec(key, micros)),
        other == key || other.len() <= key.len(),
    ensures
        tempfile_spec(root, key, micros) != joined(root, other),
{
    lemma_staging_name_len(key, micros);
    let n = staging_name_spec(key, micros);
    let d = joined(root, seq!['t', 'm', 'p']);
    assert(d.len() > 0 && d.last() == 'p');
    assert(dir_prefix(d) =~= dir_prefix(root) + seq!['t', 'm', 'p', '/']);
    let st = tempfile_spec(root, key, micros);
    assert(st =~= dir_prefix(root) + (seq!['t', 'm', 'p', '/'] + n));
    if st == joined(root, other) {
        let pre = dir_prefix(root);
        assert(st.subrange(pre.len() as int, st.len() as int) =~= seq!['t', 'm', 'p', '/'] + n);
        assert(joined(root, other).subrange(pre.len() as int, st.len() as int) =~= other);
        assert(other.len() == n.len() + 4);
    }
}

/// Relies on `base32::encode` with the RFC 4648 alphabet and no padding:
/// the text depends on the bytes alone, holds 8 characters for each 5 bytes
/// (rounded up, with the padding cut off), and each is taken from
/// `ABCDEFGHIJKLMNOPQRSTUVWXYZ234567`.
#[verifier::external_body]
fn encode_base32(b: &[u8]) -> (r: String)
    ensures
        r@ == base32_unpadded(b@),
        r@.len() == (8 * b@.len() + 4) / 5,
        forall|i: int| 0 <= i < r@.len() ==> is_base32_char(#[trigger] r@[i]),
{
    base32::encode(base32::Alphabet::RFC4648 { padding: false }, b)
}

/// Relies on chrono's `From<SystemTime> for DateTime<Utc>`, which reads a
/// clock before the epoch as negative seconds, and on
/// `DateTime::timestamp_micros`. Nothing is known of the value.
#[verifier::external_body]
pub(crate) fn now_micros() -> (r: i64) {
    chrono::DateTime::<chrono::Utc>::from(std::time::SystemTime::now()).timestamp_micros()
}

/// Appends the decimal digits of `m` to `out`.
fn push_digits(out: &mut Vec<u8>, m: u64)
    ensures
        final(out)@ == old(out)@ + digits_of(m as nat),
    decreases m,
{
    if m >= 10 {
        push_digits(out, m / 10);
    }
    let d: u8 = (m % 10) as u8;
    out.push(48u8 + d);
    assert(final(out)@ =~= old(out)@ + digits_of(m as nat));
}

/// Appends the decimal form of `n` to `out`.
pub fn push_decimal(out: &mut Vec<u8>, n: i64)
    ensures
        final(out)@ == old(out)@ + decimal_of(n as int),
{
    if n < 0 {
        out.push(45u8);
        let m: u64 = (-(n as i128)) as u64;
        push_digits(out, m);
        assert(final(out)@ =~= old(out)@ + decimal_of(n as int));
    } else {
        push_digits(out, n as u64);
    }
}

/// The bytes that name the staging file of `key` at time `micros`.
pub fn staging_payload(key: &str, micros: i64) -> (r: Vec<u8>)
    ensures
        r@ == payload_spec(key@, micros as int),
{
    let b = key.as_bytes();
    let mut out: Vec<u8> = Vec::new();
    let mut i: usize = 0;
    while i < b.len()
        invariant
            i <= b@.len(),
            b@ == encode_utf8(key@),
            out@ == b@.subrange(0, i as int),
        decreases b@.len() - i,
    {
        out.push(b[i]);
        i = i + 1;
        assert(out@ =~= b@.subrange(0, i as int));
    }
    assert(out@ =~= encode_utf8(key@));
    out.push(95u8);
    push_decimal(&mut out, micros);
    assert(out@ =~= payload_spec(key@, micros as int));
    out
}

/// The staging file called `name` under `cache_root`.
pub fn staging_path(cache_root: &str, name: &str) -> (r: String)
    ensures
        r@ == staging_path_spec(cache_root@, name@),
{
    let tmp: &str = "tmp";
    proof {
        reveal_strlit("tmp");
        assert(tmp@ =~= seq!['t', 'm', 'p']);
    }
    let dir = join_path(cache_root, tmp);
    join_path(dir.as_str(), name)
}

/// The staging path for `url` under `cache_root` at time `micros`.
pub fn tempfile_path_at(cache_root: &str, url: &str, micros: i64) -> (r: Result<String, CacheError>)
    ensures
        match key_of_url(url@) {
            Some(k) => r is Ok && r->Ok_0@ == tempfile_spec(cache_root@, k, micros as int)
                && base32_shape(payload_spec(k, micros as int))
                && is_staging_name(staging_name_spec(k, micros as int)),
            None => r == Err::<String, CacheError>(CacheError::InvalidUrl),
        },
{
    let k = derive_key(url)?;
    let payload = staging_payload(k.as_str(), micros);
    let name = encode_base32(payload.as_slice());
    proof {
        lemma_staging_name_len(k@, micros as int);
    }
    Ok(staging_path(cache_root, name.as_str()))
}

/// A fresh staging path for `url` under `cache_root`, named after the
/// current time in microseconds.
pub fn get_tempfile_path(cache_root: &str, url: &str) -> (r: Result<String, CacheError>)
    ensures
        match key_of_url(url@) {
            Some(k) => r is Ok && exists|t: i64| #![trigger tempfile_spec(cache_root@, k, t as int)]
                r->Ok_0@ == tempfile_spec(cache_root@, k, t as int)
                && base32_shape(payload_spec(k, t as int))
                && is_staging_name(staging_name_spec(k, t as int)),
            None => r == Err::<String, CacheError>(CacheError::InvalidUrl),
        },
{
    let t = now_micros();
    tempfile_path_at(cache_root, url, t)
}

} // verus!
