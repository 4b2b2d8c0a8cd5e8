//! Content hashes: the xxHash64 of the bytes (seed 0), as little-endian bytes,
//! in standard base64 with padding.

use vstd::prelude::*;

verus! {

/// The xxHash64 digest of some bytes under a seed.
pub uninterp spec fn xxh64_of(data: Seq<u8>, seed: u64) -> u64;

/// Standard base64 text (RFC 4648 alphabet, `=` padding) of some bytes.
pub uninterp spec fn base64_standard_of(data: Seq<u8>) -> Seq<char>;

/// Relies on `xxhash_rust::xxh64::xxh64`: a function of the bytes and the seed.
#[verifier::external_body]
fn xxh64(data: &[u8], seed: u64) -> (r: u64)
    ensures
        r == xxh64_of(data@, seed),
{
    xxhash_rust::xxh64::xxh64(data, seed)
}

/// Relies on `base64::Engine::encode` with `BASE64_STANDARD`: four characters
/// for each started group of three bytes.
#[verifier::external_body]
fn base64_standard(data: &[u8]) -> (r: String)
    requires
        data@.len() <= usize::MAX / 2,
    ensures
        r@ == base64_standard_of(data@),
        r@.len() == 4 * ((data@.len() + 2) / 3),
{
    base64::Engine::encode(&base64::prelude::BASE64_STANDARD, data)
}

/// The eight bytes of a 64-bit value, least significant first.
pub open spec fn le_bytes(h: u64) -> Seq<u8> {
    seq![
        (h & 0xff) as u8,
        ((h >> 8) & 0xff) as u8,
        ((h >> 16) & 0xff) as u8,
        ((h >> 24) & 0xff) as u8,
        ((h >> 32) & 0xff) as u8,
        ((h >> 40) & 0xff) as u8,
        ((h >> 48) & 0xff) as u8,
        ((h >> 56) & 0xff) as u8,
    ]
}

/// The hash text recorded for content with these bytes.
pub open spec fn content_hash_of(data: Seq<u8>) -> Seq<char> {
    base64_standard_of(le_bytes(xxh64_of(data, 0)))
}

/// The eight bytes of a digest, least significant first.
pub fn digest_bytes(h: u64) -> (r: Vec<u8>)
    ensures
        r@ == le_bytes(h),
{
    let r: Vec<u8> = vec![
        (h & 0xff) as u8,
        ((h >> 8) & 0xff) as u8,
        ((h >> 16) & 0xff) as u8,
        ((h >> 24) & 0xff) as u8,
        ((h >> 32) & 0xff) as u8,
        ((h >> 40) & 0xff) as u8,
        ((h >> 48) & 0xff) as u8,
        ((h >> 56) & 0xff) as u8,
    ];
    assert(r@ =~= le_bytes(h));
    r
}

pub struct Hash {}

impl Hash {
    /// The content hash of some bytes.
    pub fn compute(data: &[u8]) -> (r: String)
        ensures
            r@ == content_hash_of(data@),
            r@.len() == 12,
    {
        let h = xxh64(data, 0);
        let bytes = digest_bytes(h);
        base64_standard(bytes.as_slice())
    }
}

/// Turns standard base64 into its URL-safe form for use in a file name:
/// `+` becomes `-`, `/` becomes `_`, and trailing `=` are dropped.
pub open spec fn base64url_of(s: Seq<char>) -> Seq<char> {
    trim_padding(s.map_values(|c: char| url_safe_char(c)))
}

pub open spec fn url_safe_char(c: char) -> char {
    if c == '+' {
        '-'
    } else if c == '/' {
        '_'
    } else {
        c
    }
}

/// The text with every trailing `=` removed.
pub open spec fn trim_padding(s: Seq<char>) -> Seq<char>
    decreases s.len(),
{
    if s.len() > 0 && s.last() == '=' {
        trim_padding(s.drop_last())
    } else {
        s
    }
}

/// The number of characters left once trailing `=` are removed.
fn unpadded_len(s: &str) -> (n: usize)
    ensures
        n <= s@.len(),
        trim_padding(s@) == s@.subrange(0, n as int),
{
    let len = s.unicode_len();
    let mut n: usize = len;
    proof {
        assert(s@.subrange(0, len as int) =~= s@);
    }
    while n > 0 && s.get_char(n - 1) == '='
        invariant
            n <= len,
            len == s@.len(),
            trim_padding(s@) == trim_padding(s@.subrange(0, n as int)),
        decreases n,
    {
        proof {
            assert(s@.subrange(0, n as int).drop_last() =~= s@.subrange(0, n - 1));
        }
        n = n - 1;
    }
    n
}

pub fn base64_to_base64url(base64_hash: &str) -> (r: String)
    ensures
        r@ == base64url_of(base64_hash@),
{
    let n = unpadded_len(base64_hash);
    let mut out = String::new();
    let mut i: usize = 0;
    while i < n
        invariant
            i <= n,
            n <= base64_hash@.len(),
            trim_padding(base64_hash@) == base64_hash@.subrange(0, n as int),
            out@ == base64_hash@.subrange(0, i as int).map_values(|c: char| url_safe_char(c)),
        decreases n - i,
    {
        let c = base64_hash.get_char(i);
        if c == '+' {
            out.append("-");
        } else if c == '/' {
            out.append("_");
        } else {
            out.append(base64_hash.substring_char(i, i + 1));
        }
        proof {
            reveal_strlit("-");
            reveal_strlit("_");
            assert(base64_hash@.subrange(0, i + 1) =~= base64_hash@.subrange(0, i as int).push(c));
        }
        i = i + 1;
    }
    proof {
        lemma_trim_map(base64_hash@);
    }
    out
}

/// Trailing padding is untouched by the URL-safe mapping, so trimming and
/// mapping commute.
proof fn lemma_trim_map(s: Seq<char>)
    ensures
        trim_padding(s.map_values(|c: char| url_safe_char(c))) == trim_padding(s).map_values(
            |c: char| url_safe_char(c),
        ),
    decreases s.len(),
{
    let m = s.map_values(|c: char| url_safe_char(c));
    if s.len() > 0 && s.last() == '=' {
        assert(m.drop_last() =~= s.drop_last().map_values(|c: char| url_safe_char(c)));
        lemma_trim_map(s.drop_last());
    } else if s.len() > 0 {
        assert(m.last() != '=');
    }
}

} // verus!
