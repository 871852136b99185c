use vstd::prelude::*;
use vstd::bytes::{spec_u64_to_le_bytes, u64_to_le_bytes};
use vstd::slice::slice_to_vec;
use vstd::utf8::encode_utf8;
use crate::text::{hex_lower, push_hex};

verus! {

/// What BLAKE3 digests a byte string to (32 bytes).
pub uninterp spec fn blake3_digest(input: Seq<u8>) -> Seq<u8>;

/// Calls `blake3::hash` and hands back the digest's 32 bytes.
/// Claimed of it: the bytes are a function of the input alone, named
/// `blake3_digest`; nothing is claimed about their value.
#[verifier::external_body]
fn blake3_hash(input: &[u8]) -> (digest: [u8; 32])
    ensures
        digest@ == blake3_digest(input@),
{
    *blake3::hash(input).as_bytes()
}

/// The bytes a cache key is derived from: the path's UTF-8 encoding
/// followed by the modification time in seconds, little-endian.
pub open spec fn key_input(path: Seq<char>, mtime_secs: u64) -> Seq<u8> {
    encode_utf8(path) + spec_u64_to_le_bytes(mtime_secs)
}

/// A content-addressed cache key derived from a file's path and mtime:
/// the 32-byte BLAKE3 digest of `key_input`.
#[derive(Debug, Clone, Copy, PartialEq, Eq, Hash)]
pub struct CacheKey {
    bytes: [u8; 32],
}

impl View for CacheKey {
    type V = Seq<u8>;

    closed spec fn view(&self) -> Seq<u8> {
        self.bytes@
    }
}

impl CacheKey {
    /// Compute a key from a file path and its last-modified time, in whole
    /// seconds since the Unix epoch (0 for times before it).
    pub fn compute(path: &str, mtime_secs: u64) -> (key: Self)
        ensures
            key@ == blake3_digest(key_input(path@, mtime_secs)),
    {
        let mut input = slice_to_vec(path.as_bytes());
        let mut secs = u64_to_le_bytes(mtime_secs);
        input.append(&mut secs);
        CacheKey { bytes: blake3_hash(input.as_slice()) }
    }

    /// The key's 32 digest bytes.
    pub fn as_bytes(&self) -> (b: [u8; 32])
        ensures
            b@ == self@,
    {
        self.bytes
    }

    /// Lower-case hexadecimal text of the key (64 characters), used as the
    /// on-disk file name.
    pub fn to_hex(self) -> (s: String)
        ensures
            s@ == hex_lower(self@),
    {
        let mut s = String::new();
        push_hex(&mut s, &self.bytes);
        assert(s@ =~= hex_lower(self@));
        s
    }
}

#[verifier::external_type_specification]
#[verifier::external_body]
pub struct ExSystemTime(std::time::SystemTime);

/// What `SystemTime::duration_since(UNIX_EPOCH)` gives for a time: the time
/// past the epoch, or `None` for a time before it.
pub uninterp spec fn std_duration_since_epoch(t: std::time::SystemTime) -> Option<std::time::Duration>;

/// What `Duration::as_secs` gives: the whole seconds of a duration.
pub uninterp spec fn std_duration_secs(d: std::time::Duration) -> u64;

/// Calls `SystemTime::duration_since(UNIX_EPOCH)`, with `None` in place of
/// the error it gives for times before the epoch; a function of the time,
/// named `std_duration_since_epoch`.
#[verifier::external_body]
fn duration_since_epoch(t: std::time::SystemTime) -> (d: Option<std::time::Duration>)
    ensures
        d == std_duration_since_epoch(t),
{
    t.duration_since(std::time::SystemTime::UNIX_EPOCH).ok()
}

/// Calls `Duration::as_secs`: the whole seconds, named `std_duration_secs`.
#[verifier::external_body]
fn duration_secs(d: std::time::Duration) -> (secs: u64)
    ensures
        secs == std_duration_secs(d),
{
    d.as_secs()
}

/// The modification time a key is computed from: whole seconds past the
/// Unix epoch, and 0 for a time before it (a zero duration).
pub fn mtime_secs(t: std::time::SystemTime) -> (secs: u64)
    ensures
        secs == match std_duration_since_epoch(t) {
            Some(d) => std_duration_secs(d),
            None => 0,
        },
{
    match duration_since_epoch(t) {
        Some(d) => duration_secs(d),
        None => 0,
    }
}

/// A key is 32 bytes long.
pub proof fn lemma_key_len(k: CacheKey)
    ensures
        k@.len() == 32,
{
}

/// Two different (path, mtime) pairs never feed the same bytes to the hash:
/// equal cache keys from different sources take a BLAKE3 collision.
pub proof fn lemma_key_input_injective(p1: Seq<char>, s1: u64, p2: Seq<char>, s2: u64)
    requires
        key_input(p1, s1) == key_input(p2, s2),
    ensures
        p1 == p2,
        s1 == s2,
{
    vstd::bytes::lemma_auto_spec_u64_to_from_le_bytes();
    let e1 = encode_utf8(p1);
    let e2 = encode_utf8(p2);
    let b1 = spec_u64_to_le_bytes(s1);
    let b2 = spec_u64_to_le_bytes(s2);
    let i1 = key_input(p1, s1);
    assert(b1.len() == 8 && b2.len() == 8);
    assert(i1 == e1 + b1);
    assert(i1 == e2 + b2);
    assert(e1.len() == e2.len());
    assert(e1 =~= i1.subrange(0, e1.len() as int));
    assert(e2 =~= i1.subrange(0, e1.len() as int));
    assert(b1 =~= i1.subrange(e1.len() as int, i1.len() as int));
    assert(b2 =~= i1.subrange(e1.len() as int, i1.len() as int));
    vstd::utf8::encode_utf8_decode_utf8(p1);
    vstd::utf8::encode_utf8_decode_utf8(p2);
}

/// The key is a function of the (path, mtime) pair: the same inputs give
/// the same key.
pub proof fn lemma_key_deterministic(k1: CacheKey, k2: CacheKey, path: Seq<char>, mtime_secs: u64)
    requires
        k1@ == blake3_digest(key_input(path, mtime_secs)),
        k2@ == blake3_digest(key_input(path, mtime_secs)),
    ensures
        k1@ == k2@,
{
}

} // verus!
