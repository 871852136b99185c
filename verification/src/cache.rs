use vstd::prelude::*;
use std::sync::Arc;
use dashmap::DashMap;
use std::hash::RandomState;
use crate::key::CacheKey;
use crate::text::{hex_lower, decimal, push_decimal, lemma_hex_lower_injective};
use vstd::utf8::{valid_utf8, decode_utf8, encode_utf8};

verus! {

#[verifier::external_type_specification]
#[verifier::external_body]
#[verifier::reject_recursive_types(K)]
#[verifier::reject_recursive_types(V)]
#[verifier::reject_recursive_types(S)]
pub struct ExDashMap<K, V, S>(DashMap<K, V, S>);

#[verifier::external_type_specification]
#[verifier::external_body]
pub struct ExIoError(std::io::Error);

/// What the in-memory (L1) map holds: digest bytes to JavaScript text.
pub uninterp spec fn l1_contents(m: DashMap<[u8; 32], Arc<str>, RandomState>) -> Map<Seq<u8>, Seq<char>>;

/// Calls `DashMap::new`: the new map holds nothing.
#[verifier::external_body]
fn l1_new() -> (fresh: DashMap<[u8; 32], Arc<str>, RandomState>)
    ensures
        l1_contents(fresh).is_empty(),
{
    DashMap::new()
}

/// Calls `DashMap::get` and copies out the text stored under `key`, if any.
#[verifier::external_body]
fn l1_get(m: &DashMap<[u8; 32], Arc<str>, RandomState>, key: &[u8; 32]) -> (r: Option<String>)
    ensures
        match r {
            Some(v) => l1_contents(*m).contains_key(key@) && v@ == l1_contents(*m)[key@],
            None => !l1_contents(*m).contains_key(key@),
        },
{
    match m.get(key) {
        Some(entry) => Some(entry.value().to_string()),
        None => None,
    }
}

/// Calls `DashMap::insert`: afterwards `key` maps to `text` and every other
/// entry is as it was.
#[verifier::external_body]
fn l1_insert(m: &mut DashMap<[u8; 32], Arc<str>, RandomState>, key: [u8; 32], text: &str)
    ensures
        l1_contents(*final(m)) == l1_contents(*old(m)).insert(key@, text@),
{
    m.insert(key, Arc::from(text));
}


/// Calls `std::str::from_utf8`: a text exactly when the bytes are valid
/// UTF-8, and then one whose encoding is those bytes.
#[verifier::external_body]
fn utf8_text(bytes: &[u8]) -> (r: Option<&str>)
    ensures
        r is Some <==> valid_utf8(bytes@),
        r matches Some(s) ==> encode_utf8(s@) == bytes@,
{
    std::str::from_utf8(bytes).ok()
}

/// Why a cache operation failed.
#[derive(Debug)]
pub enum CacheError {
    /// Creating the L2 directory or writing an L2 file failed.
    Io { path: String, source: std::io::Error },
    /// Reading a source file's metadata failed.
    Metadata { path: String, source: std::io::Error },
}

/// The modification time a key is computed from: the file's, in whole
/// seconds past the epoch, or the epoch itself where the platform gives none.
pub open spec fn mtime_or_epoch(modified: Option<u64>) -> u64 {
    match modified {
        Some(secs) => secs,
        None => 0,
    }
}

/// The name of the L2 file that holds the entry for a key with digest `key`:
/// its lower-case hex followed by `.js`.
pub open spec fn l2_file_name(key: Seq<u8>) -> Seq<char> {
    hex_lower(key) + seq!['.', 'j', 's']
}

/// The name of a fresh cache directory for process `pid` at `nanos`
/// nanoseconds past the epoch: `spx-cache-{pid}-{nanos}`.
pub open spec fn temp_dir_name_text(pid: nat, nanos: nat) -> Seq<char> {
    seq!['s', 'p', 'x', '-', 'c', 'a', 'c', 'h', 'e', '-'] + decimal(pid) + seq!['-'] + decimal(nanos)
}

/// Builds `spx-cache-{pid}-{nanos}`, the name of a fresh cache directory
/// under the system's temporary directory.
pub fn temp_dir_name(pid: u32, nanos: u128) -> (name: String)
    ensures
        name@ == temp_dir_name_text(pid as nat, nanos as nat),
{
    let mut name = String::new();
    name.push('s');
    name.push('p');
    name.push('x');
    name.push('-');
    name.push('c');
    name.push('a');
    name.push('c');
    name.push('h');
    name.push('e');
    name.push('-');
    push_decimal(&mut name, pid as u128);
    name.push('-');
    push_decimal(&mut name, nanos);
    assert(name@ =~= temp_dir_name_text(pid as nat, nanos as nat));
    name
}

/// What a lookup in the in-memory level decides.
pub enum Lookup {
    /// The text was in memory.
    Hit(String),
    /// Not in memory: the L2 file with this name (inside the cache
    /// directory) is to be read and handed to `Cache::read_l2`.
    Miss { file_name: String },
}

/// Two-level transpile cache.
///
/// - L1: a concurrent map in process memory, digest to JavaScript text.
/// - L2: a directory on disk; each entry is a `.js` file named by its key's hex.
///   The files themselves are read and written by the caller, which hands the
///   outcomes to the methods here.
pub struct Cache {
    l1: DashMap<[u8; 32], Arc<str>, RandomState>,
    l2_dir: String,
}

impl Cache {
    /// The in-memory entries: digest to text.
    pub closed spec fn entries(&self) -> Map<Seq<u8>, Seq<char>> {
        l1_contents(self.l1)
    }

    /// The L2 directory.
    pub closed spec fn dir(&self) -> Seq<char> {
        self.l2_dir@
    }

    /// Create a cache backed by `l2_dir`, given the outcome of creating that
    /// directory (and its parents): an I/O error for it is `CacheError::Io`.
    pub fn new(l2_dir: String, created: Result<(), std::io::Error>) -> (r: Result<Self, CacheError>)
        ensures
            match created {
                Ok(()) => r matches Ok(c) && c.entries().is_empty() && c.dir() == l2_dir@,
                Err(e) => r matches Err(CacheError::Io { path, source }) && path@ == l2_dir@
                    && source == e,
            },
    {
        match created {
            Ok(()) => Ok(Cache { l1: l1_new(), l2_dir }),
            Err(e) => Err(CacheError::Io { path: l2_dir, source: e }),
        }
    }

    /// The L2 directory path.
    pub fn l2_dir(&self) -> (d: &str)
        ensures
            d@ == self.dir(),
    {
        self.l2_dir.as_str()
    }

    /// The name of the L2 file for `key`, inside `l2_dir`.
    pub fn l2_file_name(key: CacheKey) -> (name: String)
        ensures
            name@ == l2_file_name(key@),
    {
        let mut name = key.to_hex();
        name.push('.');
        name.push('j');
        name.push('s');
        assert(name@ =~= l2_file_name(key@));
        name
    }

    /// The key for the file at `path`, given the outcome of reading its
    /// metadata: its modification time in whole seconds past the epoch, or
    /// `None` where the platform gives none (the epoch is then used). An
    /// error reading the metadata is `CacheError::Metadata`.
    pub fn key_for_path(path: &str, modified: Result<Option<u64>, std::io::Error>) -> (r: Result<CacheKey, CacheError>)
        ensures
            match modified {
                Ok(m) => r matches Ok(k) && k@ == crate::key::blake3_digest(crate::key::key_input(path@, mtime_or_epoch(m))),
                Err(e) => r matches Err(CacheError::Metadata { path: p, source }) && p@ == path@ && source == e,
            },
    {
        match modified {
            Ok(Some(secs)) => Ok(CacheKey::compute(path, secs)),
            Ok(None) => Ok(CacheKey::compute(path, 0)),
            Err(e) => Err(CacheError::Metadata { path: path.to_owned(), source: e }),
        }
    }

    /// Look `key` up in memory. On a miss the caller reads the named L2 file
    /// and hands what it found to `read_l2`.
    pub fn get_by_key(&self, key: CacheKey) -> (r: Lookup)
        ensures
            match r {
                Lookup::Hit(text) => self.entries().contains_key(key@) && text@ == self.entries()[key@],
                Lookup::Miss { file_name } => !self.entries().contains_key(key@)
                    && file_name@ == l2_file_name(key@),
            },
    {
        let bytes = key.as_bytes();
        match l1_get(&self.l1, &bytes) {
            Some(text) => Lookup::Hit(text),
            None => Lookup::Miss { file_name: Self::l2_file_name(key) },
        }
    }

    /// Take what the L2 file for `key` holds (`None` when it could not be
    /// opened or mapped). Valid UTF-8 is promoted into memory and returned;
    /// anything else is a miss and leaves the cache as it was.
    pub fn read_l2(&mut self, key: CacheKey, contents: Option<Vec<u8>>) -> (r: Option<String>)
        ensures
            final(self).dir() == old(self).dir(),
            match contents {
                Some(bytes) if valid_utf8(bytes@) => r matches Some(text)
                    && text@ == decode_utf8(bytes@)
                    && final(self).entries() == old(self).entries().insert(key@, decode_utf8(bytes@)),
                _ => r is None && final(self).entries() == old(self).entries(),
            },
    {
        match contents {
            Some(bytes) => {
                match utf8_text(bytes.as_slice()) {
                    Some(text) => {
                        proof {
                            vstd::utf8::encode_utf8_decode_utf8(text@);
                        }
                        l1_insert(&mut self.l1, key.as_bytes(), text);
                        Some(text.to_owned())
                    },
                    None => None,
                }
            },
            None => None,
        }
    }

    /// Look up the transpiled JavaScript for the file at `path`, given the
    /// outcome of reading its metadata (see `key_for_path`): the key and
    /// what the in-memory lookup decides. On a miss the caller reads the L2
    /// file and hands it to `read_l2` with that key.
    pub fn get(&self, path: &str, modified: Result<Option<u64>, std::io::Error>) -> (r: Result<(CacheKey, Lookup), CacheError>)
        ensures
            match modified {
                Ok(m) => r matches Ok((k, lookup))
                    && k@ == crate::key::blake3_digest(crate::key::key_input(path@, mtime_or_epoch(m)))
                    && match lookup {
                        Lookup::Hit(text) => self.entries().contains_key(k@) && text@ == self.entries()[k@],
                        Lookup::Miss { file_name } => !self.entries().contains_key(k@)
                            && file_name@ == l2_file_name(k@),
                    },
                Err(e) => r matches Err(CacheError::Metadata { path: p, source }) && p@ == path@ && source == e,
            },
    {
        let key = Self::key_for_path(path, modified)?;
        Ok((key, self.get_by_key(key)))
    }

    /// Store `js` as the transpile output for the file at `path`, given the
    /// outcome of reading its metadata: the key it is stored under and the
    /// L2 file name the caller then writes it to. A metadata error leaves
    /// the cache as it was.
    pub fn put(&mut self, path: &str, js: &str, modified: Result<Option<u64>, std::io::Error>) -> (r: Result<(CacheKey, String), CacheError>)
        ensures
            final(self).dir() == old(self).dir(),
            match modified {
                Ok(m) => r matches Ok((k, file_name))
                    && k@ == crate::key::blake3_digest(crate::key::key_input(path@, mtime_or_epoch(m)))
                    && file_name@ == l2_file_name(k@)
                    && final(self).entries() == old(self).entries().insert(k@, js@),
                Err(e) => r matches Err(CacheError::Metadata { path: p, source }) && p@ == path@ && source == e
                    && final(self).entries() == old(self).entries(),
            },
    {
        let key = Self::key_for_path(path, modified)?;
        let file_name = self.put_by_key(key, js);
        Ok((key, file_name))
    }

    /// Store `js` under `key` in memory; the caller then writes it to the
    /// returned L2 file name inside `l2_dir`.
    pub fn put_by_key(&mut self, key: CacheKey, js: &str) -> (file_name: String)
        ensures
            final(self).dir() == old(self).dir(),
            final(self).entries() == old(self).entries().insert(key@, js@),
            file_name@ == l2_file_name(key@),
    {
        l1_insert(&mut self.l1, key.as_bytes(), js);
        Self::l2_file_name(key)
    }
}


/// The cache is content-addressed: different keys have different L2 files.
pub proof fn lemma_l2_file_names_distinct(k1: CacheKey, k2: CacheKey)
    requires
        k1@ != k2@,
    ensures
        l2_file_name(k1@) != l2_file_name(k2@),
{
    if l2_file_name(k1@) == l2_file_name(k2@) {
        let n1 = l2_file_name(k1@);
        let h1 = hex_lower(k1@);
        let h2 = hex_lower(k2@);
        crate::key::lemma_key_len(k1);
        crate::key::lemma_key_len(k2);
        assert(h1.len() == h2.len());
        assert(h1 =~= n1.subrange(0, h1.len() as int));
        assert(h2 =~= n1.subrange(0, h1.len() as int));
        lemma_hex_lower_injective(k1@, k2@);
    }
}

/// A fresh cache holds nothing: every lookup misses.
pub proof fn lemma_fresh_cache_misses(c: Cache, key: CacheKey)
    requires
        c.entries().is_empty(),
    ensures
        !c.entries().contains_key(key@),
{
}

/// What a read gives back of a write: once `js` has been stored under `key`
/// (by `put_by_key`, or by `read_l2` promoting it), a lookup of `key` hits
/// `js`, and every other key looks up as before.
pub proof fn lemma_lookup_after_store(before: Cache, after: Cache, key: CacheKey, js: Seq<char>)
    requires
        after.entries() == before.entries().insert(key@, js),
    ensures
        after.entries().contains_key(key@),
        after.entries()[key@] == js,
        forall|other: Seq<u8>| other != key@ ==> (after.entries().contains_key(other)
            == before.entries().contains_key(other)),
        forall|other: Seq<u8>| other != key@ && before.entries().contains_key(other) ==>
            after.entries()[other] == before.entries()[other],
{
}


/// Last write wins: after storing `a` and then `b` under `key`, a lookup of
/// `key` gives `b`, and `put_by_key` names the same L2 file both times, so
/// the second write of that file replaces the first.
pub proof fn lemma_last_write_wins(c0: Cache, c1: Cache, c2: Cache, key: CacheKey, a: Seq<char>, b: Seq<char>)
    requires
        c1.entries() == c0.entries().insert(key@, a),
        c2.entries() == c1.entries().insert(key@, b),
    ensures
        c2.entries().contains_key(key@),
        c2.entries()[key@] == b,
        c2.entries().remove(key@) == c0.entries().remove(key@),
{
    assert(c2.entries().remove(key@) =~= c0.entries().remove(key@));
}

} // verus!
