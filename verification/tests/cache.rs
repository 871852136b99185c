use std::time::{Duration, SystemTime};
use spx::cache::{Cache, CacheError, Lookup};
use spx::key::CacheKey;

fn fresh_cache() -> Cache {
    Cache::new(String::from("/tmp/spx-cache-test"), Ok(())).unwrap()
}

fn digest_of(path: &str, secs: u64) -> [u8; 32] {
    let mut input = path.as_bytes().to_vec();
    input.extend_from_slice(&secs.to_le_bytes());
    *blake3::hash(&input).as_bytes()
}

#[test]
fn key_same_inputs_equal() {
    let path = "/tmp/foo.ts";
    let mtime = 1_700_000_000;
    assert_eq!(CacheKey::compute(path, mtime), CacheKey::compute(path, mtime));
}

#[test]
fn key_different_path_differs() {
    let mtime = 1_700_000_000;
    assert_ne!(
        CacheKey::compute("/tmp/a.ts", mtime),
        CacheKey::compute("/tmp/b.ts", mtime),
    );
}

#[test]
fn key_different_mtime_differs() {
    let path = "/tmp/foo.ts";
    assert_ne!(CacheKey::compute(path, 1_000), CacheKey::compute(path, 2_000));
}

#[test]
fn key_is_blake3_of_path_then_le_seconds() {
    let key = CacheKey::compute("/tmp/foo.ts", 1_700_000_000);
    assert_eq!(key.as_bytes(), digest_of("/tmp/foo.ts", 1_700_000_000));
}

#[test]
fn key_hex_matches_blake3_hex() {
    let key = CacheKey::compute("/tmp/a.ts", 1_000);
    let expected = blake3::Hash::from_bytes(digest_of("/tmp/a.ts", 1_000)).to_hex().to_string();
    assert_eq!(key.to_hex(), expected);
    assert_eq!(key.to_hex().len(), 64);
}

#[test]
fn miss_returns_none() {
    let mut cache = fresh_cache();
    let key = CacheKey::compute("/nonexistent.ts", 0);
    match cache.get_by_key(key) {
        Lookup::Miss { file_name } => assert_eq!(file_name, format!("{}.js", key.to_hex())),
        Lookup::Hit(_) => panic!("a fresh cache holds nothing"),
    }
    // No L2 file either: the lookup comes to nothing.
    assert_eq!(cache.read_l2(key, None), None);
}

#[test]
fn l1_hit() {
    let mut cache = fresh_cache();
    let key = CacheKey::compute("/tmp/a.ts", 1_000);
    cache.put_by_key(key, "const x = 1;");
    match cache.get_by_key(key) {
        Lookup::Hit(text) => assert_eq!(&*text, "const x = 1;"),
        Lookup::Miss { .. } => panic!("expected an in-memory hit"),
    }
}

#[test]
fn l2_hit_after_l1_cleared() {
    let mut cache = fresh_cache();
    let key = CacheKey::compute("/tmp/b.ts", 42);
    let file_name = cache.put_by_key(key, "let y = 2;");
    assert_eq!(file_name, format!("{}.js", key.to_hex()));

    let mut cache2 = Cache::new(cache.l2_dir().to_string(), Ok(())).unwrap();
    assert!(matches!(cache2.get_by_key(key), Lookup::Miss { .. }));
    let promoted = cache2.read_l2(key, Some(b"let y = 2;".to_vec()));
    assert_eq!(promoted.as_deref(), Some("let y = 2;"));
    match cache2.get_by_key(key) {
        Lookup::Hit(text) => assert_eq!(text, "let y = 2;"),
        Lookup::Miss { .. } => panic!("the L2 read was promoted into memory"),
    }
}

#[test]
fn l2_invalid_utf8_is_a_miss() {
    let mut cache = fresh_cache();
    let key = CacheKey::compute("/tmp/c.ts", 7);
    assert_eq!(cache.read_l2(key, Some(vec![0xff, 0xfe, 0x00])), None);
    assert_eq!(cache.read_l2(key, None), None);
    assert!(matches!(cache.get_by_key(key), Lookup::Miss { .. }));
}

#[test]
fn put_and_get_by_path() {
    let mut cache = fresh_cache();
    let path = "/tmp/spx-test-z.ts";
    let (key, file_name) = cache.put(path, "const z = 3;", Ok(Some(1_234))).unwrap();
    assert_eq!(key, CacheKey::compute(path, 1_234));
    assert_eq!(file_name, format!("{}.js", key.to_hex()));
    match cache.get(path, Ok(Some(1_234))).unwrap() {
        (k, Lookup::Hit(text)) => {
            assert_eq!(k, key);
            assert_eq!(&*text, "const z = 3;");
        }
        (_, Lookup::Miss { .. }) => panic!("expected a hit"),
    }
    // A newer modification time is a different key: a miss.
    assert!(matches!(cache.get(path, Ok(Some(1_235))).unwrap().1, Lookup::Miss { .. }));
}

#[test]
fn missing_mtime_uses_the_epoch() {
    assert_eq!(
        Cache::key_for_path("/tmp/x.ts", Ok(None)).unwrap(),
        CacheKey::compute("/tmp/x.ts", 0)
    );
}

#[test]
fn get_missing_file_returns_error() {
    let cache = fresh_cache();
    let not_found = std::io::Error::new(std::io::ErrorKind::NotFound, "no such file");
    match cache.get("/no/such/file.ts", Err(not_found)) {
        Err(CacheError::Metadata { path, .. }) => assert_eq!(path, "/no/such/file.ts"),
        _ => panic!("expected a metadata error"),
    }
}

#[test]
fn new_reports_directory_error() {
    let denied = std::io::Error::new(std::io::ErrorKind::PermissionDenied, "denied");
    match Cache::new(String::from("/root/x"), Err(denied)) {
        Err(CacheError::Io { path, .. }) => assert_eq!(path, "/root/x"),
        _ => panic!("expected an I/O error"),
    }
}

#[test]
fn temp_dir_name_is_pid_and_nanos() {
    assert_eq!(spx::cache::temp_dir_name(4242, 1_700_000_000_123_456_789), "spx-cache-4242-1700000000123456789");
    assert_eq!(spx::cache::temp_dir_name(0, 0), "spx-cache-0-0");
}

#[test]
fn l2_file_names_differ_for_different_keys() {
    let a = Cache::l2_file_name(CacheKey::compute("/tmp/a.ts", 1));
    let b = Cache::l2_file_name(CacheKey::compute("/tmp/a.ts", 2));
    assert_ne!(a, b);
    assert!(a.ends_with(".js") && a.len() == 67);
}

#[test]
fn mtime_seconds_since_epoch() {

    assert_eq!(spx::key::mtime_secs(SystemTime::UNIX_EPOCH + Duration::from_millis(5_900)), 5);
    assert_eq!(spx::key::mtime_secs(SystemTime::UNIX_EPOCH - Duration::from_secs(10)), 0);
}

#[test]
fn last_write_wins() {
    let mut cache = fresh_cache();
    let key = CacheKey::compute("/tmp/w.ts", 1);
    let first = cache.put_by_key(key, "a");
    let second = cache.put_by_key(key, "b");
    assert_eq!(first, second);
    assert!(matches!(cache.get_by_key(key), Lookup::Hit(t) if t == "b"));
}
