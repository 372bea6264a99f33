use eloverblik::cache::{CString, Cache, DiskCache, DiskCacheEnvelope, InMemoryCache};

#[test]
fn lib_it_works() {}

#[test]
fn unwritten_key_is_expired_and_empty() {
    let cache: InMemoryCache<CString> = InMemoryCache::new(3600);
    assert!(cache.has_expired_at("missing", 0));
    assert!(cache.lookup("missing").is_none());
    assert!(cache.has_expired("missing"));
    assert!(cache.get("missing").is_none());
}

#[test]
fn default_lifetime_expires_after_ttl() {
    let mut cache: InMemoryCache<CString> = InMemoryCache::new(3600);
    cache.put_at("k", CString::new("v".to_string()), None, 1000);
    assert!(!cache.has_expired_at("k", 1000));
    assert!(!cache.has_expired_at("k", 4600));
    assert!(cache.has_expired_at("k", 4601));
    assert_eq!(cache.lookup("k").unwrap().expires_at, 4600);
    assert_eq!(cache.lookup("k").unwrap().value.as_str(), "v");
}

#[test]
fn past_expiry_is_expired_at_once() {
    let mut cache: InMemoryCache<CString> = InMemoryCache::new(3600);
    cache.put_at("k", CString::new("v".to_string()), Some(999), 1000);
    assert!(cache.has_expired_at("k", 1000));
}

#[test]
fn put_overwrites_earlier_entry() {
    let mut cache: InMemoryCache<CString> = InMemoryCache::new(10);
    cache.put_at("k", CString::new("a".to_string()), Some(5), 0);
    cache.put_at("k", CString::new("b".to_string()), None, 100);
    assert_eq!(cache.lookup("k").unwrap().value.as_str(), "b");
    assert_eq!(cache.lookup("k").unwrap().expires_at, 110);
}

#[test]
fn trait_put_then_get_and_not_expired() {
    let mut cache: InMemoryCache<CString> = InMemoryCache::new(3600);
    cache.put("k", CString::new("tok".to_string()), None);
    assert_eq!(cache.get("k").unwrap().as_str(), "tok");
    assert!(!cache.has_expired("k"));
}

#[test]
fn default_lifetime_saturates() {
    let mut cache: InMemoryCache<CString> = InMemoryCache::new(i64::MAX);
    cache.put_at("k", CString::new("v".to_string()), None, 10);
    assert_eq!(cache.lookup("k").unwrap().expires_at, i64::MAX);
}

#[test]
fn disk_envelope_round_trip() {
    let disk = DiskCache { path: "cache-dir".to_string(), default_expiration_time_in_secs: 60 };
    let env = disk.seal(b"hello", None, 100);
    assert_eq!(env.expires_in, 160);
    assert_eq!(env.data, "aGVsbG8=");
    let back = DiskCache::unseal(&env).unwrap();
    assert_eq!(back, b"hello".to_vec());
    let env2 = disk.seal(b"", Some(7), 100);
    assert_eq!(env2.expires_in, 7);
    assert_eq!(DiskCache::unseal(&env2).unwrap(), Vec::<u8>::new());
}

#[test]
fn disk_envelope_rejects_bad_base64() {
    let env = DiskCacheEnvelope { expires_in: 0, data: "not base64!".to_string() };
    assert!(DiskCache::unseal(&env).is_none());
}

#[test]
fn disk_envelope_expiry() {
    let env = DiskCacheEnvelope { expires_in: 50, data: String::new() };
    assert!(!DiskCache::envelope_expired(Some(&env), 50));
    assert!(DiskCache::envelope_expired(Some(&env), 51));
    assert!(DiskCache::envelope_expired(None, 0));
}

#[test]
fn cstring_utf8() {
    let c = CString::from_utf8("abc".as_bytes().to_vec()).unwrap();
    assert_eq!(c.as_bytes(), b"abc");
    assert!(CString::from_utf8(vec![0xff, 0xfe]).is_none());
    assert_eq!(c.clone().into_string(), "abc");
}

#[test]
fn cstring_string_conversions() {
    let c: CString = "token".to_string().into();
    assert_eq!(c.as_str(), "token");
    let s: String = c.into();
    assert_eq!(s, "token");
}

#[test]
fn trait_get_returns_expired_value() {
    let mut cache: InMemoryCache<CString> = InMemoryCache::new(3600);
    cache.put("k", CString::new("old".to_string()), Some(1));
    assert!(cache.has_expired("k"));
    assert_eq!(cache.get("k").unwrap().as_str(), "old");
}
