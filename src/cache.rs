//! Expiring caches: a value per key with an absolute expiry time, kept in
//! memory or, through an envelope of base64 text, in files on disk.
use vstd::prelude::*;
use base64::Engine;
use crate::calendar::now_timestamp;
use crate::keyed::KeyedStore;

verus! {

/// A key/value store whose entries expire at an absolute time, in seconds
/// since the Unix epoch.
pub trait Cache<T> {
    /// Stores `val` under `key`, to expire at `expiration_time`, or after the
    /// cache's default lifetime when none is given.
    fn put(&mut self, key: &str, val: T, expiration_time: Option<i64>);

    /// The value stored under `key`, whether or not it has expired.
    fn get(&self, key: &str) -> Option<T>;

    /// Whether `key` has no entry or its entry expired before now.
    fn has_expired(&self, key: &str) -> bool;
}

/// The expiry time of an entry stored at `now`: the given time, or `now`
/// plus the default lifetime (saturating at the bounds of `i64`).
pub open spec fn expiry_of(expiration_time: Option<i64>, now: i64, default_ttl: i64) -> int {
    match expiration_time {
        Some(t) => t as int,
        None => {
            let e = now + default_ttl;
            if e > i64::MAX { i64::MAX as int } else if e < i64::MIN { i64::MIN as int } else { e }
        },
    }
}

/// The expiry time of an entry stored at `now`.
pub fn expiry_at(expiration_time: Option<i64>, now: i64, default_ttl: i64) -> (r: i64)
    ensures
        r == expiry_of(expiration_time, now, default_ttl),
{
    match expiration_time {
        Some(t) => t,
        None => {
            let e = now as i128 + default_ttl as i128;
            if e > i64::MAX as i128 {
                i64::MAX
            } else if e < i64::MIN as i128 {
                i64::MIN
            } else {
                e as i64
            }
        },
    }
}

/// Whether an entry that expires at `expires_at` has expired at `now`.
pub open spec fn expired_at(expires_at: Option<i64>, now: i64) -> bool {
    match expires_at {
        None => true,
        Some(e) => now > e,
    }
}

/// A cached value with the time at which it expires.
pub struct CacheEntry<T> {
    pub value: T,
    pub expires_at: i64,
}

/// A cache held in memory for the life of the process.
pub struct InMemoryCache<T> {
    entries: KeyedStore<CacheEntry<T>>,
    default_expiration_time_in_secs: i64,
}

impl<T> InMemoryCache<T> {
    #[verifier::type_invariant]
    spec fn wf(&self) -> bool {
        self.entries.wf()
    }

    /// The entries of the cache by key.
    pub closed spec fn view(&self) -> Map<Seq<char>, CacheEntry<T>> {
        self.entries@
    }

    /// The lifetime given to entries stored without an expiry time.
    pub closed spec fn default_ttl(&self) -> i64 {
        self.default_expiration_time_in_secs
    }

    /// The expiry time of `key`, where it has an entry.
    pub open spec fn expiry(&self, key: Seq<char>) -> Option<i64> {
        if self@.contains_key(key) { Some(self@[key].expires_at) } else { None }
    }

    /// An empty cache whose entries live `default_expiration_time_in_secs`
    /// seconds unless told otherwise.
    pub fn new(default_expiration_time_in_secs: i64) -> (r: Self)
        ensures
            r@ == Map::<Seq<char>, CacheEntry<T>>::empty(),
            r.default_ttl() == default_expiration_time_in_secs,
    {
        InMemoryCache { entries: KeyedStore::new(), default_expiration_time_in_secs }
    }

    /// Stores `val` under `key` as of time `now`, replacing any entry there.
    pub fn put_at(&mut self, key: &str, val: T, expiration_time: Option<i64>, now: i64)
        ensures
            final(self).default_ttl() == old(self).default_ttl(),
            final(self)@ == old(self)@.insert(key@, (CacheEntry {
                value: val,
                expires_at: expiry_of(expiration_time, now, old(self).default_ttl()) as i64,
            })),
    {
        proof { use_type_invariant(&*self); }
        let expires_at = expiry_at(expiration_time, now, self.default_expiration_time_in_secs);
        let mut store = KeyedStore::new();
        std::mem::swap(&mut self.entries, &mut store);
        store.insert(key.to_owned(), CacheEntry { value: val, expires_at });
        std::mem::swap(&mut self.entries, &mut store);
    }

    /// The entry stored under `key`.
    pub fn lookup(&self, key: &str) -> (r: Option<&CacheEntry<T>>)
        ensures
            r is None <==> !self@.contains_key(key@),
            r matches Some(e) ==> *e == self@[key@],
    {
        proof { use_type_invariant(self); }
        let k = key.to_owned();
        self.entries.get(&k)
    }

    /// Whether `key` has no entry, or its entry has expired, at time `now`.
    pub fn has_expired_at(&self, key: &str, now: i64) -> (r: bool)
        ensures
            r == expired_at(self.expiry(key@), now),
    {
        match self.lookup(key) {
            None => true,
            Some(e) => now > e.expires_at,
        }
    }
}

impl<T: Clone> Cache<T> for InMemoryCache<T> {
    /// Stores the entry as of the current time, whatever the clock read.
    fn put(&mut self, key: &str, val: T, expiration_time: Option<i64>)
        ensures
            final(self).default_ttl() == old(self).default_ttl(),
            exists|now: i64| final(self)@ == old(self)@.insert(key@, (CacheEntry {
                value: val,
                expires_at: expiry_of(expiration_time, now, old(self).default_ttl()) as i64,
            })),
    {
        let now = now_timestamp();
        self.put_at(key, val, expiration_time, now);
    }

    /// The stored value whether or not it has expired; `None` only for a key
    /// with no entry.
    fn get(&self, key: &str) -> (r: Option<T>)
        ensures
            r is Some <==> self@.contains_key(key@),
    {
        match self.lookup(key) {
            None => None,
            Some(e) => Some(e.value.clone()),
        }
    }

    /// Expiry as of the current time, whatever the clock read; a key with no
    /// entry has always expired.
    fn has_expired(&self, key: &str) -> (r: bool)
        ensures
            !self@.contains_key(key@) ==> r,
            exists|now: i64| r == expired_at(self.expiry(key@), now),
    {
        let now = now_timestamp();
        self.has_expired_at(key, now)
    }
}

} // verus!

verus! {

/// A key that was never written has expired, and has no value.
pub proof fn lemma_unwritten_key_expired<T>(c: &InMemoryCache<T>, key: Seq<char>, now: i64)
    requires
        !c@.contains_key(key),
    ensures
        expired_at(c.expiry(key), now),
{
}

/// An entry stored at `t0` with the default lifetime has not expired up to
/// `t0 + default_ttl` and has expired after it (where that sum fits).
pub proof fn lemma_default_lifetime<T>(
    before: &InMemoryCache<T>,
    after: &InMemoryCache<T>,
    key: Seq<char>,
    val: T,
    t0: i64,
    now: i64,
)
    requires
        after@ == before@.insert(key, CacheEntry {
            value: val,
            expires_at: expiry_of(None, t0, before.default_ttl()) as i64,
        }),
        i64::MIN <= t0 + before.default_ttl() <= i64::MAX,
    ensures
        !expired_at(after.expiry(key), now) <==> now <= t0 + before.default_ttl(),
{
}

/// An entry stored with an expiry time before `now` has expired at `now`.
pub proof fn lemma_past_expiry_expired<T>(
    before: &InMemoryCache<T>,
    after: &InMemoryCache<T>,
    key: Seq<char>,
    val: T,
    t: i64,
    t0: i64,
    now: i64,
)
    requires
        after@ == before@.insert(key, CacheEntry {
            value: val,
            expires_at: expiry_of(Some(t), t0, before.default_ttl()) as i64,
        }),
        t < now,
    ensures
        expired_at(after.expiry(key), now),
{
}

/// The base64 text (standard alphabet, padded) of some bytes.
pub uninterp spec fn base64_standard(b: Seq<u8>) -> Seq<char>;

/// The bytes that base64 text (standard alphabet, padded) stands for, or
/// `None` where it is not such text.
pub uninterp spec fn base64_standard_decoded(s: Seq<char>) -> Option<Seq<u8>>;

/// Relies on base64's `STANDARD.encode`: the padded standard-alphabet text
/// of the bytes, which depends on them alone.
#[verifier::external_body]
fn encode_base64(b: &[u8]) -> (r: String)
    ensures
        r@ == base64_standard(b@),
{
    base64::engine::general_purpose::STANDARD.encode(b)
}

/// Relies on base64's `STANDARD.decode`: it inverts `STANDARD.encode`, and
/// fails on text that is not padded standard-alphabet base64.
#[verifier::external_body]
fn decode_base64(s: &str) -> (r: Option<Vec<u8>>)
    ensures
        r matches Some(v) ==> base64_standard_decoded(s@) == Some(v@),
        r is None ==> base64_standard_decoded(s@) is None,
        forall|b: Seq<u8>| #[trigger] base64_standard(b) == s@ ==> r is Some && r.unwrap()@ == b,
{
    base64::engine::general_purpose::STANDARD.decode(s).ok()
}

/// A cache kept in files under `path`, one file per key.
pub struct DiskCache {
    pub path: String,
    pub default_expiration_time_in_secs: i64,
}

/// The content of a cache file: when the entry expires, in seconds since
/// the Unix epoch, and the value's bytes as base64 text.
pub struct DiskCacheEnvelope {
    pub expires_in: i64,
    pub data: String,
}

impl DiskCache {
    /// The envelope that stores `val` at time `now`.
    pub fn seal(&self, val: &[u8], expiration_time: Option<i64>, now: i64) -> (r: DiskCacheEnvelope)
        ensures
            r.expires_in == expiry_of(expiration_time, now, self.default_expiration_time_in_secs),
            r.data@ == base64_standard(val@),
    {
        DiskCacheEnvelope {
            expires_in: expiry_at(expiration_time, now, self.default_expiration_time_in_secs),
            data: encode_base64(val),
        }
    }

    /// The bytes stored in an envelope; `None` where its data is not base64.
    /// An envelope sealed from some bytes gives those bytes back.
    pub fn unseal(env: &DiskCacheEnvelope) -> (r: Option<Vec<u8>>)
        ensures
            r matches Some(v) ==> base64_standard_decoded(env.data@) == Some(v@),
            r is None ==> base64_standard_decoded(env.data@) is None,
            forall|b: Seq<u8>| env.data@ == #[trigger] base64_standard(b) ==> (r matches Some(v) && v@ == b),
    {
        decode_base64(env.data.as_str())
    }

    /// Whether the entry whose file holds `env` has expired at `now`; a
    /// missing file (`None`) counts as expired.
    pub fn envelope_expired(env: Option<&DiskCacheEnvelope>, now: i64) -> (r: bool)
        ensures
            r == expired_at(
                match env {
                    Some(e) => Some(e.expires_in),
                    None => None,
                },
                now,
            ),
    {
        match env {
            None => true,
            Some(e) => now > e.expires_in,
        }
    }
}

/// A missing cache file counts as an expired entry.
pub proof fn lemma_missing_file_expired(now: i64)
    ensures
        expired_at(None, now),
{
}

/// An envelope sealed at `t0` with the default lifetime has not expired up
/// to `t0 + ttl` and has expired after it (where that sum fits).
pub proof fn lemma_sealed_default_lifetime(d: DiskCache, env: DiskCacheEnvelope, t0: i64, now: i64)
    requires
        env.expires_in == expiry_of(None, t0, d.default_expiration_time_in_secs),
        i64::MIN <= t0 + d.default_expiration_time_in_secs <= i64::MAX,
    ensures
        expired_at(Some(env.expires_in), now) <==> now > t0 + d.default_expiration_time_in_secs,
{
}

/// An envelope sealed with an expiry time before `now` has expired at `now`.
pub proof fn lemma_sealed_past_expiry(d: DiskCache, env: DiskCacheEnvelope, t: i64, t0: i64, now: i64)
    requires
        env.expires_in == expiry_of(Some(t), t0, d.default_expiration_time_in_secs),
        t < now,
    ensures
        expired_at(Some(env.expires_in), now),
{
}

/// Relies on `String::from_utf8`: it succeeds exactly on valid UTF-8, and
/// the string then holds the characters that the bytes encode.
#[verifier::external_body]
fn string_from_utf8(v: Vec<u8>) -> (r: Option<String>)
    ensures
        r is Some <==> vstd::utf8::valid_utf8(v@),
        r matches Some(s) ==> s@ == vstd::utf8::decode_utf8(v@),
{
    String::from_utf8(v).ok()
}

/// A cacheable string, stored as its UTF-8 bytes.
pub struct CString {
    pub val: String,
}

impl CString {
    pub open spec fn view(&self) -> Seq<char> {
        self.val@
    }

    pub fn new(val: String) -> (r: CString)
        ensures
            r@ == val@,
    {
        CString { val }
    }

    /// The string from its UTF-8 bytes; `None` where they are not UTF-8.
    pub fn from_utf8(bytes: Vec<u8>) -> (r: Option<CString>)
        ensures
            r is Some <==> vstd::utf8::valid_utf8(bytes@),
            r matches Some(c) ==> c@ == vstd::utf8::decode_utf8(bytes@),
    {
        match string_from_utf8(bytes) {
            None => None,
            Some(val) => Some(CString { val }),
        }
    }

    /// The UTF-8 bytes of the string.
    pub fn as_bytes(&self) -> (r: &[u8])
        ensures
            r@ == vstd::utf8::encode_utf8(self@),
    {
        self.val.as_str().as_bytes()
    }

    pub fn as_str(&self) -> (r: &str)
        ensures
            r@ == self@,
    {
        self.val.as_str()
    }

    pub fn into_string(self) -> (r: String)
        ensures
            r@ == self@,
    {
        self.val
    }
}

impl From<String> for CString {
    fn from(val: String) -> (r: CString) {
        CString { val }
    }
}

impl vstd::std_specs::convert::FromSpecImpl<String> for CString {
    open spec fn obeys_from_spec() -> bool {
        true
    }

    open spec fn from_spec(v: String) -> CString {
        CString { val: v }
    }
}

impl From<CString> for String {
    fn from(c: CString) -> (r: String) {
        c.val
    }
}

impl vstd::std_specs::convert::FromSpecImpl<CString> for String {
    open spec fn obeys_from_spec() -> bool {
        true
    }

    open spec fn from_spec(c: CString) -> String {
        c.val
    }
}

impl Clone for CString {
    fn clone(&self) -> (r: CString)
        ensures
            r@ == self@,
    {
        CString { val: self.val.clone() }
    }
}

} // verus!
