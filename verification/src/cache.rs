//! The reference-data cache: a keyed, TTL'd store for slow-changing
//! collections (teams, users, labels, workflow states).
//!
//! An entry is keyed by its bucket and an optional secondary key (for
//! collections scoped to a team), carries its write time and its TTL, and
//! expires silently: an expired entry reads as missing and is never
//! purged. Writes always go through whole-collection replacement. The
//! single most important rule of the core — only complete, unfiltered
//! fetches may be written — is enforced by the resolver, which is the only
//! writer; the cache itself offers plain keyed get and set.
//!
//! The clock stays outside: every operation takes `now` in seconds.

use vstd::prelude::*;

use crate::json::JsonValue;

verus! {

/// The entity kind a cache bucket holds.
#[derive(Debug, Clone, Copy, PartialEq, Eq, Structural)]
pub enum CacheType {
    Teams,
    Users,
    Labels,
    WorkflowStates,
}

/// The cache TTL used when a call does not choose its own.
pub const DEFAULT_CACHE_TTL_SECONDS: u64 = 3600;

/// Per-call cache policy: bypass entirely, or override the TTL.
#[derive(Debug, Clone, PartialEq)]
pub struct CacheOptions {
    pub no_cache: bool,
    pub ttl_seconds: Option<u64>,
}

impl Default for CacheOptions {
    fn default() -> (r: Self)
        ensures
            r == (CacheOptions { no_cache: false, ttl_seconds: Option::None }),
    {
        CacheOptions { no_cache: false, ttl_seconds: Option::None }
    }
}

/// The TTL a cache policy asks for.
pub open spec fn spec_effective_ttl(opts: CacheOptions) -> u64 {
    match opts.ttl_seconds {
        Option::Some(ttl) => ttl,
        Option::None => DEFAULT_CACHE_TTL_SECONDS,
    }
}

impl CacheOptions {
    /// The TTL this policy asks for: its own, or the default.
    pub fn effective_ttl_seconds(&self) -> (r: u64)
        ensures
            r == spec_effective_ttl(*self),
    {
        match self.ttl_seconds {
            Option::Some(ttl) => ttl,
            Option::None => DEFAULT_CACHE_TTL_SECONDS,
        }
    }
}

/// One stored collection: its key, its payload, and its expiry data.
#[derive(Debug, PartialEq)]
pub struct CacheEntry {
    pub bucket: CacheType,
    pub secondary: Option<String>,
    pub payload: JsonValue,
    pub written_at: u64,
    pub ttl_seconds: u64,
}

/// The spec-level key of an entry.
pub open spec fn entry_key(e: CacheEntry) -> (CacheType, Option<Seq<char>>) {
    (
        e.bucket,
        match e.secondary {
            Option::Some(s) => Option::Some(s@),
            Option::None => Option::None,
        },
    )
}

/// The first entry under a key, scanning from the most recent write.
pub open spec fn spec_find(entries: Seq<CacheEntry>, key: (CacheType, Option<Seq<char>>))
    -> Option<CacheEntry>
    decreases entries.len(),
{
    if entries.len() == 0 {
        Option::None
    } else if entry_key(entries[0]) == key {
        Option::Some(entries[0])
    } else {
        spec_find(entries.drop_first(), key)
    }
}

/// An entry is fresh at `now` while its age has not passed its TTL.
pub open spec fn entry_fresh(e: CacheEntry, now: u64) -> bool {
    now <= e.written_at + e.ttl_seconds
}

/// The keyed, TTL'd store. New writes go to the front, so a read always
/// sees the latest write for a key; superseded and expired entries are
/// left in place and simply never read again.
#[derive(Debug)]
pub struct Cache {
    entries: Vec<CacheEntry>,
}

impl Cache {
    /// Everything the store holds, most recent write first.
    pub closed spec fn spec_entries(self) -> Seq<CacheEntry> {
        self.entries@
    }

    /// The latest entry written under a key, expired or not.
    pub open spec fn stored(self, bucket: CacheType, secondary: Option<Seq<char>>) -> Option<
        CacheEntry,
    > {
        spec_find(self.spec_entries(), (bucket, secondary))
    }

    /// Read out every stored entry, most recent write first, for a
    /// caller that persists the store.
    pub fn entries(&self) -> (r: &Vec<CacheEntry>)
        ensures
            r@ == self.spec_entries(),
    {
        &self.entries
    }

    /// What a read at `now` returns: the latest payload under the key,
    /// unless it has expired or was never written.
    pub open spec fn lookup(
        self,
        bucket: CacheType,
        secondary: Option<Seq<char>>,
        now: u64,
    ) -> Option<JsonValue> {
        match self.stored(bucket, secondary) {
            Option::Some(e) => if entry_fresh(e, now) {
                Option::Some(e.payload)
            } else {
                Option::None
            },
            Option::None => Option::None,
        }
    }

    /// An empty cache.
    pub fn new() -> (r: Cache)
        ensures
            forall|b: CacheType, s: Option<Seq<char>>| r.stored(b, s) is None,
    {
        Cache { entries: Vec::new() }
    }

    /// Read a bucket-wide collection.
    pub fn get<'a>(&'a self, bucket: CacheType, now: u64) -> (r: Option<&'a JsonValue>)
        ensures
            match self.lookup(bucket, Option::None, now) {
                Option::Some(p) => r matches Option::Some(x) && *x == p,
                Option::None => r is None,
            },
    {
        self.find(bucket, Option::None, now)
    }

    /// Read a collection scoped by a secondary key.
    pub fn get_scoped<'a>(&'a self, bucket: CacheType, key: &str, now: u64) -> (r: Option<
        &'a JsonValue,
    >)
        ensures
            match self.lookup(bucket, Option::Some(key@), now) {
                Option::Some(p) => r matches Option::Some(x) && *x == p,
                Option::None => r is None,
            },
    {
        self.find(bucket, Option::Some(key), now)
    }

    #[verifier::loop_isolation(false)]
    fn find<'a>(&'a self, bucket: CacheType, key: Option<&str>, now: u64) -> (r: Option<
        &'a JsonValue,
    >)
        ensures
            ({
                let k = (
                    bucket,
                    match key {
                        Option::Some(s) => Option::Some(s@),
                        Option::None => Option::<Seq<char>>::None,
                    },
                );
                match self.lookup(bucket, k.1, now) {
                    Option::Some(p) => r matches Option::Some(x) && *x == p,
                    Option::None => r is None,
                }
            }),
    {
        let ghost k = (
            bucket,
            match key {
                Option::Some(s) => Option::Some(s@),
                Option::None => Option::<Seq<char>>::None,
            },
        );
        let mut j: usize = 0;
        while j < self.entries.len()
            invariant
                j <= self.entries.len(),
                forall|i: int| 0 <= i < j ==> entry_key(self.entries@[i]) != k,
            decreases self.entries.len() - j,
        {
            let e = &self.entries[j];
            let bucket_hit = e.bucket == bucket;
            let key_hit = match (&e.secondary, &key) {
                (Option::None, Option::None) => true,
                (Option::Some(a), Option::Some(b)) => crate::text::str_eq(a.as_str(), b),
                _ => false,
            };
            if bucket_hit && key_hit {
                proof {
                    lemma_find_found(self.entries@, k, j as int);
                }
                if now <= self.entries[j].written_at.saturating_add(self.entries[j].ttl_seconds) {
                    return Option::Some(&self.entries[j].payload);
                }
                return Option::None;
            }
            proof {
                assert(entry_key(self.entries@[j as int]) != k);
            }
            j = j + 1;
        }
        proof {
            lemma_find_missing(self.entries@, k);
        }
        Option::None
    }

    /// Write a bucket-wide collection, replacing what a read would see
    /// under that key and touching nothing else.
    pub fn set(&mut self, bucket: CacheType, payload: JsonValue, ttl_seconds: u64, now: u64)
        ensures
            final(self).stored(bucket, Option::None) matches Option::Some(e) && e
                == (CacheEntry {
                bucket,
                secondary: Option::None,
                payload,
                written_at: now,
                ttl_seconds,
            }),
            forall|b: CacheType, s: Option<Seq<char>>|
                (b, s) != (bucket, Option::<Seq<char>>::None) ==> final(self).stored(b, s) == old(
                    self,
                ).stored(b, s),
    {
        self.put(
            CacheEntry { bucket, secondary: Option::None, payload, written_at: now, ttl_seconds },
        );
    }

    /// Write a collection under a secondary key, replacing what a read
    /// would see under that key and touching nothing else.
    pub fn set_scoped(
        &mut self,
        bucket: CacheType,
        key: &str,
        payload: JsonValue,
        ttl_seconds: u64,
        now: u64,
    )
        ensures
            final(self).stored(bucket, Option::Some(key@)) matches Option::Some(e) && {
                &&& e.bucket == bucket
                &&& e.secondary matches Option::Some(s) && s@ == key@
                &&& e.payload == payload
                &&& e.written_at == now
                &&& e.ttl_seconds == ttl_seconds
            },
            forall|b: CacheType, s: Option<Seq<char>>|
                (b, s) != (bucket, Option::Some(key@)) ==> final(self).stored(b, s) == old(
                    self,
                ).stored(b, s),
    {
        self.put(
            CacheEntry {
                bucket,
                secondary: Option::Some(key.to_owned()),
                payload,
                written_at: now,
                ttl_seconds,
            },
        );
    }

    fn put(&mut self, entry: CacheEntry)
        ensures
            final(self).stored(entry_key(entry).0, entry_key(entry).1) == Option::Some(entry),
            forall|b: CacheType, s: Option<Seq<char>>|
                (b, s) != entry_key(entry) ==> final(self).stored(b, s) == old(self).stored(b, s),
    {
        let ghost before = self.entries@;
        self.entries.insert(0, entry);
        proof {
            assert(self.entries@.drop_first() =~= before);
            assert forall|b: CacheType, s: Option<Seq<char>>|
                (b, s) != entry_key(entry) implies spec_find(self.entries@, (b, s)) == spec_find(
                before,
                (b, s),
            ) by {
                assert(self.entries@[0] == entry);
            }
        }
    }
}

proof fn lemma_find_found(entries: Seq<CacheEntry>, key: (CacheType, Option<Seq<char>>), j: int)
    requires
        0 <= j < entries.len(),
        forall|i: int| 0 <= i < j ==> entry_key(entries[i]) != key,
        entry_key(entries[j]) == key,
    ensures
        spec_find(entries, key) == Option::Some(entries[j]),
    decreases j,
{
    if j > 0 {
        lemma_find_found(entries.drop_first(), key, j - 1);
    }
}

proof fn lemma_find_missing(entries: Seq<CacheEntry>, key: (CacheType, Option<Seq<char>>))
    requires
        forall|i: int| 0 <= i < entries.len() ==> entry_key(entries[i]) != key,
    ensures
        spec_find(entries, key) is None,
    decreases entries.len(),
{
    if entries.len() > 0 {
        lemma_find_missing(entries.drop_first(), key);
    }
}

} // verus!
