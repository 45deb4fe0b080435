use crate::models::{
    MAX_TIMESTAMP_SECONDS, MIN_TIMESTAMP_SECONDS, rfc3339_seconds, rfc3339_utc_seconds, seconds_between, whole_seconds_between, SecretInput,
    Timestamp,
};
use crate::crypto::{
    hkdf_sha256, hkdf_sha256_32, random_bytes, sha256, sha256_digest, xchacha20poly1305_decrypt,
    xchacha20poly1305_encrypt, xchacha20poly1305_open, xchacha20poly1305_seal,
};
use crate::order::{
    chars_lt, lemma_chars_lt_asymmetric, lemma_chars_lt_irreflexive, lemma_chars_lt_total,
    lemma_chars_lt_transitive, str_lt,
};
use crate::text::{
    decimal, i64_to_string, join_strings, joined, push_char, same_text, signed_decimal, texts,
};
use vstd::prelude::*;
use vstd::string::*;

verus! {

/// The cache document format this version reads and writes.
pub const VERSION: u8 = 1;

/// The most environments one cache document keeps.
pub const MAX_CACHED_ENVIRONMENTS: usize = 16;

/// One cached environment, as stored in the cache document.
pub struct StoredRuntime {
    pub project: String,
    pub environment: String,
    pub environment_id: String,
    pub aliases: Vec<String>,
    pub fetched_at: Timestamp,
    pub entries: Vec<SecretInput>,
}

/// The decrypted cache document of one server: its environments keyed by
/// environment ID, in increasing key order.
pub struct CacheDocument {
    pub version: u8,
    pub server_url: String,
    pub environments: Vec<(String, StoredRuntime)>,
}

/// The keys increase strictly from one record to the next.
pub open spec fn keys_sorted(envs: Seq<(String, StoredRuntime)>) -> bool {
    forall|i: int, j: int| 0 <= i < j < envs.len() ==> chars_lt(#[trigger] envs[i].0@, #[trigger] envs[j].0@)
}

/// Every record's fetch time is a valid timestamp.
pub open spec fn times_valid(envs: Seq<(String, StoredRuntime)>) -> bool {
    forall|i: int| 0 <= i < envs.len() ==> (#[trigger] envs[i]).1.fetched_at.valid()
}

impl CacheDocument {
    /// Sorted unique keys and valid fetch times: what a document read from
    /// disk, or built by this module, holds.
    pub open spec fn well_formed(&self) -> bool {
        &&& keys_sorted(self.environments@)
        &&& times_valid(self.environments@)
    }

    /// Whether the document is well formed: its keys strictly increase and
    /// every fetch time is valid.
    pub fn is_well_formed(&self) -> (res: bool)
        ensures
            res == self.well_formed(),
    {
        let envs = &self.environments;
        let n = envs.len();
        let mut i: usize = 0;
        while i < n
            invariant
                n == envs@.len(),
                i <= n,
                envs == &self.environments,
                forall|a: int, b: int| 0 <= a < b < i ==> chars_lt(#[trigger] envs@[a].0@, #[trigger] envs@[b].0@),
                forall|a: int| 0 <= a < i ==> (#[trigger] envs@[a]).1.fetched_at.valid(),
            decreases n - i,
        {
            let t = envs[i].1.fetched_at;
            if !(t.nanos < 1_000_000_000 && MIN_TIMESTAMP_SECONDS <= t.seconds && t.seconds
                <= MAX_TIMESTAMP_SECONDS) {
                assert(!envs@[i as int].1.fetched_at.valid());
                return false;
            }
            if i > 0 {
                if !str_lt(envs[i - 1].0.as_str(), envs[i].0.as_str()) {
                    assert(!chars_lt(envs@[i - 1].0@, envs@[i as int].0@));
                    return false;
                }
                proof {
                    assert forall|a: int| 0 <= a < i implies chars_lt(
                        #[trigger] envs@[a].0@,
                        envs@[i as int].0@,
                    ) by {
                        if a < i - 1 {
                            lemma_chars_lt_transitive(envs@[a].0@, envs@[i - 1].0@, envs@[i as int].0@);
                        }
                    }
                }
            }
            i = i + 1;
        }
        true
    }
}

/// `new` is `old` with `value` stored under `key`: the record with that key
/// keeps its key and takes the new value, or, where there is none, a new
/// record goes where the key order puts it.
pub open spec fn upserted(
    old: Seq<(String, StoredRuntime)>,
    new: Seq<(String, StoredRuntime)>,
    key: String,
    value: StoredRuntime,
) -> bool {
    ||| exists|i: int|
        0 <= i < old.len() && (#[trigger] old[i]).0@ == key@ && new == old.update(
            i,
            (old[i].0, value),
        )
    ||| {
        &&& forall|i: int| 0 <= i < old.len() ==> (#[trigger] old[i]).0@ != key@
        &&& exists|p: int|
            0 <= p <= old.len() && (forall|j: int|
                0 <= j < p ==> chars_lt((#[trigger] old[j]).0@, key@)) && (forall|j: int|
                p <= j < old.len() ==> chars_lt(key@, (#[trigger] old[j]).0@)) && new
                == old.insert(p, (key, value))
    }
}

/// `i` is the oldest record: none is older, and every record before it is
/// newer (the first of equally old records).
pub open spec fn is_oldest(envs: Seq<(String, StoredRuntime)>, i: int) -> bool {
    &&& 0 <= i < envs.len()
    &&& forall|j: int|
        0 <= j < envs.len() ==> !(#[trigger] envs[j]).1.fetched_at.spec_before(
            envs[i].1.fetched_at,
        )
    &&& forall|j: int|
        0 <= j < i ==> envs[i].1.fetched_at.spec_before((#[trigger] envs[j]).1.fetched_at)
}

/// The records left after removing the oldest one, again and again, until
/// at most `MAX_CACHED_ENVIRONMENTS` remain.
pub open spec fn evicted(envs: Seq<(String, StoredRuntime)>) -> Seq<(String, StoredRuntime)>
    decreases envs.len(),
{
    if envs.len() <= MAX_CACHED_ENVIRONMENTS {
        envs
    } else {
        let i = choose|i: int| is_oldest(envs, i);
        if 0 <= i < envs.len() {
            evicted(envs.remove(i))
        } else {
            envs
        }
    }
}

pub proof fn lemma_oldest_unique(envs: Seq<(String, StoredRuntime)>, i: int, k: int)
    requires
        is_oldest(envs, i),
        is_oldest(envs, k),
    ensures
        i == k,
{
    if i < k {
        assert(envs[k].1.fetched_at.spec_before(envs[i].1.fetched_at));
    } else if k < i {
        assert(envs[i].1.fetched_at.spec_before(envs[k].1.fetched_at));
    }
}

/// Index of the oldest record.
fn oldest_index(envs: &Vec<(String, StoredRuntime)>) -> (res: usize)
    requires
        envs@.len() > 0,
    ensures
        is_oldest(envs@, res as int),
{
    let mut best: usize = 0;
    let mut i: usize = 1;
    while i < envs.len()
        invariant
            1 <= i <= envs@.len(),
            best < i,
            forall|j: int|
                0 <= j < i ==> !(#[trigger] envs@[j]).1.fetched_at.spec_before(
                    envs@[best as int].1.fetched_at,
                ),
            forall|j: int|
                0 <= j < best ==> envs@[best as int].1.fetched_at.spec_before(
                    (#[trigger] envs@[j]).1.fetched_at,
                ),
        decreases envs@.len() - i,
    {
        if envs[i].1.fetched_at.before(&envs[best].1.fetched_at) {
            best = i;
        }
        i = i + 1;
    }
    best
}

/// Removes oldest records until at most `MAX_CACHED_ENVIRONMENTS` remain.
fn evict_oldest(envs: &mut Vec<(String, StoredRuntime)>)
    ensures
        final(envs)@ == evicted(old(envs)@),
    decreases old(envs)@.len(),
{
    if envs.len() > MAX_CACHED_ENVIRONMENTS {
        let i = oldest_index(envs);
        proof {
            let c = choose|k: int| is_oldest(old(envs)@, k);
            lemma_oldest_unique(old(envs)@, i as int, c);
        }
        let _ = envs.remove(i);
        evict_oldest(envs);
    }
}

proof fn lemma_keys_sorted_insert(envs: Seq<(String, StoredRuntime)>, p: int, pair: (String, StoredRuntime))
    requires
        keys_sorted(envs),
        0 <= p <= envs.len(),
        forall|j: int| 0 <= j < p ==> chars_lt((#[trigger] envs[j]).0@, pair.0@),
        forall|j: int| p <= j < envs.len() ==> chars_lt(pair.0@, (#[trigger] envs[j]).0@),
    ensures
        keys_sorted(envs.insert(p, pair)),
{
    let r = envs.insert(p, pair);
    assert forall|i: int, j: int| 0 <= i < j < r.len() implies chars_lt(#[trigger] r[i].0@, #[trigger] r[j].0@) by {
        if i < p && j == p {
        } else if i < p && j > p {
            assert(r[j] == envs[j - 1]);
        } else if i == p {
            assert(r[j] == envs[j - 1]);
        } else if i > p {
            assert(r[i] == envs[i - 1]);
            assert(r[j] == envs[j - 1]);
        }
    };
}

/// Stores `value` under `key`, replacing the value of an existing record
/// with that key or adding a record in key order.
pub fn upsert(envs: &mut Vec<(String, StoredRuntime)>, key: String, value: StoredRuntime)
    requires
        keys_sorted(old(envs)@),
    ensures
        keys_sorted(final(envs)@),
        upserted(old(envs)@, final(envs)@, key, value),
{
    let ghost old_envs = envs@;
    let mut i: usize = 0;
    while i < envs.len() && str_lt(envs[i].0.as_str(), key.as_str())
        invariant
            envs@ == old_envs,
            keys_sorted(old_envs),
            i <= envs@.len(),
            forall|j: int| 0 <= j < i ==> chars_lt((#[trigger] envs@[j]).0@, key@),
        decreases envs@.len() - i,
    {
        i = i + 1;
    }
    proof {
        assert forall|j: int| 0 <= j < i implies (#[trigger] old_envs[j]).0@ != key@ by {
            lemma_chars_lt_irreflexive(key@);
        };
    }
    if i < envs.len() && same_text(envs[i].0.as_str(), key.as_str()) {
        let (k, _previous) = envs.remove(i);
        envs.insert(i, (k, value));
        proof {
            assert(envs@ =~= old_envs.update(i as int, (old_envs[i as int].0, value)));
            assert(old_envs[i as int].0@ == key@);
            assert forall|a: int, b: int| 0 <= a < b < envs@.len() implies chars_lt(
                #[trigger] envs@[a].0@,
                #[trigger] envs@[b].0@,
            ) by {
                assert(envs@[a].0 == old_envs[a].0);
                assert(envs@[b].0 == old_envs[b].0);
            };
        }
    } else {
        proof {
            if i < old_envs.len() {
                lemma_chars_lt_total(old_envs[i as int].0@, key@);
            }
            assert forall|j: int| i <= j < old_envs.len() implies chars_lt(
                key@,
                (#[trigger] old_envs[j]).0@,
            ) by {
                lemma_chars_lt_total(old_envs[i as int].0@, key@);
                if j > i {
                    lemma_chars_lt_transitive(key@, old_envs[i as int].0@, old_envs[j].0@);
                }
            };
            assert forall|j: int| 0 <= j < old_envs.len() implies (#[trigger] old_envs[j]).0@
                != key@ by {
                lemma_chars_lt_irreflexive(key@);
            };
            lemma_keys_sorted_insert(old_envs, i as int, (key, value));
        }
        envs.insert(i, (key, value));
    }
}


/// The age text of a number of seconds: seconds below a minute, then whole
/// minutes below an hour, whole hours below a day, and whole days.
pub open spec fn age_text(seconds: int) -> Seq<char> {
    if seconds < 60 {
        signed_decimal(seconds).push('s')
    } else if seconds < 3600 {
        decimal((seconds / 60) as nat).push('m')
    } else if seconds < 86400 {
        decimal((seconds / 3600) as nat).push('h')
    } else {
        decimal((seconds / 86400) as nat).push('d')
    }
}

/// A short age such as `42s`, `5m`, `3h` or `14d`.
pub fn format_age(seconds: i64) -> (res: String)
    ensures
        res@ == age_text(seconds as int),
{
    let (amount, unit) = if seconds < 60 {
        (seconds, 's')
    } else if seconds < 3600 {
        (seconds / 60, 'm')
    } else if seconds < 86400 {
        (seconds / 3600, 'h')
    } else {
        (seconds / 86400, 'd')
    };
    let mut res = i64_to_string(amount);
    push_char(&mut res, unit);
    res
}

/// A cached environment as `dopbase run` uses it.
pub struct CachedRuntime {
    pub project: String,
    pub environment: String,
    pub environment_id: String,
    pub aliases: Vec<String>,
    pub fetched_at: Timestamp,
    pub entries: Vec<SecretInput>,
}

/// What `dopbase cache` shows of one cached environment.
pub struct CacheMetadata {
    pub project: String,
    pub environment: String,
    pub environment_id: String,
    pub fetched_at: String,
    pub age: String,
    pub age_seconds: i64,
    pub aliases: Vec<String>,
    fetched_at_value: Timestamp,
}

/// The abstract content of a `CacheMetadata`.
pub ghost struct MetadataView {
    pub project: Seq<char>,
    pub environment: Seq<char>,
    pub environment_id: Seq<char>,
    pub fetched_at: Seq<char>,
    pub age: Seq<char>,
    pub age_seconds: i64,
    pub aliases: Seq<Seq<char>>,
    pub fetched_at_value: Timestamp,
}


impl View for CacheMetadata {
    type V = MetadataView;

    closed spec fn view(&self) -> MetadataView {
        MetadataView {
            project: self.project@,
            environment: self.environment@,
            environment_id: self.environment_id@,
            fetched_at: self.fetched_at@,
            age: self.age@,
            age_seconds: self.age_seconds,
            aliases: texts(self.aliases@),
            fetched_at_value: self.fetched_at_value,
        }
    }
}

/// The cells shown for one entry: server, project, environment, ID, fetch
/// time, age and the aliases joined by `, `.
pub open spec fn entry_row(server_url: Seq<char>, m: MetadataView) -> Seq<Seq<char>> {
    seq![
        server_url,
        m.project,
        m.environment,
        m.environment_id,
        m.fetched_at,
        m.age,
        joined(m.aliases, ", "@),
    ]
}

/// A removal request for one cached environment: it is removed only while
/// its record still has the fetch time seen when it was listed.
pub struct CacheCandidate {
    pub environment_id: String,
    pub fetched_at: Timestamp,
}

/// The whole seconds since a fetch, never below zero.
pub open spec fn age_seconds_at(fetched_at: Timestamp, now: Timestamp) -> int {
    let s = whole_seconds_between(now, fetched_at);
    if s > 0 {
        s
    } else {
        0
    }
}

/// What `metadata` shows of a stored record at time `now`.
pub open spec fn metadata_of(stored: StoredRuntime, now: Timestamp) -> MetadataView {
    let age = age_seconds_at(stored.fetched_at, now);
    MetadataView {
        project: stored.project@,
        environment: stored.environment@,
        environment_id: stored.environment_id@,
        fetched_at: rfc3339_utc_seconds(stored.fetched_at.seconds, stored.fetched_at.nanos),
        age: age_text(age),
        age_seconds: age as i64,
        aliases: texts(stored.aliases@),
        fetched_at_value: stored.fetched_at,
    }
}

/// What `dopbase cache` shows of a stored record at time `now`: its age is
/// the whole seconds since the fetch, never below zero.
pub fn metadata(stored: StoredRuntime, now: &Timestamp) -> (res: CacheMetadata)
    requires
        stored.fetched_at.valid(),
        now.valid(),
    ensures
        res@ == metadata_of(stored, *now),
{
    let elapsed = seconds_between(now, &stored.fetched_at);
    let age_seconds: i64 = if elapsed > 0 {
        elapsed
    } else {
        0
    };
    let fetched_at = rfc3339_seconds(&stored.fetched_at);
    let age = format_age(age_seconds);
    CacheMetadata {
        project: stored.project,
        environment: stored.environment,
        environment_id: stored.environment_id,
        fetched_at,
        age,
        age_seconds,
        aliases: stored.aliases,
        fetched_at_value: stored.fetched_at,
    }
}

impl CacheMetadata {
    /// Whether more than `seconds` whole seconds have passed since the
    /// fetch, at time `now`.
    pub fn is_older_than(&self, now: &Timestamp, seconds: i64) -> (res: bool)
        requires
            now.valid(),
            self@.fetched_at_value.valid(),
        ensures
            res == (whole_seconds_between(*now, self@.fetched_at_value) > seconds),
    {
        seconds_between(now, &self.fetched_at_value) > seconds
    }

    /// The cells `dopbase cache` shows for this entry under `server_url`.
    pub fn table_row(&self, server_url: &str) -> (res: Vec<String>)
        ensures
            texts(res@) == entry_row(server_url@, self@),
    {
        let res = vec![
            server_url.to_owned(),
            self.project.clone(),
            self.environment.clone(),
            self.environment_id.clone(),
            self.fetched_at.clone(),
            self.age.clone(),
            join_strings(&self.aliases, ", "),
        ];
        assert(texts(res@) =~= entry_row(server_url@, self@));
        res
    }

    /// The removal request for this entry: its environment ID and the fetch
    /// time it was listed with.
    pub fn candidate(&self) -> (res: CacheCandidate)
        ensures
            res.environment_id@ == self@.environment_id,
            res.fetched_at == self@.fetched_at_value,
    {
        CacheCandidate {
            environment_id: self.environment_id.clone(),
            fetched_at: self.fetched_at_value,
        }
    }
}


/// Why a cache operation failed.
#[derive(Clone, Copy, Debug, PartialEq, Eq, Structural)]
pub enum CacheError {
    /// The document has another version or belongs to another server.
    InvalidScope,
    /// No cached environment answers to the reference.
    NoMatchingEntry,
    /// The encrypted file is too short or does not start with the magic bytes.
    InvalidFormat,
    /// The encrypted file has another format version.
    UnsupportedVersion,
    /// The file could not be decrypted with the derived key.
    AuthenticationFailed,
    /// The document is larger than the cache allows.
    TooLarge,
    /// The local key file does not hold exactly `KEY_LENGTH` bytes.
    InvalidKeyLength,
    /// The system random number generator failed.
    RandomUnavailable,
    /// Encryption failed.
    EncryptionFailed,
}

impl CacheError {
    /// The message shown for this error.
    pub fn message(&self) -> (res: &'static str)
        ensures
            *self == CacheError::InvalidScope ==> res@
                == "encrypted run cache has an invalid scope or unsupported version"@,
            *self == CacheError::NoMatchingEntry ==> res@ == "encrypted run cache has no matching entry"@,
            *self == CacheError::InvalidFormat ==> res@ == "encrypted run cache has an invalid format"@,
            *self == CacheError::UnsupportedVersion ==> res@
                == "encrypted run cache uses an unsupported version"@,
            *self == CacheError::AuthenticationFailed ==> res@
                == "encrypted run cache authentication failed"@,
            *self == CacheError::TooLarge ==> res@
                == "encrypted run cache exceeded the maximum allowed size"@,
            *self == CacheError::InvalidKeyLength ==> res@
                == "run cache key must contain exactly 32 bytes"@,
            *self == CacheError::RandomUnavailable ==> res@
                == "the system random number generator is unavailable"@,
            *self == CacheError::EncryptionFailed ==> res@ == "failed to encrypt run cache"@,
    {
        match self {
            CacheError::InvalidScope => "encrypted run cache has an invalid scope or unsupported version",
            CacheError::NoMatchingEntry => "encrypted run cache has no matching entry",
            CacheError::InvalidFormat => "encrypted run cache has an invalid format",
            CacheError::UnsupportedVersion => "encrypted run cache uses an unsupported version",
            CacheError::AuthenticationFailed => "encrypted run cache authentication failed",
            CacheError::TooLarge => "encrypted run cache exceeded the maximum allowed size",
            CacheError::InvalidKeyLength => "run cache key must contain exactly 32 bytes",
            CacheError::RandomUnavailable => "the system random number generator is unavailable",
            CacheError::EncryptionFailed => "failed to encrypt run cache",
        }
    }
}

/// The document has this version and belongs to `server_url`.
pub open spec fn in_scope(doc: &CacheDocument, server_url: Seq<char>) -> bool {
    doc.version == VERSION && doc.server_url@ == server_url
}

/// Accepts a document only for the current version and the given server.
pub fn validate_document(doc: &CacheDocument, server_url: &str) -> (res: Result<(), CacheError>)
    ensures
        res is Ok <==> in_scope(doc, server_url@),
        res is Err ==> res == Err::<(), CacheError>(CacheError::InvalidScope),
{
    if doc.version != VERSION || !same_text(doc.server_url.as_str(), server_url) {
        Err(CacheError::InvalidScope)
    } else {
        Ok(())
    }
}

/// The record answers to `reference`: one of its aliases is that text.
pub open spec fn answers_to(stored: StoredRuntime, reference: Seq<char>) -> bool {
    exists|k: int| 0 <= k < stored.aliases@.len() && (#[trigger] stored.aliases@[k])@ == reference
}

/// `i` is the newest record answering to `reference`, the last of equally
/// new ones in key order.
pub open spec fn is_latest_match(envs: Seq<(String, StoredRuntime)>, reference: Seq<char>, i: int) -> bool {
    &&& 0 <= i < envs.len()
    &&& answers_to(envs[i].1, reference)
    &&& forall|j: int|
        0 <= j < envs.len() && answers_to((#[trigger] envs[j]).1, reference)
            ==> !envs[i].1.fetched_at.spec_before(envs[j].1.fetched_at)
    &&& forall|j: int|
        i < j < envs.len() && answers_to((#[trigger] envs[j]).1, reference)
            ==> envs[j].1.fetched_at.spec_before(envs[i].1.fetched_at)
}

/// No record answers to `reference`.
pub open spec fn no_match(envs: Seq<(String, StoredRuntime)>, reference: Seq<char>) -> bool {
    forall|j: int| 0 <= j < envs.len() ==> !answers_to((#[trigger] envs[j]).1, reference)
}

fn has_alias(aliases: &Vec<String>, reference: &str) -> (res: bool)
    ensures
        res == exists|k: int| 0 <= k < aliases@.len() && (#[trigger] aliases@[k])@ == reference@,
{
    let mut k: usize = 0;
    while k < aliases.len()
        invariant
            k <= aliases@.len(),
            forall|q: int| 0 <= q < k ==> (#[trigger] aliases@[q])@ != reference@,
        decreases aliases@.len() - k,
    {
        if same_text(aliases[k].as_str(), reference) {
            return true;
        }
        k = k + 1;
    }
    false
}

/// Index of the newest record answering to `reference`.
pub fn latest_match_index(envs: &Vec<(String, StoredRuntime)>, reference: &str) -> (res: Option<usize>)
    ensures
        res matches Some(i) ==> is_latest_match(envs@, reference@, i as int),
        res is None ==> no_match(envs@, reference@),
{
    let mut best: Option<usize> = None;
    let mut i: usize = 0;
    while i < envs.len()
        invariant
            i <= envs@.len(),
            best matches Some(b) ==> {
                &&& b < i
                &&& answers_to(envs@[b as int].1, reference@)
                &&& forall|j: int|
                    0 <= j < i && answers_to((#[trigger] envs@[j]).1, reference@)
                        ==> !envs@[b as int].1.fetched_at.spec_before(envs@[j].1.fetched_at)
                &&& forall|j: int|
                    b < j < i && answers_to((#[trigger] envs@[j]).1, reference@)
                        ==> envs@[j].1.fetched_at.spec_before(envs@[b as int].1.fetched_at)
            },
            best is None ==> forall|j: int| 0 <= j < i ==> !answers_to((#[trigger] envs@[j]).1, reference@),
        decreases envs@.len() - i,
    {
        if has_alias(&envs[i].1.aliases, reference) {
            match best {
                None => {
                    best = Some(i);
                },
                Some(b) => {
                    if !envs[i].1.fetched_at.before(&envs[b].1.fetched_at) {
                        best = Some(i);
                    }
                },
            }
        }
        i = i + 1;
    }
    best
}

/// A stored record as a runtime.
pub open spec fn runtime_of(stored: StoredRuntime) -> CachedRuntime {
    CachedRuntime {
        project: stored.project,
        environment: stored.environment,
        environment_id: stored.environment_id,
        aliases: stored.aliases,
        fetched_at: stored.fetched_at,
        entries: stored.entries,
    }
}

/// The environment `dopbase run` falls back to: from a document of this
/// version and server, the newest record answering to `reference`.
pub fn select_for_load(doc: CacheDocument, server_url: &str, reference: &str) -> (res: Result<
    CachedRuntime,
    CacheError,
>)
    ensures
        !in_scope(&doc, server_url@) ==> res == Err::<CachedRuntime, CacheError>(
            CacheError::InvalidScope,
        ),
        in_scope(&doc, server_url@) && no_match(doc.environments@, reference@) ==> res == Err::<
            CachedRuntime,
            CacheError,
        >(CacheError::NoMatchingEntry),
        res matches Ok(r) ==> in_scope(&doc, server_url@) && exists|i: int|
            is_latest_match(doc.environments@, reference@, i) && r == runtime_of(
                #[trigger] doc.environments@[i].1,
            ),
        in_scope(&doc, server_url@) && !no_match(doc.environments@, reference@) ==> res is Ok,
{
    if let Err(e) = validate_document(&doc, server_url) {
        return Err(e);
    }
    let mut envs = doc.environments;
    match latest_match_index(&envs, reference) {
        None => Err(CacheError::NoMatchingEntry),
        Some(i) => {
            let ghost whole = envs@;
            let (_key, stored) = envs.remove(i);
            assert(stored == whole[i as int].1);
            Ok(
                CachedRuntime {
                    project: stored.project,
                    environment: stored.environment,
                    environment_id: stored.environment_id,
                    aliases: stored.aliases,
                    fetched_at: stored.fetched_at,
                    entries: stored.entries,
                },
            )
        },
    }
}


/// Each text comes strictly before the next one.
pub open spec fn strictly_sorted(v: Seq<Seq<char>>) -> bool {
    forall|i: int, j: int| 0 <= i < j < v.len() ==> chars_lt(#[trigger] v[i], #[trigger] v[j])
}

proof fn lemma_push_to_set<A>(s: Seq<A>, x: A)
    ensures
        s.push(x).to_set() == s.to_set().insert(x),
{
    assert forall|y: A| s.push(x).to_set().contains(y) <==> s.to_set().insert(x).contains(y) by {
        if s.push(x).to_set().contains(y) {
            let k = choose|k: int| 0 <= k < s.len() + 1 && s.push(x)[k] == y;
            if k < s.len() {
                assert(s[k] == y);
            }
        }
        if s.to_set().contains(y) {
            let k = choose|k: int| 0 <= k < s.len() && s[k] == y;
            assert(s.push(x)[k] == y);
        }
        if y == x {
            assert(s.push(x)[s.len() as int] == y);
        }
    };
    assert(s.push(x).to_set() =~= s.to_set().insert(x));
}

/// Adds `s` to a strictly sorted list of strings unless it is already there.
fn insert_sorted_unique(v: &mut Vec<String>, s: String)
    requires
        strictly_sorted(texts(old(v)@)),
    ensures
        strictly_sorted(texts(final(v)@)),
        texts(final(v)@).to_set() == texts(old(v)@).to_set().insert(s@),
{
    let ghost old_view = texts(v@);
    let mut i: usize = 0;
    while i < v.len() && str_lt(v[i].as_str(), s.as_str())
        invariant
            texts(v@) == old_view,
            strictly_sorted(old_view),
            i <= v@.len(),
            forall|j: int| 0 <= j < i ==> chars_lt((#[trigger] v@[j])@, s@),
        decreases v@.len() - i,
    {
        i = i + 1;
    }
    if i < v.len() && same_text(v[i].as_str(), s.as_str()) {
        proof {
            assert(old_view[i as int] == s@);
            assert(old_view.to_set().insert(s@) =~= old_view.to_set());
        }
        return;
    }
    proof {
        if i < old_view.len() {
            lemma_chars_lt_total(old_view[i as int], s@);
        }
    }
    v.insert(i, s);
    proof {
        let nv = texts(v@);
        assert(nv =~= old_view.insert(i as int, s@));
        assert forall|a: int, b: int| 0 <= a < b < nv.len() implies chars_lt(
            #[trigger] nv[a],
            #[trigger] nv[b],
        ) by {
            if a < i && b == i {
            } else if a < i && b > i {
                assert(nv[b] == old_view[b - 1]);
                assert(nv[a] == old_view[a]);
            } else if a == i {
                assert(nv[b] == old_view[b - 1]);
                if b - 1 > i {
                    lemma_chars_lt_transitive(s@, old_view[i as int], old_view[b - 1]);
                }
            } else if a < i && b < i {
                assert(nv[a] == old_view[a]);
                assert(nv[b] == old_view[b]);
            } else {
                assert(nv[a] == old_view[a - 1]);
                assert(nv[b] == old_view[b - 1]);
            }
        };
        assert forall|x: Seq<char>| nv.to_set().contains(x) <==> old_view.to_set().insert(
            s@,
        ).contains(x) by {
            if nv.to_set().contains(x) {
                let k = choose|k: int| 0 <= k < nv.len() && nv[k] == x;
                if k < i {
                    assert(old_view[k] == x);
                } else if k > i {
                    assert(old_view[k - 1] == x);
                }
            }
            if old_view.to_set().contains(x) {
                let k = choose|k: int| 0 <= k < old_view.len() && old_view[k] == x;
                if k < i {
                    assert(nv[k] == x);
                } else {
                    assert(nv[k + 1] == x);
                }
            }
            if x == s@ {
                assert(nv[i as int] == x);
            }
        };
        assert(nv.to_set() =~= old_view.to_set().insert(s@));
    }
}

/// The alias texts a cached environment answers to: its ID, its canonical
/// `project/environment` name, the reference it was fetched with, and any
/// aliases it already had.
pub open spec fn alias_set(
    environment_id: Seq<char>,
    project: Seq<char>,
    environment: Seq<char>,
    reference: Seq<char>,
    extra: Seq<Seq<char>>,
) -> Set<Seq<char>> {
    set![environment_id, project + seq!['/'] + environment, reference].union(extra.to_set())
}

/// The aliases of a cached environment, sorted and without duplicates.
pub fn build_aliases(
    environment_id: &String,
    project: &String,
    environment: &String,
    reference: &str,
    extra: &Vec<String>,
) -> (res: Vec<String>)
    ensures
        strictly_sorted(texts(res@)),
        texts(res@).to_set() == alias_set(
            environment_id@,
            project@,
            environment@,
            reference@,
            texts(extra@),
        ),
{
    let mut res: Vec<String> = Vec::new();
    assert(texts(res@).to_set() =~= Set::empty());
    insert_sorted_unique(&mut res, environment_id.clone());
    let mut canonical = project.clone();
    canonical.append("/");
    proof {
        reveal_strlit("/");
    }
    canonical.append(environment.as_str());
    assert(canonical@ == project@ + seq!['/'] + environment@);
    insert_sorted_unique(&mut res, canonical);
    insert_sorted_unique(&mut res, String::from_str(reference));
    let ghost base = texts(res@).to_set();
    let mut k: usize = 0;
    while k < extra.len()
        invariant
            k <= extra@.len(),
            strictly_sorted(texts(res@)),
            texts(res@).to_set() == base.union(texts(extra@).take(k as int).to_set()),
        decreases extra@.len() - k,
    {
        let ghost before = texts(res@).to_set();
        insert_sorted_unique(&mut res, extra[k].clone());
        proof {
            let ev = texts(extra@);
            assert(ev.take(k + 1) =~= ev.take(k as int).push(ev[k as int]));
            lemma_push_to_set(ev.take(k as int), ev[k as int]);
            assert(texts(res@).to_set() =~= base.union(ev.take(k + 1).to_set()));
        }
        k = k + 1;
    }
    proof {
        let ev = texts(extra@);
        assert(ev.take(extra@.len() as int) =~= ev);
        assert(base =~= set![environment_id@, project@ + seq!['/'] + environment@, reference@]);
        assert(texts(res@).to_set() =~= alias_set(
            environment_id@,
            project@,
            environment@,
            reference@,
            ev,
        ));
    }
    res
}


/// `stored` is the record `save_document` makes of `runtime` fetched with
/// `reference`: the same fields, with the aliases sorted, without
/// duplicates, and extended by the ID, the canonical name and the reference.
pub open spec fn record_for(stored: StoredRuntime, runtime: CachedRuntime, reference: Seq<char>) -> bool {
    &&& stored.project == runtime.project
    &&& stored.environment == runtime.environment
    &&& stored.environment_id == runtime.environment_id
    &&& stored.fetched_at == runtime.fetched_at
    &&& stored.entries == runtime.entries
    &&& strictly_sorted(texts(stored.aliases@))
    &&& texts(stored.aliases@).to_set() == alias_set(
        runtime.environment_id@,
        runtime.project@,
        runtime.environment@,
        reference,
        texts(runtime.aliases@),
    )
}

/// `new` is `base` with the record for `runtime` stored under its ID and
/// then the oldest records evicted down to `MAX_CACHED_ENVIRONMENTS`.
pub open spec fn saved_from(
    base: Seq<(String, StoredRuntime)>,
    new: Seq<(String, StoredRuntime)>,
    runtime: CachedRuntime,
    reference: Seq<char>,
) -> bool {
    exists|key: String, stored: StoredRuntime, mid: Seq<(String, StoredRuntime)>|
        #![trigger upserted(base, mid, key, stored)]
        key@ == runtime.environment_id@ && record_for(stored, runtime, reference) && upserted(
            base,
            mid,
            key,
            stored,
        ) && new == evicted(mid)
}

/// The records a save starts from: those of the existing document when it
/// has this version and server, none otherwise.
pub open spec fn save_base(existing: Option<CacheDocument>, server_url: Seq<char>) -> Seq<
    (String, StoredRuntime),
> {
    match existing {
        Some(d) => if in_scope(&d, server_url) {
            d.environments@
        } else {
            Seq::empty()
        },
        None => Seq::empty(),
    }
}

proof fn lemma_remove_well_formed(envs: Seq<(String, StoredRuntime)>, o: int)
    requires
        keys_sorted(envs),
        times_valid(envs),
        0 <= o < envs.len(),
    ensures
        keys_sorted(envs.remove(o)),
        times_valid(envs.remove(o)),
{
    let r = envs.remove(o);
    assert forall|i: int, j: int| 0 <= i < j < r.len() implies chars_lt(#[trigger] r[i].0@, #[trigger] r[j].0@) by {
        let a = if i < o { i } else { i + 1 };
        let b = if j < o { j } else { j + 1 };
        assert(r[i] == envs[a]);
        assert(r[j] == envs[b]);
    };
    assert forall|i: int| 0 <= i < r.len() implies (#[trigger] r[i]).1.fetched_at.valid() by {
        let a = if i < o { i } else { i + 1 };
        assert(r[i] == envs[a]);
    };
}

/// Eviction keeps the keys sorted and the times valid, and leaves at most
/// `MAX_CACHED_ENVIRONMENTS` records.
pub proof fn lemma_evicted_well_formed(envs: Seq<(String, StoredRuntime)>)
    requires
        keys_sorted(envs),
        times_valid(envs),
    ensures
        keys_sorted(evicted(envs)),
        times_valid(evicted(envs)),
        evicted(envs).len() <= MAX_CACHED_ENVIRONMENTS,
    decreases envs.len(),
{
    if envs.len() > MAX_CACHED_ENVIRONMENTS {
        lemma_oldest_exists(envs);
        let o = choose|i: int| is_oldest(envs, i);
        lemma_remove_well_formed(envs, o);
        lemma_evicted_well_formed(envs.remove(o));
    }
}

/// A non-empty list of records has an oldest one.
pub proof fn lemma_oldest_exists(envs: Seq<(String, StoredRuntime)>)
    requires
        envs.len() > 0,
    ensures
        exists|i: int| is_oldest(envs, i),
    decreases envs.len(),
{
    if envs.len() == 1 {
        assert(is_oldest(envs, 0));
    } else {
        let front = envs.drop_last();
        lemma_oldest_exists(front);
        let o = choose|i: int| is_oldest(front, i);
        let last = envs.len() - 1;
        if envs[last].1.fetched_at.spec_before(envs[o].1.fetched_at) {
            assert forall|j: int| 0 <= j < envs.len() implies !(#[trigger] envs[j]).1.fetched_at.spec_before(
                envs[last].1.fetched_at,
            ) by {
                if j < last {
                    assert(front[j] == envs[j]);
                    assert(!front[j].1.fetched_at.spec_before(front[o].1.fetched_at));
                }
            };
            assert forall|j: int| 0 <= j < last implies envs[last].1.fetched_at.spec_before(
                (#[trigger] envs[j]).1.fetched_at,
            ) by {
                assert(front[j] == envs[j]);
                assert(!front[j].1.fetched_at.spec_before(front[o].1.fetched_at));
            };
            assert(is_oldest(envs, last));
        } else {
            assert forall|j: int| 0 <= j < envs.len() implies !(#[trigger] envs[j]).1.fetched_at.spec_before(
                envs[o].1.fetched_at,
            ) by {
                if j < last {
                    assert(front[j] == envs[j]);
                }
            };
            assert forall|j: int| 0 <= j < o implies envs[o].1.fetched_at.spec_before(
                (#[trigger] envs[j]).1.fetched_at,
            ) by {
                assert(front[j] == envs[j]);
            };
            assert(is_oldest(envs, o));
        }
    }
}

/// The records of `existing`, when it has this version and belongs to
/// `server_url`, with `runtime` stored under its ID and the oldest records
/// evicted down to `MAX_CACHED_ENVIRONMENTS`; a fresh document otherwise.
pub fn save_document(
    existing: Option<CacheDocument>,
    server_url: &str,
    reference: &str,
    runtime: CachedRuntime,
) -> (res: CacheDocument)
    requires
        existing matches Some(d) ==> d.well_formed(),
        runtime.fetched_at.valid(),
    ensures
        res.version == VERSION,
        res.server_url@ == server_url@,
        res.well_formed(),
        res.environments@.len() <= MAX_CACHED_ENVIRONMENTS,
        saved_from(save_base(existing, server_url@), res.environments@, runtime, reference@),
{
    let ghost base = save_base(existing, server_url@);
    let mut document = match existing {
        Some(d) => {
            if d.version == VERSION && same_text(d.server_url.as_str(), server_url) {
                d
            } else {
                CacheDocument {
                    version: VERSION,
                    server_url: String::from_str(server_url),
                    environments: Vec::new(),
                }
            }
        },
        None => CacheDocument {
            version: VERSION,
            server_url: String::from_str(server_url),
            environments: Vec::new(),
        },
    };
    assert(document.environments@ =~= base);
    let aliases = build_aliases(
        &runtime.environment_id,
        &runtime.project,
        &runtime.environment,
        reference,
        &runtime.aliases,
    );
    let key = runtime.environment_id.clone();
    let stored = StoredRuntime {
        project: runtime.project,
        environment: runtime.environment,
        environment_id: runtime.environment_id,
        aliases,
        fetched_at: runtime.fetched_at,
        entries: runtime.entries,
    };
    let ghost stored_ghost = stored;
    upsert(&mut document.environments, key, stored);
    let ghost mid = document.environments@;
    proof {
        assert forall|i: int| 0 <= i < mid.len() implies (#[trigger] mid[i]).1.fetched_at.valid() by {
            if exists|q: int|
                0 <= q < base.len() && (#[trigger] base[q]).0@ == key@ && mid == base.update(
                    q,
                    (base[q].0, stored_ghost),
                ) {
                let q = choose|q: int|
                    0 <= q < base.len() && (#[trigger] base[q]).0@ == key@ && mid == base.update(
                        q,
                        (base[q].0, stored_ghost),
                    );
                if i != q {
                    assert(mid[i] == base[i]);
                }
            } else {
                let p = choose|p: int|
                    0 <= p <= base.len() && (forall|j: int|
                        0 <= j < p ==> chars_lt((#[trigger] base[j]).0@, key@)) && (forall|j: int|
                        p <= j < base.len() ==> chars_lt(key@, (#[trigger] base[j]).0@)) && mid
                        == base.insert(p, (key, stored_ghost));
                if i < p {
                    assert(mid[i] == base[i]);
                } else if i > p {
                    assert(mid[i] == base[i - 1]);
                }
            }
        };
        lemma_evicted_well_formed(mid);
    }
    evict_oldest(&mut document.environments);
    document
}


/// Every record other than the one at `q` is strictly older than it.
pub open spec fn strictly_newest(envs: Seq<(String, StoredRuntime)>, q: int) -> bool {
    &&& 0 <= q < envs.len()
    &&& forall|j: int|
        0 <= j < envs.len() && j != q ==> (#[trigger] envs[j]).1.fetched_at.spec_before(
            envs[q].1.fetched_at,
        )
}

proof fn lemma_evicted_keeps_newest(envs: Seq<(String, StoredRuntime)>, q: int)
    requires
        strictly_newest(envs, q),
    ensures
        exists|r: int| strictly_newest(evicted(envs), r) && #[trigger] evicted(envs)[r] == envs[q],
    decreases envs.len(),
{
    if envs.len() <= MAX_CACHED_ENVIRONMENTS {
        assert(strictly_newest(evicted(envs), q) && evicted(envs)[q] == envs[q]);
    } else {
        lemma_oldest_exists(envs);
        let o = choose|i: int| is_oldest(envs, i);
        if o == q {
            let other = if q == 0 { 1int } else { 0int };
            assert(envs[other].1.fetched_at.spec_before(envs[q].1.fetched_at));
        }
        assert(o != q);
        let rest = envs.remove(o);
        let q2 = if q < o { q } else { q - 1 };
        assert(rest[q2] == envs[q]);
        assert forall|j: int| 0 <= j < rest.len() && j != q2 implies (#[trigger] rest[j]).1.fetched_at.spec_before(
            rest[q2].1.fetched_at,
        ) by {
            let a = if j < o { j } else { j + 1 };
            assert(rest[j] == envs[a]);
        };
        lemma_evicted_keeps_newest(rest, q2);
        assert(evicted(envs) == evicted(rest));
        let r = choose|r: int| strictly_newest(evicted(rest), r) && #[trigger] evicted(rest)[r] == rest[q2];
        assert(strictly_newest(evicted(envs), r) && evicted(envs)[r] == envs[q]);
    }
}

/// The record for `id` is already stored, or there is room for one more
/// record: saving it evicts nothing.
pub open spec fn fits_without_eviction(base: Seq<(String, StoredRuntime)>, id: Seq<char>) -> bool {
    ||| base.len() < MAX_CACHED_ENVIRONMENTS
    ||| base.len() <= MAX_CACHED_ENVIRONMENTS && exists|j: int| 0 <= j < base.len() && (#[trigger] base[j]).0@ == id
}

/// Every other stored record is strictly older than `runtime`.
pub open spec fn others_older(base: Seq<(String, StoredRuntime)>, runtime: CachedRuntime) -> bool {
    forall|j: int|
        0 <= j < base.len() && (#[trigger] base[j]).0@ != runtime.environment_id@
            ==> base[j].1.fetched_at.spec_before(runtime.fetched_at)
}

/// Reading back what was written: after saving an environment fetched with
/// `reference`, the newest record answering to any of its aliases (the
/// reference, the environment ID, `PROJECT/ENVIRONMENT`, and the extra
/// aliases) is the saved one, when every other record answering to that
/// alias is older and the save either evicts nothing or follows every other
/// record in time (a record that is not the newest may itself be evicted
/// from a full cache).
pub proof fn law_saved_runtime_is_loaded(
    base: Seq<(String, StoredRuntime)>,
    new: Seq<(String, StoredRuntime)>,
    runtime: CachedRuntime,
    reference: Seq<char>,
    alias: Seq<char>,
)
    requires
        keys_sorted(base),
        saved_from(base, new, runtime, reference),
        alias_set(
            runtime.environment_id@,
            runtime.project@,
            runtime.environment@,
            reference,
            texts(runtime.aliases@),
        ).contains(alias),
        forall|j: int|
            0 <= j < base.len() && (#[trigger] base[j]).0@ != runtime.environment_id@ && answers_to(
                base[j].1,
                alias,
            ) ==> base[j].1.fetched_at.spec_before(runtime.fetched_at),
        fits_without_eviction(base, runtime.environment_id@) || others_older(base, runtime),
    ensures
        exists|i: int|
            is_latest_match(new, alias, i) && record_for(
                #[trigger] new[i].1,
                runtime,
                reference,
            ),
{
    let (key, stored, mid) = choose|key: String, stored: StoredRuntime, mid: Seq<(String, StoredRuntime)>|
        #![trigger upserted(base, mid, key, stored)]
        key@ == runtime.environment_id@ && record_for(stored, runtime, reference) && upserted(
            base,
            mid,
            key,
            stored,
        ) && new == evicted(mid);
    assert(texts(stored.aliases@).to_set().contains(alias));
    let k = choose|k: int| 0 <= k < texts(stored.aliases@).len() && texts(stored.aliases@)[k] == alias;
    assert(stored.aliases@[k]@ == alias);
    let q: int;
    if exists|i: int|
        0 <= i < base.len() && (#[trigger] base[i]).0@ == key@ && mid == base.update(
            i,
            (base[i].0, stored),
        ) {
        let i = choose|i: int|
            0 <= i < base.len() && (#[trigger] base[i]).0@ == key@ && mid == base.update(
                i,
                (base[i].0, stored),
            );
        q = i;
        assert(mid.len() == base.len());
        assert forall|j: int| 0 <= j < mid.len() && j != q implies (#[trigger] mid[j]).0@ != key@ && mid[j] == base[j] by {
            assert(mid[j] == base[j]);
            assert(chars_lt(base[j].0@, base[i].0@) || chars_lt(base[i].0@, base[j].0@));
            if base[j].0@ == key@ {
                lemma_chars_lt_irreflexive(base[j].0@);
            }
        };
        assert(fits_without_eviction(base, runtime.environment_id@) ==> mid.len() <= MAX_CACHED_ENVIRONMENTS);
        assert forall|j: int| 0 <= j < mid.len() && j != q && answers_to((#[trigger] mid[j]).1, alias) implies mid[j].1.fetched_at.spec_before(
            mid[q].1.fetched_at,
        ) by {
            assert(mid[j] == base[j]);
        };
        if others_older(base, runtime) {
            assert forall|j: int| 0 <= j < mid.len() && j != q implies (#[trigger] mid[j]).1.fetched_at.spec_before(
                mid[q].1.fetched_at,
            ) by {
                assert(mid[j] == base[j]);
            };
        }
    } else {
        let p = choose|p: int|
            0 <= p <= base.len() && (forall|j: int|
                0 <= j < p ==> chars_lt((#[trigger] base[j]).0@, key@)) && (forall|j: int|
                p <= j < base.len() ==> chars_lt(key@, (#[trigger] base[j]).0@)) && mid
                == base.insert(p, (key, stored));
        q = p;
        assert forall|j: int| 0 <= j < mid.len() && j != q implies (#[trigger] mid[j]).0@ != key@ && mid[j] == base[if j < p { j } else { j - 1 }] by {
            let a = if j < p { j } else { j - 1 };
            assert(mid[j] == base[a]);
            if j < p {
                assert(chars_lt(base[a].0@, key@));
            } else {
                assert(chars_lt(key@, base[a].0@));
            }
            if base[a].0@ == key@ {
                lemma_chars_lt_irreflexive(key@);
            }
        };
        if fits_without_eviction(base, runtime.environment_id@) {
            if base.len() >= MAX_CACHED_ENVIRONMENTS {
                let w = choose|w: int| 0 <= w < base.len() && (#[trigger] base[w]).0@ == runtime.environment_id@;
                assert(mid == base.update(w, (base[w].0, stored))) by {
                    if w < p {
                        assert(chars_lt(base[w].0@, key@));
                        lemma_chars_lt_irreflexive(key@);
                    } else {
                        assert(chars_lt(key@, base[w].0@));
                        lemma_chars_lt_irreflexive(key@);
                    }
                }
            }
            assert(mid.len() <= MAX_CACHED_ENVIRONMENTS);
        }
        assert forall|j: int| 0 <= j < mid.len() && j != q && answers_to((#[trigger] mid[j]).1, alias) implies mid[j].1.fetched_at.spec_before(
            mid[q].1.fetched_at,
        ) by {
            let a = if j < p { j } else { j - 1 };
            assert(mid[j] == base[a]);
        };
        if others_older(base, runtime) {
            assert forall|j: int| 0 <= j < mid.len() && j != q implies (#[trigger] mid[j]).1.fetched_at.spec_before(
                mid[q].1.fetched_at,
            ) by {
                let a = if j < p { j } else { j - 1 };
                assert(mid[j] == base[a]);
            };
        }
    }
    assert(mid[q].1 == stored);
    assert(answers_to(stored, alias));
    if mid.len() <= MAX_CACHED_ENVIRONMENTS {
        assert(new == mid);
        assert(is_latest_match(new, alias, q));
        assert(record_for(new[q].1, runtime, reference));
    } else {
        assert(others_older(base, runtime));
        assert(strictly_newest(mid, q));
        lemma_evicted_keeps_newest(mid, q);
        let r = choose|r: int| strictly_newest(evicted(mid), r) && #[trigger] evicted(mid)[r] == mid[q];
        assert(new[r].1 == stored);
        assert(answers_to(new[r].1, alias));
        assert(is_latest_match(new, alias, r));
    }
}


/// Listing order of cache entries: by project, then environment, then
/// environment ID.
pub open spec fn listed_before(a: MetadataView, b: MetadataView) -> bool {
    ||| chars_lt(a.project, b.project)
    ||| a.project == b.project && chars_lt(a.environment, b.environment)
    ||| a.project == b.project && a.environment == b.environment && chars_lt(
        a.environment_id,
        b.environment_id,
    )
}

/// No entry is listed after one that should come later.
pub open spec fn listing_sorted(v: Seq<MetadataView>) -> bool {
    forall|i: int, j: int| 0 <= i < j < v.len() ==> !listed_before(#[trigger] v[j], #[trigger] v[i])
}

/// The views of a list of cache entries.
pub open spec fn metadata_views(v: Seq<CacheMetadata>) -> Seq<MetadataView> {
    v.map_values(|m: CacheMetadata| m@)
}

proof fn lemma_listed_before_transitive(a: MetadataView, b: MetadataView, c: MetadataView)
    requires
        listed_before(a, b),
        listed_before(b, c),
    ensures
        listed_before(a, c),
{
    if chars_lt(a.project, b.project) && chars_lt(b.project, c.project) {
        lemma_chars_lt_transitive(a.project, b.project, c.project);
    }
    if a.project == b.project && b.project == c.project {
        if chars_lt(a.environment, b.environment) && chars_lt(b.environment, c.environment) {
            lemma_chars_lt_transitive(a.environment, b.environment, c.environment);
        }
        if a.environment == b.environment && b.environment == c.environment && chars_lt(
            a.environment_id,
            b.environment_id,
        ) && chars_lt(b.environment_id, c.environment_id) {
            lemma_chars_lt_transitive(a.environment_id, b.environment_id, c.environment_id);
        }
    }
}

proof fn lemma_listed_before_asymmetric(a: MetadataView, b: MetadataView)
    ensures
        !(listed_before(a, b) && listed_before(b, a)),
{
    lemma_chars_lt_asymmetric(a.project, b.project);
    lemma_chars_lt_asymmetric(a.environment, b.environment);
    lemma_chars_lt_asymmetric(a.environment_id, b.environment_id);
    lemma_chars_lt_irreflexive(a.project);
    lemma_chars_lt_irreflexive(b.project);
    lemma_chars_lt_irreflexive(a.environment);
    lemma_chars_lt_irreflexive(b.environment);
}

fn listed_before_exec(a: &CacheMetadata, b: &CacheMetadata) -> (res: bool)
    ensures
        res == listed_before(a@, b@),
{
    if str_lt(a.project.as_str(), b.project.as_str()) {
        return true;
    }
    if !same_text(a.project.as_str(), b.project.as_str()) {
        return false;
    }
    if str_lt(a.environment.as_str(), b.environment.as_str()) {
        return true;
    }
    if !same_text(a.environment.as_str(), b.environment.as_str()) {
        return false;
    }
    str_lt(a.environment_id.as_str(), b.environment_id.as_str())
}

/// The entries in listing order; entries that tie keep their order.
fn sort_metadata(entries: Vec<CacheMetadata>) -> (res: Vec<CacheMetadata>)
    ensures
        listing_sorted(metadata_views(res@)),
        metadata_views(res@).to_multiset() == metadata_views(entries@).to_multiset(),
{
    broadcast use vstd::seq_lib::group_to_multiset_ensures;

    let ghost input = metadata_views(entries@);
    let mut source = entries;
    let mut res: Vec<CacheMetadata> = Vec::new();
    let ghost mut k: int = 0;
    while source.len() > 0
        invariant
            0 <= k && k + source@.len() == input.len(),
            metadata_views(source@) == input.subrange(k, input.len() as int),
            listing_sorted(metadata_views(res@)),
            metadata_views(res@).to_multiset() == input.take(k).to_multiset(),
        decreases source@.len(),
    {
        let ghost old_source = source@;
        let x = source.remove(0);
        let ghost xv = x@;
        assert(metadata_views(old_source)[0] == old_source[0]@);
        assert(xv == input[k]);
        assert(metadata_views(source@) =~= metadata_views(old_source).drop_first());
        let ghost rv = metadata_views(res@);
        let mut p: usize = 0;
        while p < res.len()
            invariant
                rv == metadata_views(res@),
                xv == x@,
                p <= res@.len(),
                forall|a: int| 0 <= a < p ==> !listed_before(xv, #[trigger] rv[a]),
            ensures
                p <= res@.len(),
                forall|a: int| 0 <= a < p ==> !listed_before(xv, #[trigger] rv[a]),
                p < res@.len() ==> listed_before(xv, rv[p as int]),
            decreases res@.len() - p,
        {
            assert(rv[p as int] == res@[p as int]@);
            if listed_before_exec(&x, &res[p]) {
                break;
            }
            p = p + 1;
        }
        assert(p < res@.len() ==> rv[p as int] == res@[p as int]@);
        res.insert(p, x);
        proof {
            let nv = metadata_views(res@);
            assert(nv =~= rv.insert(p as int, xv));
            assert forall|i: int, j: int| 0 <= i < j < nv.len() implies !listed_before(
                #[trigger] nv[j],
                #[trigger] nv[i],
            ) by {
                if i < p && j == p {
                    assert(nv[i] == rv[i]);
                } else if i < p && j > p {
                    assert(nv[i] == rv[i]);
                    assert(nv[j] == rv[j - 1]);
                } else if i == p && j > p {
                    assert(nv[j] == rv[j - 1]);
                    assert(listed_before(xv, rv[p as int]));
                    if listed_before(rv[j - 1], xv) {
                        if j - 1 > p {
                            lemma_listed_before_transitive(rv[j - 1], xv, rv[p as int]);
                        }
                        lemma_listed_before_asymmetric(xv, rv[p as int]);
                    }
                } else if i > p {
                    assert(nv[i] == rv[i - 1]);
                    assert(nv[j] == rv[j - 1]);
                } else {
                    assert(nv[i] == rv[i]);
                    assert(nv[j] == rv[j]);
                }
            };
            assert(input.take(k + 1) =~= input.take(k).push(xv));
            vstd::seq_lib::to_multiset_insert(rv, p as int, xv);
            vstd::seq_lib::to_multiset_build(input.take(k), xv);
            assert(metadata_views(source@) =~= input.subrange(k + 1, input.len() as int));
        }
        proof {
            k = k + 1;
        }
    }
    assert(input.take(k) =~= input);
    res
}


/// Some candidate names the record's key and carries its fetch time.
pub open spec fn matched_by(cands: Seq<CacheCandidate>, e: (String, StoredRuntime)) -> bool {
    exists|k: int|
        0 <= k < cands.len() && (#[trigger] cands[k]).environment_id@ == e.0@ && cands[k].fetched_at
            == e.1.fetched_at
}

/// The outcome of removing cache entries.
pub struct CacheRemoval {
    pub removed: Vec<CacheMetadata>,
    pub remaining_count: usize,
}

/// What becomes of the cache file after a removal.
#[derive(Clone, Copy, Debug, PartialEq, Eq, Structural)]
pub enum CacheFileAction {
    /// Nothing was removed: the file is not touched.
    LeaveAlone,
    /// Entries were removed and none remain: the file is deleted.
    Delete,
    /// Entries were removed and some remain: the file is rewritten with the
    /// remaining document.
    Rewrite,
}

/// The file action a removal calls for.
pub fn cache_file_action(removal: &CacheRemoval) -> (res: CacheFileAction)
    ensures
        removal.removed@.len() == 0 ==> res == CacheFileAction::LeaveAlone,
        removal.removed@.len() > 0 && removal.remaining_count == 0 ==> res == CacheFileAction::Delete,
        removal.removed@.len() > 0 && removal.remaining_count > 0 ==> res == CacheFileAction::Rewrite,
{
    if removal.removed.len() == 0 {
        CacheFileAction::LeaveAlone
    } else if removal.remaining_count == 0 {
        CacheFileAction::Delete
    } else {
        CacheFileAction::Rewrite
    }
}

proof fn lemma_keys_unique(envs: Seq<(String, StoredRuntime)>, i: int, j: int)
    requires
        keys_sorted(envs),
        0 <= i < envs.len(),
        0 <= j < envs.len(),
        envs[i].0@ == envs[j].0@,
    ensures
        i == j,
{
    lemma_chars_lt_irreflexive(envs[i].0@);
    if i < j {
        assert(chars_lt(envs[i].0@, envs[j].0@));
    } else if j < i {
        assert(chars_lt(envs[j].0@, envs[i].0@));
    }
}

fn find_key(envs: &Vec<(String, StoredRuntime)>, key: &str) -> (res: Option<usize>)
    ensures
        res matches Some(i) ==> i < envs@.len() && envs@[i as int].0@ == key@,
        res is None ==> forall|j: int| 0 <= j < envs@.len() ==> (#[trigger] envs@[j]).0@ != key@,
{
    let mut i: usize = 0;
    while i < envs.len()
        invariant
            i <= envs@.len(),
            forall|j: int| 0 <= j < i ==> (#[trigger] envs@[j]).0@ != key@,
        decreases envs@.len() - i,
    {
        if same_text(envs[i].0.as_str(), key) {
            return Some(i);
        }
        i = i + 1;
    }
    None
}

proof fn lemma_matched_step(cands: Seq<CacheCandidate>, c: int, x: (String, StoredRuntime))
    requires
        0 <= c < cands.len(),
    ensures
        matched_by(cands.take(c + 1), x) <==> (matched_by(cands.take(c), x) || (
        cands[c].environment_id@ == x.0@ && cands[c].fetched_at == x.1.fetched_at)),
{
    if matched_by(cands.take(c + 1), x) {
        let k = choose|k: int|
            0 <= k < cands.take(c + 1).len() && (#[trigger] cands.take(c + 1)[k]).environment_id@
                == x.0@ && cands.take(c + 1)[k].fetched_at == x.1.fetched_at;
        if k < c {
            assert(cands.take(c)[k] == cands[k]);
        }
    }
    if matched_by(cands.take(c), x) {
        let k = choose|k: int|
            0 <= k < cands.take(c).len() && (#[trigger] cands.take(c)[k]).environment_id@ == x.0@
                && cands.take(c)[k].fetched_at == x.1.fetched_at;
        assert(cands.take(c + 1)[k] == cands[k]);
    }
    if cands[c].environment_id@ == x.0@ && cands[c].fetched_at == x.1.fetched_at {
        assert(cands.take(c + 1)[c] == cands[c]);
    }
}

/// Removes every cached environment that a candidate names with the fetch
/// time it was listed with; a record fetched again since then stays. The
/// removed entries are returned in listing order, with the number of
/// records left.
pub fn remove_matching(
    doc: &mut CacheDocument,
    candidates: &[CacheCandidate],
    now: &Timestamp,
) -> (res: CacheRemoval)
    requires
        old(doc).well_formed(),
        now.valid(),
    ensures
        final(doc).well_formed(),
        final(doc).version == old(doc).version,
        final(doc).server_url == old(doc).server_url,
        final(doc).environments@.to_set() == old(doc).environments@.to_set().filter(
            |e: (String, StoredRuntime)| !matched_by(candidates@, e),
        ),
        exists|r: Seq<(String, StoredRuntime)>|
            #![trigger r.to_set()]
            r.no_duplicates() && r.to_set() == old(doc).environments@.to_set().filter(
                |e: (String, StoredRuntime)| matched_by(candidates@, e),
            ) && metadata_views(res.removed@).to_multiset() == r.map_values(
                |e: (String, StoredRuntime)| metadata_of(e.1, *now),
            ).to_multiset(),
        listing_sorted(metadata_views(res.removed@)),
        res.remaining_count == final(doc).environments@.len(),
{
    let ghost orig = doc.environments@;
    let ghost cands = candidates@;
    let ghost mut r: Seq<(String, StoredRuntime)> = Seq::empty();
    let mut removed: Vec<CacheMetadata> = Vec::new();
    let mut c: usize = 0;
    proof {
        assert(orig.to_set() =~= orig.to_set().filter(
            |e: (String, StoredRuntime)| !matched_by(cands.take(0), e),
        ));
        assert(r.to_set() =~= orig.to_set().filter(
            |e: (String, StoredRuntime)| matched_by(cands.take(0), e),
        ));
        assert(metadata_views(removed@) =~= r.map_values(
            |e: (String, StoredRuntime)| metadata_of(e.1, *now),
        ));
    }
    while c < candidates.len()
        invariant
            c <= cands.len(),
            cands == candidates@,
            now.valid(),
            doc.well_formed(),
            doc.version == old(doc).version,
            doc.server_url == old(doc).server_url,
            orig == old(doc).environments@,
            doc.environments@.to_set() == orig.to_set().filter(
                |e: (String, StoredRuntime)| !matched_by(cands.take(c as int), e),
            ),
            r.no_duplicates(),
            r.to_set() == orig.to_set().filter(
                |e: (String, StoredRuntime)| matched_by(cands.take(c as int), e),
            ),
            metadata_views(removed@) == r.map_values(
                |e: (String, StoredRuntime)| metadata_of(e.1, *now),
            ),
        decreases cands.len() - c,
    {
        let ghost envs = doc.environments@;
        let cand = &candidates[c];
        let found = find_key(&doc.environments, cand.environment_id.as_str());
        let mut hit = false;
        if let Some(i) = found {
            if doc.environments[i].1.fetched_at == cand.fetched_at {
                hit = true;
                let ghost e = envs[i as int];
                let (key, stored) = doc.environments.remove(i);
                assert(stored == e.1);
                proof {
                    lemma_remove_well_formed(envs, i as int);
                    assert(envs.to_set().contains(e));
                }
                let m = metadata(stored, now);
                let ghost mv = m@;
                let ghost old_removed = removed@;
                removed.push(m);
                assert(metadata_views(removed@) =~= metadata_views(old_removed).push(mv));
                proof {
                    let nenvs = doc.environments@;
                    assert forall|x: (String, StoredRuntime)| nenvs.to_set().contains(x) <==> orig.to_set().filter(
                        |e: (String, StoredRuntime)| !matched_by(cands.take(c + 1), e),
                    ).contains(x) by {
                        lemma_matched_step(cands, c as int, x);
                        if nenvs.to_set().contains(x) {
                            let a = choose|a: int| 0 <= a < nenvs.len() && nenvs[a] == x;
                            let b = if a < i { a } else { a + 1 };
                            assert(envs[b] == x);
                            assert(envs.to_set().contains(x));
                            if cands[c as int].environment_id@ == x.0@ {
                                lemma_keys_unique(envs, b, i as int);
                            }
                        }
                        if orig.to_set().filter(
                            |e: (String, StoredRuntime)| !matched_by(cands.take(c + 1), e),
                        ).contains(x) {
                            assert(envs.to_set().contains(x));
                            let b = choose|b: int| 0 <= b < envs.len() && envs[b] == x;
                            if b == i {
                                assert(false);
                            } else {
                                let a = if b < i { b } else { b - 1 };
                                assert(nenvs[a] == x);
                            }
                        }
                    };
                    assert(nenvs.to_set() =~= orig.to_set().filter(
                        |e: (String, StoredRuntime)| !matched_by(cands.take(c + 1), e),
                    ));
                    let nr = r.push(e);
                    assert(!r.to_set().contains(e)) by {
                        assert(envs.to_set().contains(e));
                    };
                    assert(nr.no_duplicates()) by {
                        assert forall|a: int, b: int| 0 <= a < nr.len() && 0 <= b < nr.len() && a != b implies nr[a] != nr[b] by {
                            if a == r.len() {
                                assert(r.to_set().contains(r[b]));
                            } else if b == r.len() {
                                assert(r.to_set().contains(r[a]));
                            }
                        };
                    };
                    assert forall|x: (String, StoredRuntime)| nr.to_set().contains(x) <==> orig.to_set().filter(
                        |e: (String, StoredRuntime)| matched_by(cands.take(c + 1), e),
                    ).contains(x) by {
                        lemma_matched_step(cands, c as int, x);
                        lemma_push_to_set(r, e);
                        if x == e {
                            assert(orig.to_set().contains(e));
                        } else if orig.to_set().contains(x) && cands[c as int].environment_id@ == x.0@
                            && cands[c as int].fetched_at == x.1.fetched_at && !matched_by(
                            cands.take(c as int),
                            x,
                        ) {
                            assert(envs.to_set().contains(x));
                            let b = choose|b: int| 0 <= b < envs.len() && envs[b] == x;
                            lemma_keys_unique(envs, b, i as int);
                        }
                    };
                    assert(nr.to_set() =~= orig.to_set().filter(
                        |e: (String, StoredRuntime)| matched_by(cands.take(c + 1), e),
                    ));
                    assert(metadata_views(removed@) =~= nr.map_values(
                        |e: (String, StoredRuntime)| metadata_of(e.1, *now),
                    ));
                    r = nr;
                }
            }
        }
        if !hit {
            proof {
                assert forall|x: (String, StoredRuntime)| #[trigger] orig.to_set().contains(x) implies (
                matched_by(cands.take(c + 1), x) <==> matched_by(cands.take(c as int), x)) by {
                    lemma_matched_step(cands, c as int, x);
                    if cands[c as int].environment_id@ == x.0@ && cands[c as int].fetched_at
                        == x.1.fetched_at && !matched_by(cands.take(c as int), x) {
                        assert(envs.to_set().contains(x));
                        let b = choose|b: int| 0 <= b < envs.len() && envs[b] == x;
                        match found {
                            Some(i) => {
                                lemma_keys_unique(envs, b, i as int);
                            },
                            None => {
                                assert(envs[b].0@ != cands[c as int].environment_id@);
                            },
                        }
                    }
                };
                assert(doc.environments@.to_set() =~= orig.to_set().filter(
                    |e: (String, StoredRuntime)| !matched_by(cands.take(c + 1), e),
                ));
                assert(r.to_set() =~= orig.to_set().filter(
                    |e: (String, StoredRuntime)| matched_by(cands.take(c + 1), e),
                ));
            }
        }
        c = c + 1;
    }
    proof {
        assert(cands.take(cands.len() as int) =~= cands);
    }
    let ghost unsorted = metadata_views(removed@);
    let removed = sort_metadata(removed);
    let remaining_count = doc.environments.len();
    CacheRemoval { removed, remaining_count }
}


/// Length of the XChaCha20 nonce stored in the envelope.
pub const NONCE_LENGTH: usize = 24;

/// Length of the local key and of the derived cache key.
pub const KEY_LENGTH: usize = 32;

/// Length of the envelope header: magic bytes, version, nonce.
pub const HEADER_LENGTH: usize = 33;

/// The largest document, in bytes, the cache writes or reads.
pub const MAX_CACHE_DOCUMENT_BYTES: usize = 33554432;

/// The bytes that open every cache file: `DOPRUN` and two zero bytes.
pub open spec fn magic_bytes() -> Seq<u8> {
    seq![68u8, 79, 80, 82, 85, 78, 0, 0]
}

/// The associated data of the cache encryption: `dopbase-run-cache-v1`.
pub open spec fn aad_bytes() -> Seq<u8> {
    seq![100u8, 111, 112, 98, 97, 115, 101, 45, 114, 117, 110, 45, 99, 97, 99, 104, 101, 45, 118, 49]
}

/// The HKDF info prefix of the cache key: `dopbase-run-cache-key-v1`.
pub open spec fn kdf_info_prefix() -> Seq<u8> {
    seq![
        100u8, 111, 112, 98, 97, 115, 101, 45, 114, 117, 110, 45, 99, 97, 99, 104, 101, 45, 107,
        101, 121, 45, 118, 49,
    ]
}

fn magic() -> (res: Vec<u8>)
    ensures
        res@ == magic_bytes(),
{
    let res = vec![68u8, 79, 80, 82, 85, 78, 0, 0];
    assert(res@ =~= magic_bytes());
    res
}

fn aad() -> (res: Vec<u8>)
    ensures
        res@ == aad_bytes(),
{
    let res = vec![100u8, 111, 112, 98, 97, 115, 101, 45, 114, 117, 110, 45, 99, 97, 99, 104, 101, 45, 118, 49];
    assert(res@ =~= aad_bytes());
    res
}

fn kdf_info() -> (res: Vec<u8>)
    ensures
        res@ == kdf_info_prefix(),
{
    let res = vec![
        100u8, 111, 112, 98, 97, 115, 101, 45, 114, 117, 110, 45, 99, 97, 99, 104, 101, 45, 107,
        101, 121, 45, 118, 49,
    ];
    assert(res@ =~= kdf_info_prefix());
    res
}

/// The bytes of a cache file: magic bytes, version, nonce, ciphertext.
pub open spec fn envelope(nonce: Seq<u8>, ciphertext: Seq<u8>) -> Seq<u8> {
    magic_bytes() + seq![VERSION] + nonce + ciphertext
}

fn append_bytes(dst: &mut Vec<u8>, src: &[u8])
    ensures
        final(dst)@ == old(dst)@ + src@,
{
    let mut i: usize = 0;
    while i < src.len()
        invariant
            i <= src@.len(),
            dst@ == old(dst)@ + src@.subrange(0, i as int),
        decreases src@.len() - i,
    {
        dst.push(src[i]);
        i = i + 1;
        assert(dst@ =~= old(dst)@ + src@.subrange(0, i as int));
    }
    assert(src@.subrange(0, src@.len() as int) =~= src@);
}

fn sub_bytes(src: &[u8], from: usize, to: usize) -> (res: Vec<u8>)
    requires
        from <= to <= src@.len(),
    ensures
        res@ == src@.subrange(from as int, to as int),
{
    let mut res: Vec<u8> = Vec::new();
    let mut i: usize = from;
    while i < to
        invariant
            from <= i <= to,
            to <= src@.len(),
            res@ == src@.subrange(from as int, i as int),
        decreases to - i,
    {
        res.push(src[i]);
        i = i + 1;
        assert(res@ =~= src@.subrange(from as int, i as int));
    }
    res
}

/// The encrypted cache file holding `clear`, sealed under `key` with
/// `nonce`; a document larger than `MAX_CACHE_DOCUMENT_BYTES` is refused.
pub fn seal_envelope(key: &[u8], nonce: &[u8], clear: &[u8]) -> (res: Result<Vec<u8>, CacheError>)
    requires
        key@.len() == KEY_LENGTH,
        nonce@.len() == NONCE_LENGTH,
    ensures
        clear@.len() > MAX_CACHE_DOCUMENT_BYTES ==> res == Err::<Vec<u8>, CacheError>(
            CacheError::TooLarge,
        ),
        clear@.len() <= MAX_CACHE_DOCUMENT_BYTES ==> (res matches Ok(bytes) && bytes@ == envelope(
            nonce@,
            xchacha20poly1305_seal(key@, nonce@, clear@, aad_bytes()),
        ) && bytes@.len() == clear@.len() + HEADER_LENGTH + 16),
{
    if clear.len() > MAX_CACHE_DOCUMENT_BYTES {
        return Err(CacheError::TooLarge);
    }
    let associated = aad();
    match xchacha20poly1305_encrypt(key, nonce, clear, associated.as_slice()) {
        None => Err(CacheError::EncryptionFailed),
        Some(ciphertext) => {
            let mut bytes = magic();
            bytes.push(VERSION);
            append_bytes(&mut bytes, nonce);
            append_bytes(&mut bytes, ciphertext.as_slice());
            Ok(bytes)
        },
    }
}

/// The encrypted cache file holding `clear`, under a fresh random nonce.
pub fn encrypt_document(key: &[u8], clear: &[u8]) -> (res: Result<Vec<u8>, CacheError>)
    requires
        key@.len() == KEY_LENGTH,
    ensures
        clear@.len() > MAX_CACHE_DOCUMENT_BYTES ==> res == Err::<Vec<u8>, CacheError>(
            CacheError::TooLarge,
        ),
        res matches Ok(bytes) ==> exists|nonce: Seq<u8>|
            nonce.len() == NONCE_LENGTH && bytes@ == #[trigger] envelope(
                nonce,
                xchacha20poly1305_seal(key@, nonce, clear@, aad_bytes()),
            ),
        clear@.len() <= MAX_CACHE_DOCUMENT_BYTES ==> (res is Ok || res == Err::<Vec<u8>, CacheError>(
            CacheError::RandomUnavailable,
        )),
        res matches Err(e) ==> e == CacheError::TooLarge || e == CacheError::RandomUnavailable,
{
    if clear.len() > MAX_CACHE_DOCUMENT_BYTES {
        return Err(CacheError::TooLarge);
    }
    match random_bytes(NONCE_LENGTH) {
        None => Err(CacheError::RandomUnavailable),
        Some(nonce) => seal_envelope(key, nonce.as_slice(), clear),
    }
}

/// A fresh random local key.
pub fn new_local_key() -> (res: Result<Vec<u8>, CacheError>)
    ensures
        res matches Ok(k) ==> k@.len() == KEY_LENGTH,
        res matches Err(e) ==> e == CacheError::RandomUnavailable,
{
    match random_bytes(KEY_LENGTH) {
        None => Err(CacheError::RandomUnavailable),
        Some(k) => Ok(k),
    }
}

/// What a cache file holds once opened under `key`.
pub open spec fn opened(key: Seq<u8>, stored: Seq<u8>) -> Result<Seq<u8>, CacheError> {
    if stored.len() > MAX_CACHE_DOCUMENT_BYTES {
        Err(CacheError::TooLarge)
    } else if stored.len() <= HEADER_LENGTH || stored.take(8) != magic_bytes() {
        Err(CacheError::InvalidFormat)
    } else if stored[8] != VERSION {
        Err(CacheError::UnsupportedVersion)
    } else {
        match xchacha20poly1305_open(key, stored.subrange(9, 33), stored.skip(33), aad_bytes()) {
            Some(clear) => Ok(clear),
            None => Err(CacheError::AuthenticationFailed),
        }
    }
}

/// The document inside an encrypted cache file. A file that `seal_envelope`
/// made under the same key (its length is the document's plus the header
/// and the 16-byte tag), and that is itself within the size limit, opens to
/// the document it sealed.
pub fn open_envelope(key: &[u8], stored: &[u8]) -> (res: Result<Vec<u8>, CacheError>)
    requires
        key@.len() == KEY_LENGTH,
    ensures
        match opened(key@, stored@) {
            Ok(clear) => (res matches Ok(bytes) && bytes@ == clear),
            Err(e) => res == Err::<Vec<u8>, CacheError>(e),
        },
        forall|nonce: Seq<u8>, clear: Seq<u8>|
            #![trigger envelope(nonce, xchacha20poly1305_seal(key@, nonce, clear, aad_bytes()))]
            nonce.len() == NONCE_LENGTH && stored@.len() == clear.len() + HEADER_LENGTH + 16
                && stored@.len() <= MAX_CACHE_DOCUMENT_BYTES && stored@ == envelope(
                nonce,
                xchacha20poly1305_seal(key@, nonce, clear, aad_bytes()),
            ) ==> (res matches Ok(bytes) && bytes@ == clear),
{
    let ghost s = stored@;
    if stored.len() > MAX_CACHE_DOCUMENT_BYTES {
        return Err(CacheError::TooLarge);
    }
    if stored.len() <= HEADER_LENGTH {
        return Err(CacheError::InvalidFormat);
    }
    let m = magic();
    let mut i: usize = 0;
    while i < 8
        invariant
            i <= 8,
            HEADER_LENGTH < stored@.len() <= MAX_CACHE_DOCUMENT_BYTES,
            m@ == magic_bytes(),
            forall|k: int| 0 <= k < i ==> stored@[k] == m@[k],
        decreases 8 - i,
    {
        if stored[i] != m[i] {
            assert(stored@.take(8)[i as int] == stored@[i as int]);
            assert(m@[i as int] == magic_bytes()[i as int]);
            assert(stored@.take(8)[i as int] != magic_bytes()[i as int]);
            assert(stored@.take(8) != magic_bytes());
            return Err(CacheError::InvalidFormat);
        }
        i = i + 1;
    }
    assert(stored@.take(8) =~= magic_bytes());
    if stored[8] != VERSION {
        return Err(CacheError::UnsupportedVersion);
    }
    let nonce = sub_bytes(stored, 9, 33);
    let ciphertext = sub_bytes(stored, 33, stored.len());
    assert(ciphertext@ =~= stored@.skip(33));
    let associated = aad();
    let res = match xchacha20poly1305_decrypt(key, nonce.as_slice(), ciphertext.as_slice(), associated.as_slice()) {
        None => Err(CacheError::AuthenticationFailed),
        Some(clear) => Ok(clear),
    };
    proof {
        assert forall|n: Seq<u8>, clear: Seq<u8>|
            #![trigger envelope(n, xchacha20poly1305_seal(key@, n, clear, aad_bytes()))]
            n.len() == NONCE_LENGTH && s.len() == clear.len() + HEADER_LENGTH + 16 && s == envelope(
                n,
                xchacha20poly1305_seal(key@, n, clear, aad_bytes()),
            ) && s.len() <= MAX_CACHE_DOCUMENT_BYTES implies (res matches Ok(bytes) && bytes@ == clear) by {
            let ct = xchacha20poly1305_seal(key@, n, clear, aad_bytes());
            assert(s.subrange(9, 33) =~= n);
            assert(s.skip(33) =~= ct);
            assert(clear.len() / 64 < 0xffff_ffff);
        };
    }
    res
}


/// The lowercase hexadecimal digit of a value below 16.
pub open spec fn hex_digit(n: nat) -> char {
    if n < 10 {
        (48 + n) as char
    } else {
        (87 + n) as char
    }
}

/// Two lowercase hexadecimal digits per byte, high nibble first.
pub open spec fn hex_lower(bytes: Seq<u8>) -> Seq<char>
    decreases bytes.len(),
{
    if bytes.len() == 0 {
        seq![]
    } else {
        hex_lower(bytes.drop_last()) + seq![
            hex_digit((bytes.last() / 16) as nat),
            hex_digit((bytes.last() % 16) as nat),
        ]
    }
}

fn hex_char(n: u8) -> (c: char)
    requires
        n < 16,
    ensures
        c == hex_digit(n as nat),
{
    if n < 10 {
        (48 + n) as char
    } else {
        (87 + n) as char
    }
}

/// Lowercase hexadecimal text of a byte string.
pub fn to_hex_lower(bytes: &[u8]) -> (res: String)
    ensures
        res@ == hex_lower(bytes@),
{
    let mut res = String::new();
    let mut i: usize = 0;
    while i < bytes.len()
        invariant
            i <= bytes@.len(),
            res@ == hex_lower(bytes@.take(i as int)),
        decreases bytes@.len() - i,
    {
        let b = bytes[i];
        push_char(&mut res, hex_char(b / 16));
        push_char(&mut res, hex_char(b % 16));
        assert(bytes@.take(i + 1).drop_last() =~= bytes@.take(i as int));
        i = i + 1;
    }
    assert(bytes@.take(bytes@.len() as int) =~= bytes@);
    res
}

/// The file name of a server's cache: the SHA-256 of its URL in lowercase
/// hexadecimal.
pub fn cache_file_name(server_url: &str) -> (res: String)
    ensures
        res@ == hex_lower(sha256_digest(server_url.spec_bytes())),
{
    let digest = sha256(server_url.as_bytes());
    to_hex_lower(digest.as_slice())
}

/// The key that encrypts a server's cache: HKDF-SHA-256 with the local key
/// as salt, the credential as input key material, and the info prefix
/// followed by the server URL.
pub fn derive_key(local_key: &[u8], credential: &str, server_url: &str) -> (res: Vec<u8>)
    ensures
        res@ == hkdf_sha256_32(
            local_key@,
            credential.spec_bytes(),
            kdf_info_prefix() + server_url.spec_bytes(),
        ),
        res@.len() == KEY_LENGTH,
{
    let mut info = kdf_info();
    append_bytes(&mut info, server_url.as_bytes());
    hkdf_sha256(local_key, credential.as_bytes(), info.as_slice())
}

/// Accepts a local key only if it has exactly `KEY_LENGTH` bytes.
pub fn check_key(key: &[u8]) -> (res: Result<(), CacheError>)
    ensures
        res is Ok <==> key@.len() == KEY_LENGTH,
        res is Err ==> res == Err::<(), CacheError>(CacheError::InvalidKeyLength),
{
    if key.len() != KEY_LENGTH {
        Err(CacheError::InvalidKeyLength)
    } else {
        Ok(())
    }
}

/// What `dopbase cache list` shows for one server.
pub struct CacheSnapshot {
    pub server_url: String,
    pub entries: Vec<CacheMetadata>,
}

/// The snapshot of a server without a cache file: no entries.
pub fn empty_snapshot(server_url: &str) -> (res: CacheSnapshot)
    ensures
        res.server_url@ == server_url@,
        res.entries@.len() == 0,
{
    CacheSnapshot { server_url: String::from_str(server_url), entries: Vec::new() }
}

/// Every cached environment of a document of this version and server, in
/// listing order, with its age at time `now`.
pub fn snapshot(doc: CacheDocument, server_url: &str, now: &Timestamp) -> (res: Result<
    CacheSnapshot,
    CacheError,
>)
    requires
        doc.well_formed(),
        now.valid(),
    ensures
        !in_scope(&doc, server_url@) ==> res == Err::<CacheSnapshot, CacheError>(
            CacheError::InvalidScope,
        ),
        in_scope(&doc, server_url@) ==> (res matches Ok(snap) && snap.server_url@ == server_url@
            && listing_sorted(metadata_views(snap.entries@)) && metadata_views(
            snap.entries@,
        ).to_multiset() == doc.environments@.map_values(
            |e: (String, StoredRuntime)| metadata_of(e.1, *now),
        ).to_multiset()),
{
    if let Err(e) = validate_document(&doc, server_url) {
        return Err(e);
    }
    let ghost envs = doc.environments@;
    let mut source = doc.environments;
    let mut entries: Vec<CacheMetadata> = Vec::new();
    let ghost mut k: int = 0;
    while source.len() > 0
        invariant
            0 <= k && k + source@.len() == envs.len(),
            source@ == envs.subrange(k, envs.len() as int),
            times_valid(envs),
            now.valid(),
            metadata_views(entries@) == envs.take(k).map_values(
                |e: (String, StoredRuntime)| metadata_of(e.1, *now),
            ),
        decreases source@.len(),
    {
        let (_key, stored) = source.remove(0);
        assert(envs[k] == (_key, stored));
        let m = metadata(stored, now);
        let ghost mv = m@;
        let ghost before = entries@;
        entries.push(m);
        proof {
            assert(metadata_views(entries@) =~= metadata_views(before).push(mv));
            assert(envs.take(k + 1) =~= envs.take(k).push(envs[k]));
            assert(source@ =~= envs.subrange(k + 1, envs.len() as int));
            k = k + 1;
        }
    }
    assert(envs.take(k) =~= envs);
    let entries = sort_metadata(entries);
    Ok(CacheSnapshot { server_url: String::from_str(server_url), entries })
}


/// The directory, under the client's data directory, that holds the cache
/// files.
pub const CACHE_DIRECTORY: &'static str = "run-cache";

/// The file, in the client's data directory, that holds the local key.
pub const CACHE_KEY_FILENAME: &'static str = "run-cache-key";

/// The name of a server's lock file: its cache file name and `.lock`.
pub fn lock_file_name(server_url: &str) -> (res: String)
    ensures
        res@ == hex_lower(sha256_digest(server_url.spec_bytes())) + ".lock"@,
{
    let mut res = cache_file_name(server_url);
    res.append(".lock");
    res
}

/// The message for a cache file that could not be read, which leaves the
/// file alone and says how to recover.
pub fn recovery_error(path: &str, error: &str) -> (res: String)
    ensures
        res@ == "encrypted runtime cache at "@ + path@ + " could not be read: "@ + error@
            + ". The file was not changed. Retry with the credential that created it. If the file is damaged or no longer needed, move it out of the run-cache directory and run `dopbase run` while the server is available"@,
{
    let mut res = "encrypted runtime cache at ".to_owned();
    res.append(path);
    res.append(" could not be read: ");
    res.append(error);
    res.append(
        ". The file was not changed. Retry with the credential that created it. If the file is damaged or no longer needed, move it out of the run-cache directory and run `dopbase run` while the server is available",
    );
    res
}

} // verus!
