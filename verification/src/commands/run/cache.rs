//! Where `dopbase run` gets its secrets: the live runtime response when the
//! server answers, the encrypted cache when it does not, and the checks both
//! must pass before anything reaches a child process.

use crate::commands::cache::store::{age_text, format_age, CachedRuntime};
use crate::models::{rfc3339_seconds, rfc3339_utc_seconds, seconds_between, whole_seconds_between, SecretInput, Timestamp};
use crate::text::{contains_char, same_text};
use vstd::prelude::*;
use vstd::string::*;
use vstd::utf8::encode_utf8;

verus! {

/// Where the secrets of a run came from.
pub enum RuntimeSource {
    /// The server answered; `cache_warning` says why the cache was not updated.
    Live { cache_warning: Option<String> },
    /// The server did not answer and the encrypted cache was used.
    Cache { fetched_at: String, age: String, reason: String },
}

impl RuntimeSource {
    /// `live` or `cache`.
    pub fn as_str(&self) -> (res: &'static str)
        ensures
            self is Live ==> res@ == "live"@,
            self is Cache ==> res@ == "cache"@,
    {
        match self {
            RuntimeSource::Live { .. } => "live",
            RuntimeSource::Cache { .. } => "cache",
        }
    }
}

/// The secrets a run injects and where they came from.
pub struct RuntimeLoad {
    pub project: String,
    pub environment: String,
    pub environment_id: String,
    pub entries: Vec<SecretInput>,
    pub source: RuntimeSource,
}

/// The server's runtime response for one environment.
pub struct RuntimeResponse {
    pub project: String,
    pub environment: String,
    pub environment_id: String,
    pub entries: Vec<SecretInput>,
}

/// The UTF-8 size of a text, in bytes.
pub open spec fn byte_len(s: Seq<char>) -> nat {
    encode_utf8(s).len()
}

/// The total UTF-8 size of every key and value.
pub open spec fn total_bytes(entries: Seq<SecretInput>) -> nat
    decreases entries.len(),
{
    if entries.len() == 0 {
        0
    } else {
        total_bytes(entries.drop_last()) + byte_len(entries.last().key@) + byte_len(
            entries.last().value@,
        )
    }
}

/// A name an environment variable can have: not empty, without `=` or NUL.
pub open spec fn valid_name(key: Seq<char>) -> bool {
    key.len() > 0 && !key.contains('=') && !key.contains('\0')
}

/// The first problem met walking the entries in order: a bad name, a bad
/// value (holding NUL) or a name already used by an earlier entry.
pub open spec fn entry_problem(entries: Seq<SecretInput>) -> Option<Seq<char>>
    decreases entries.len(),
{
    if entries.len() == 0 {
        None
    } else {
        match entry_problem(entries.drop_last()) {
            Some(m) => Some(m),
            None => {
                let e = entries.last();
                if !valid_name(e.key@) {
                    Some("runtime response contained an invalid environment variable name"@)
                } else if e.value@.contains('\0') {
                    Some("runtime response contained an invalid environment variable value"@)
                } else if exists|k: int|
                    0 <= k < entries.len() - 1 && (#[trigger] entries[k]).key@ == e.key@ {
                    Some("runtime response contained a duplicate environment variable name"@)
                } else {
                    None
                }
            },
        }
    }
}

/// Why a set of runtime entries is refused, if it is: too many entries, a
/// total size past `usize`, a total size past `max_bytes`, or the first
/// problem with one entry.
pub open spec fn entries_problem(
    entries: Seq<SecretInput>,
    max_secrets: nat,
    max_bytes: nat,
) -> Option<Seq<char>> {
    if entries.len() > max_secrets {
        Some("runtime response exceeded the maximum number of environment variables"@)
    } else if total_bytes(entries) > usize::MAX {
        Some("runtime response size overflowed"@)
    } else if total_bytes(entries) > max_bytes {
        Some("runtime response exceeded the maximum secret collection size"@)
    } else {
        entry_problem(entries)
    }
}

proof fn lemma_good_entries_have_no_problem(entries: Seq<SecretInput>)
    requires
        forall|i: int| 0 <= i < entries.len() ==> (#[trigger] entries[i]).key@.len() > 0,
        forall|i: int, j: int|
            0 <= i < entries.len() && 0 <= j < entries[i].key@.len() ==> (#[trigger] entries[i].key@[j])
                != '=' && entries[i].key@[j] != '\0',
        forall|i: int, j: int|
            0 <= i < entries.len() && 0 <= j < entries[i].value@.len() ==> #[trigger] entries[i].value@[j]
                != '\0',
        forall|i: int, j: int|
            0 <= i < j < entries.len() ==> (#[trigger] entries[i]).key@ != (#[trigger] entries[j]).key@,
    ensures
        entry_problem(entries) is None,
    decreases entries.len(),
{
    if entries.len() > 0 {
        let rest = entries.drop_last();
        assert forall|i: int| 0 <= i < rest.len() implies rest[i] == entries[i] by {}
        lemma_good_entries_have_no_problem(rest);
        let n = entries.len() - 1;
        let e = entries.last();
        assert(e == entries[n]);
        assert(!e.key@.contains('=')) by {
            if e.key@.contains('=') {
                let j = choose|j: int| 0 <= j < e.key@.len() && e.key@[j] == '=';
                assert(entries[n].key@[j] != '=');
            }
        }
        assert(!e.key@.contains('\0')) by {
            if e.key@.contains('\0') {
                let j = choose|j: int| 0 <= j < e.key@.len() && e.key@[j] == '\0';
                assert(entries[n].key@[j] != '\0');
            }
        }
        assert(!e.value@.contains('\0')) by {
            if e.value@.contains('\0') {
                let j = choose|j: int| 0 <= j < e.value@.len() && e.value@[j] == '\0';
                assert(entries[n].value@[j] != '\0');
            }
        }
        assert(!exists|k: int| 0 <= k < entries.len() - 1 && (#[trigger] entries[k]).key@ == e.key@) by {
            if exists|k: int| 0 <= k < entries.len() - 1 && (#[trigger] entries[k]).key@ == e.key@ {
                let k = choose|k: int| 0 <= k < entries.len() - 1 && (#[trigger] entries[k]).key@ == e.key@;
                assert(entries[k].key@ != entries[n].key@);
            }
        }
    }
}

/// Entries are accepted whenever each name is non-empty and holds neither
/// `=` nor NUL (so `DATABASE_URL`, with its underscore, is a name like any
/// other), each value is free of NUL, no name is used twice, and the count
/// and total size are within the limits.
pub proof fn law_valid_entries_are_accepted(entries: Seq<SecretInput>, max_secrets: nat, max_bytes: nat)
    requires
        entries.len() <= max_secrets,
        total_bytes(entries) <= max_bytes,
        max_bytes <= usize::MAX,
        forall|i: int| 0 <= i < entries.len() ==> (#[trigger] entries[i]).key@.len() > 0,
        forall|i: int, j: int|
            0 <= i < entries.len() && 0 <= j < entries[i].key@.len() ==> (#[trigger] entries[i].key@[j])
                != '=' && entries[i].key@[j] != '\0',
        forall|i: int, j: int|
            0 <= i < entries.len() && 0 <= j < entries[i].value@.len() ==> #[trigger] entries[i].value@[j]
                != '\0',
        forall|i: int, j: int|
            0 <= i < j < entries.len() ==> (#[trigger] entries[i]).key@ != (#[trigger] entries[j]).key@,
    ensures
        entries_problem(entries, max_secrets, max_bytes) is None,
{
    lemma_good_entries_have_no_problem(entries);
}

proof fn lemma_problem_persists(entries: Seq<SecretInput>, n: int)
    requires
        0 <= n <= entries.len(),
        entry_problem(entries.take(n)) is Some,
    ensures
        entry_problem(entries) is Some,
    decreases entries.len() - n,
{
    if n < entries.len() {
        let longer = entries.take(n + 1);
        assert(longer.drop_last() =~= entries.take(n));
        lemma_problem_persists(entries, n + 1);
    } else {
        assert(entries.take(n) =~= entries);
    }
}

/// Entries are refused when a name is empty or holds `=` or NUL, when a
/// value holds NUL, or when two entries share a name.
pub proof fn law_invalid_entries_are_refused(entries: Seq<SecretInput>, max_secrets: nat, max_bytes: nat, i: int, j: int)
    requires
        0 <= i < entries.len(),
        0 <= j < entries.len(),
        entries[i].key@.len() == 0 || entries[i].key@.contains('=') || entries[i].key@.contains('\0')
            || entries[i].value@.contains('\0') || (i < j && entries[i].key@ == entries[j].key@),
    ensures
        entries_problem(entries, max_secrets, max_bytes) is Some,
{
    let bad_entry = entries[i].key@.len() == 0 || entries[i].key@.contains('=') || entries[i].key@.contains('\0')
        || entries[i].value@.contains('\0');
    let n = if bad_entry { i } else { j };
    let prefix = entries.take(n + 1);
    assert(prefix.drop_last() =~= entries.take(n));
    assert(prefix.last() == entries[n]);
    if entry_problem(prefix.drop_last()) is None {
        if !bad_entry {
            assert(prefix[i] == entries[i]);
            assert(0 <= i < prefix.len() - 1 && prefix[i].key@ == prefix.last().key@);
        }
        assert(entry_problem(prefix) is Some);
    }
    assert(entry_problem(prefix) is Some);
    lemma_problem_persists(entries, n + 1);
}

proof fn lemma_total_bytes_prefix(entries: Seq<SecretInput>, i: int)
    requires
        0 <= i <= entries.len(),
    ensures
        total_bytes(entries.take(i)) <= total_bytes(entries),
    decreases entries.len(),
{
    if i < entries.len() {
        assert(entries.drop_last().take(i) =~= entries.take(i));
        lemma_total_bytes_prefix(entries.drop_last(), i);
    } else {
        assert(entries.take(i) =~= entries);
    }
}

/// Checks runtime entries before they are injected: at most `max_secrets`
/// of them, at most `max_bytes` of keys and values, and each a valid name
/// with a value free of NUL, every name used once.
pub fn validate_entries(entries: &[SecretInput], max_secrets: usize, max_bytes: usize) -> (res:
    Result<(), String>)
    ensures
        match entries_problem(entries@, max_secrets as nat, max_bytes as nat) {
            Some(m) => res matches Err(e) && e@ == m,
            None => res is Ok,
        },
{
    proof {
        reveal_strlit("runtime response exceeded the maximum number of environment variables");
        reveal_strlit("runtime response size overflowed");
        reveal_strlit("runtime response exceeded the maximum secret collection size");
        reveal_strlit("runtime response contained an invalid environment variable name");
        reveal_strlit("runtime response contained an invalid environment variable value");
        reveal_strlit("runtime response contained a duplicate environment variable name");
    }
    let ghost ev = entries@;
    if entries.len() > max_secrets {
        return Err("runtime response exceeded the maximum number of environment variables".to_owned());
    }
    let mut total: usize = 0;
    let mut i: usize = 0;
    while i < entries.len()
        invariant
            ev == entries@,
            i <= ev.len(),
            ev.len() <= max_secrets,
            total == total_bytes(ev.take(i as int)),
        decreases ev.len() - i,
    {
        let key_len = entries[i].key.as_str().as_bytes().len();
        let value_len = entries[i].value.as_str().as_bytes().len();
        proof {
            assert(ev.take(i + 1).drop_last() =~= ev.take(i as int));
            assert(ev.take(i + 1).last() == ev[i as int]);
        }
        let with_key = match total.checked_add(key_len) {
            Some(t) => t,
            None => {
                proof {
                    lemma_total_bytes_prefix(ev, i + 1);
                }
                return Err("runtime response size overflowed".to_owned());
            },
        };
        assert(with_key == total + key_len);
        assert(total_bytes(ev.take(i + 1)) == total + key_len + value_len);
        let next = match with_key.checked_add(value_len) {
            Some(t) => t,
            None => {
                proof {
                    lemma_total_bytes_prefix(ev, i + 1);
                }
                return Err("runtime response size overflowed".to_owned());
            },
        };
        total = next;
        i = i + 1;
    }
    assert(ev.take(ev.len() as int) =~= ev);
    if total > max_bytes {
        return Err("runtime response exceeded the maximum secret collection size".to_owned());
    }
    let mut j: usize = 0;
    while j < entries.len()
        invariant
            ev == entries@,
            j <= ev.len(),
            entry_problem(ev.take(j as int)) is None,
            ev.len() <= max_secrets,
            total_bytes(ev) <= max_bytes,
        decreases ev.len() - j,
    {
        let ghost prefix = ev.take(j + 1);
        proof {
            assert(prefix.drop_last() =~= ev.take(j as int));
            assert(prefix.last() == ev[j as int]);
        }
        let key = entries[j].key.as_str();
        if key.unicode_len() == 0 || contains_char(key, '=') || contains_char(key, '\0') {
            proof {
                lemma_problem_extends(ev, j as int + 1);
            }
            return Err("runtime response contained an invalid environment variable name".to_owned());
        }
        if contains_char(entries[j].value.as_str(), '\0') {
            proof {
                lemma_problem_extends(ev, j as int + 1);
            }
            return Err("runtime response contained an invalid environment variable value".to_owned());
        }
        let mut k: usize = 0;
        while k < j
            invariant
                ev == entries@,
                k <= j < ev.len(),
                prefix == ev.take(j + 1),
                key@ == ev[j as int].key@,
                valid_name(ev[j as int].key@),
                !ev[j as int].value@.contains('\0'),
                entry_problem(ev.take(j as int)) is None,
                prefix.drop_last() == ev.take(j as int),
                prefix.last() == ev[j as int],
                ev.len() <= max_secrets,
                total_bytes(ev) <= max_bytes,
                forall|m: int| 0 <= m < k ==> ev[m].key@ != ev[j as int].key@,
            decreases j - k,
        {
            if same_text(entries[k].key.as_str(), key) {
                proof {
                    assert(prefix[k as int] == ev[k as int]);
                    assert(prefix[k as int].key@ == prefix.last().key@);
                    lemma_problem_extends(ev, j as int + 1);
                }
                return Err("runtime response contained a duplicate environment variable name".to_owned());
            }
            k = k + 1;
        }
        proof {
            assert forall|m: int| 0 <= m < prefix.len() - 1 implies (#[trigger] prefix[m]).key@
                != prefix.last().key@ by {
                assert(prefix[m] == ev[m]);
            }
        }
        j = j + 1;
    }
    assert(ev.take(ev.len() as int) =~= ev);
    Ok(())
}

/// Once a prefix has a problem, every longer run of entries has the same one.
proof fn lemma_problem_extends(entries: Seq<SecretInput>, i: int)
    requires
        0 <= i <= entries.len(),
    ensures
        entry_problem(entries.take(i)) is Some ==> entry_problem(entries) == entry_problem(
            entries.take(i),
        ),
    decreases entries.len(),
{
    if i < entries.len() {
        assert(entries.drop_last().take(i) =~= entries.take(i));
        lemma_problem_extends(entries.drop_last(), i);
    } else {
        assert(entries.take(i) =~= entries);
    }
}

/// The first line of a message, as `str::lines` gives it: up to the first
/// line feed, without the carriage return before it.
pub open spec fn first_line(s: Seq<char>) -> Seq<char> {
    if exists|i: int| 0 <= i < s.len() && s[i] == '\n' {
        let i = choose|i: int| 0 <= i < s.len() && s[i] == '\n' && forall|k: int| 0 <= k < i ==> s[k] != '\n';
        if i > 0 && s[i - 1] == '\r' {
            s.subrange(0, i - 1)
        } else {
            s.subrange(0, i)
        }
    } else {
        s
    }
}

/// The short reason shown for an unavailable server: the first line of the
/// error, or `Dopbase is unavailable` when the error text is empty.
pub open spec fn concise(message: Seq<char>) -> Seq<char> {
    if message.len() == 0 {
        "Dopbase is unavailable"@
    } else {
        first_line(message)
    }
}

/// The first line of an error's text, for the cache fallback warning.
pub fn concise_reason(message: &str) -> (res: String)
    ensures
        res@ == concise(message@),
{
    proof {
        reveal_strlit("Dopbase is unavailable");
    }
    let n = message.unicode_len();
    if n == 0 {
        return "Dopbase is unavailable".to_owned();
    }
    let mut i: usize = 0;
    while i < n && message.get_char(i) != '\n'
        invariant
            n == message@.len(),
            i <= n,
            forall|k: int| 0 <= k < i ==> message@[k] != '\n',
        decreases n - i,
    {
        i = i + 1;
    }
    if i == n {
        return message.to_owned();
    }
    proof {
        let s = message@;
        assert(s[i as int] == '\n');
        let c = choose|c: int| 0 <= c < s.len() && s[c] == '\n' && forall|k: int| 0 <= k < c ==> s[k] != '\n';
        assert(c == i) by {
            if c < i {
                assert(s[c] != '\n');
            }
            if c > i {
                assert(s[i as int] != '\n');
            }
        }
    }
    let end = if i > 0 && message.get_char(i - 1) == '\r' {
        i - 1
    } else {
        i
    };
    message.substring_char(0, end).to_owned()
}

/// The message of a runtime response that does not match what was asked.
pub open spec fn response_problem(id: Seq<char>, response: RuntimeResponse) -> Option<Seq<char>> {
    if response.environment_id@ != id {
        Some("runtime response returned a different environment id"@)
    } else if response.project@.len() == 0 || response.environment@.len() == 0 {
        Some("runtime response contained empty environment metadata"@)
    } else {
        None
    }
}

/// The message for an environment lookup that returned an empty ID.
pub open spec fn empty_id_message() -> Seq<char> {
    "environment response contained an empty id"@
}

/// An environment lookup must name a non-empty ID before its secrets are
/// fetched.
pub fn check_environment_id(id: &str) -> (res: Result<(), String>)
    ensures
        id@.len() == 0 ==> (res matches Err(m) && m@ == empty_id_message()),
        id@.len() > 0 ==> res is Ok,
{
    proof {
        reveal_strlit("environment response contained an empty id");
    }
    if id.unicode_len() == 0 {
        return Err("environment response contained an empty id".to_owned());
    }
    Ok(())
}

/// A live runtime response is accepted when it is for environment `id`, has
/// a project and environment name, and its entries pass `validate_entries`.
pub fn check_runtime_response(
    id: &str,
    response: &RuntimeResponse,
    max_secrets: usize,
    max_bytes: usize,
) -> (res: Result<(), String>)
    ensures
        match response_problem(id@, *response) {
            Some(m) => res matches Err(e) && e@ == m,
            None => match entries_problem(response.entries@, max_secrets as nat, max_bytes as nat) {
                Some(m) => res matches Err(e) && e@ == m,
                None => res is Ok,
            },
        },
{
    proof {
        reveal_strlit("runtime response returned a different environment id");
        reveal_strlit("runtime response contained empty environment metadata");
    }
    if !same_text(response.environment_id.as_str(), id) {
        return Err("runtime response returned a different environment id".to_owned());
    }
    if response.project.as_str().unicode_len() == 0 || response.environment.as_str().unicode_len() == 0 {
        return Err("runtime response contained empty environment metadata".to_owned());
    }
    validate_entries(response.entries.as_slice(), max_secrets, max_bytes)
}

/// The message added to a cache failure after an unavailable server.
pub open spec fn fallback_failure(reason: Seq<char>, reference: Seq<char>) -> Seq<char> {
    reason
        + ". \nEnvironment variables were not injected, and the child was not started because no usable encrypted cache is available for "@
        + reference
}

/// What the user is told when neither the server nor the cache can supply
/// the secrets of `reference`.
pub fn fallback_failure_message(reason: &str, reference: &str) -> (res: String)
    ensures
        res@ == fallback_failure(reason@, reference@),
{
    let mut res = reason.to_owned();
    res.append(
        ". \nEnvironment variables were not injected, and the child was not started because no usable encrypted cache is available for ",
    );
    res.append(reference);
    res
}

/// The reason given when the live fetch took too long.
pub fn timeout_reason(server_url: &str) -> (res: String)
    ensures
        res@ == "Dopbase at "@ + server_url@ + " did not complete the runtime fetch within 5 seconds"@,
{
    let mut res = "Dopbase at ".to_owned();
    res.append(server_url);
    res.append(" did not complete the runtime fetch within 5 seconds");
    res
}

/// The warning shown when live secrets were loaded but the cache could not
/// be written.
pub fn cache_update_warning(error: &str) -> (res: String)
    ensures
        res@ == "live secrets were loaded, but the encrypted cache was not updated: "@ + error@,
{
    let mut res = "live secrets were loaded, but the encrypted cache was not updated: ".to_owned();
    res.append(error);
    res
}

/// The cache record of a live response fetched at `now`: no aliases yet,
/// the same environment and entries.
pub fn cached_from_live(response: &RuntimeResponse, now: &Timestamp) -> (res: CachedRuntime)
    ensures
        res.project@ == response.project@,
        res.environment@ == response.environment@,
        res.environment_id@ == response.environment_id@,
        res.aliases@.len() == 0,
        res.fetched_at == *now,
        res.entries@.len() == response.entries@.len(),
        forall|i: int| 0 <= i < res.entries@.len() ==> (#[trigger] res.entries@[i]).key@
            == response.entries@[i].key@ && res.entries@[i].value@ == response.entries@[i].value@,
{
    let mut entries: Vec<SecretInput> = Vec::new();
    let mut i: usize = 0;
    while i < response.entries.len()
        invariant
            i <= response.entries@.len(),
            entries@.len() == i,
            forall|k: int| 0 <= k < i ==> (#[trigger] entries@[k]).key@ == response.entries@[k].key@
                && entries@[k].value@ == response.entries@[k].value@,
        decreases response.entries@.len() - i,
    {
        let e = &response.entries[i];
        entries.push(SecretInput { key: e.key.clone(), value: e.value.clone() });
        i = i + 1;
    }
    CachedRuntime {
        project: response.project.clone(),
        environment: response.environment.clone(),
        environment_id: response.environment_id.clone(),
        aliases: Vec::new(),
        fetched_at: *now,
        entries,
    }
}

/// The run of a live response: its environment and entries, with the
/// warning about the cache when saving it failed.
pub fn runtime_from_live(response: RuntimeResponse, cache_warning: Option<String>) -> (res: RuntimeLoad)
    ensures
        res.project == response.project,
        res.environment == response.environment,
        res.environment_id == response.environment_id,
        res.entries == response.entries,
        res.source == (RuntimeSource::Live { cache_warning }),
{
    RuntimeLoad {
        project: response.project,
        environment: response.environment,
        environment_id: response.environment_id,
        entries: response.entries,
        source: RuntimeSource::Live { cache_warning },
    }
}

/// The source of a run from a cache record fetched at `fetched_at`, used at
/// time `now` because of `reason`: its fetch time in RFC 3339 and its age.
pub open spec fn cache_source(
    source: RuntimeSource,
    fetched_at: Timestamp,
    now: Timestamp,
    reason: String,
) -> bool {
    let elapsed = whole_seconds_between(now, fetched_at);
    &&& source matches RuntimeSource::Cache { fetched_at: shown, age, reason: why }
    &&& source->Cache_fetched_at@ == rfc3339_utc_seconds(fetched_at.seconds, fetched_at.nanos)
    &&& source->Cache_age@ == age_text(
        if elapsed > 0 {
            elapsed
        } else {
            0
        },
    )
    &&& source->Cache_reason == reason
}

/// The run of a cached environment used at time `now` because of `reason`:
/// refused when its entries fail `validate_entries`, otherwise labelled with
/// its fetch time and its age.
pub fn runtime_from_cache(
    cached: CachedRuntime,
    now: &Timestamp,
    reason: String,
    max_secrets: usize,
    max_bytes: usize,
) -> (res: Result<RuntimeLoad, String>)
    requires
        cached.fetched_at.valid(),
        now.valid(),
    ensures
        match entries_problem(cached.entries@, max_secrets as nat, max_bytes as nat) {
            Some(m) => res matches Err(e) && e@ == m,
            None => res matches Ok(load) && load.project == cached.project && load.environment
                == cached.environment && load.environment_id == cached.environment_id && load.entries
                == cached.entries && cache_source(load.source, cached.fetched_at, *now, reason),
        },
{
    if let Err(e) = validate_entries(cached.entries.as_slice(), max_secrets, max_bytes) {
        return Err(e);
    }
    let fetched_at = rfc3339_seconds(&cached.fetched_at);
    let elapsed = seconds_between(now, &cached.fetched_at);
    let age = format_age(
        if elapsed > 0 {
            elapsed
        } else {
            0
        },
    );
    Ok(
        RuntimeLoad {
            project: cached.project,
            environment: cached.environment,
            environment_id: cached.environment_id,
            entries: cached.entries,
            source: RuntimeSource::Cache { fetched_at, age, reason },
        },
    )
}


/// How the live fetch of a run ended when it returned no runtime.
pub enum LiveFailure {
    /// The server could not be reached; its error text.
    Unavailable(String),
    /// The fetch took longer than five seconds.
    TimedOut,
    /// The server answered with an error; its text.
    Refused(String),
}

/// Whether a run falls back to the cache, and why: an unreachable server
/// falls back with the first line of its error, a timeout with the timeout
/// reason; a refusal is reported as it is (`Err`).
pub fn fallback_reason(failure: LiveFailure, server_url: &str) -> (res: Result<String, String>)
    ensures
        match failure {
            LiveFailure::Unavailable(e) => res matches Ok(r) && r@ == concise(e@),
            LiveFailure::TimedOut => res matches Ok(r) && r@ == "Dopbase at "@ + server_url@
                + " did not complete the runtime fetch within 5 seconds"@,
            LiveFailure::Refused(e) => res == Err::<String, String>(e),
        },
{
    match failure {
        LiveFailure::Unavailable(e) => Ok(concise_reason(e.as_str())),
        LiveFailure::TimedOut => Ok(timeout_reason(server_url)),
        LiveFailure::Refused(e) => Err(e),
    }
}

} // verus!
