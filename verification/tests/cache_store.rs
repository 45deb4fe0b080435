use dopbase::commands::cache::store::{
    cache_file_name, check_key, derive_key, empty_snapshot, encrypt_document, format_age, metadata,
    new_local_key, open_envelope, remove_matching, save_document, seal_envelope, select_for_load,
    snapshot, to_hex_lower, upsert, CacheDocument, CacheError, CachedRuntime, StoredRuntime,
    MAX_CACHED_ENVIRONMENTS, VERSION,
};
use dopbase::models::{SecretInput, Timestamp};

const URL: &str = "https://dopbase.example.com";

fn at(seconds: i64) -> Timestamp {
    Timestamp { seconds, nanos: 0 }
}

fn entry(key: &str, value: &str) -> SecretInput {
    SecretInput { key: key.to_owned(), value: value.to_owned() }
}

fn runtime(id: &str, project: &str, environment: &str, fetched: i64) -> CachedRuntime {
    CachedRuntime {
        project: project.to_owned(),
        environment: environment.to_owned(),
        environment_id: id.to_owned(),
        aliases: Vec::new(),
        fetched_at: at(fetched),
        entries: vec![entry("API_KEY", id)],
    }
}

fn stored(id: &str, fetched: i64) -> StoredRuntime {
    StoredRuntime {
        project: "p".to_owned(),
        environment: id.to_owned(),
        environment_id: id.to_owned(),
        aliases: vec![id.to_owned()],
        fetched_at: at(fetched),
        entries: Vec::new(),
    }
}

#[test]
fn age_text_uses_the_largest_whole_unit() {
    assert_eq!(format_age(0), "0s");
    assert_eq!(format_age(59), "59s");
    assert_eq!(format_age(60), "1m");
    assert_eq!(format_age(3599), "59m");
    assert_eq!(format_age(3600), "1h");
    assert_eq!(format_age(86399), "23h");
    assert_eq!(format_age(86400), "1d");
    assert_eq!(format_age(1209600), "14d");
}

#[test]
fn upsert_keeps_keys_sorted_and_replaces_equal_keys() {
    let mut envs: Vec<(String, StoredRuntime)> = Vec::new();
    upsert(&mut envs, "b".to_owned(), stored("b", 1));
    upsert(&mut envs, "a".to_owned(), stored("a", 2));
    upsert(&mut envs, "c".to_owned(), stored("c", 3));
    upsert(&mut envs, "b".to_owned(), stored("b", 9));
    let keys: Vec<&str> = envs.iter().map(|(k, _)| k.as_str()).collect();
    assert_eq!(keys, vec!["a", "b", "c"]);
    assert_eq!(envs[1].1.fetched_at.seconds, 9);
}

#[test]
fn a_saved_runtime_is_what_a_later_load_returns() {
    let doc = save_document(None, URL, "payments/production", runtime("env_1", "payments", "production", 100));
    assert_eq!(doc.version, VERSION);
    assert_eq!(doc.server_url, URL);
    let loaded = select_for_load(doc, URL, "payments/production").ok().unwrap();
    assert_eq!(loaded.environment_id, "env_1");
    assert_eq!(loaded.entries[0].value, "env_1");
    assert_eq!(loaded.aliases, vec!["env_1".to_owned(), "payments/production".to_owned()]);
}

#[test]
fn the_newest_record_answering_a_reference_is_loaded() {
    let doc = save_document(None, URL, "shared", runtime("env_1", "p", "a", 100));
    let doc = save_document(Some(doc), URL, "shared", runtime("env_2", "p", "b", 200));
    let doc = save_document(Some(doc), URL, "env_1", runtime("env_1", "p", "a", 150));
    let loaded = select_for_load(doc, URL, "shared").ok().unwrap();
    assert_eq!(loaded.environment_id, "env_2");
}

#[test]
fn loading_refuses_other_servers_and_unknown_references() {
    let doc = save_document(None, URL, "ref", runtime("env_1", "p", "e", 100));
    assert!(matches!(select_for_load(doc, "https://other", "ref"), Err(CacheError::InvalidScope)));
    let doc = save_document(None, URL, "ref", runtime("env_1", "p", "e", 100));
    assert!(matches!(select_for_load(doc, URL, "missing"), Err(CacheError::NoMatchingEntry)));
}

#[test]
fn a_document_of_another_server_is_not_extended() {
    let other = save_document(None, "https://other", "ref", runtime("env_9", "p", "e", 100));
    let doc = save_document(Some(other), URL, "ref", runtime("env_1", "p", "e", 100));
    assert_eq!(doc.environments.len(), 1);
    assert_eq!(doc.environments[0].0, "env_1");
}

#[test]
fn saving_evicts_the_oldest_beyond_the_limit() {
    let mut doc: Option<CacheDocument> = None;
    for i in 0..(MAX_CACHED_ENVIRONMENTS as i64 + 3) {
        let id = format!("env_{i:02}");
        doc = Some(save_document(doc, URL, &id, runtime(&id, "p", &id, 1000 + i)));
    }
    let doc = doc.unwrap();
    assert_eq!(doc.environments.len(), MAX_CACHED_ENVIRONMENTS);
    let keys: Vec<&str> = doc.environments.iter().map(|(k, _)| k.as_str()).collect();
    assert!(!keys.contains(&"env_00"));
    assert!(!keys.contains(&"env_02"));
    assert!(keys.contains(&"env_03"));
    assert!(keys.contains(&"env_18"));
}

#[test]
fn metadata_reports_age_and_listing_is_sorted() {
    let doc = save_document(None, URL, "b", runtime("env_b", "zeta", "prod", 1_700_000_000));
    let doc = save_document(Some(doc), URL, "a", runtime("env_a", "alpha", "dev", 1_700_000_000));
    let snap = snapshot(doc, URL, &at(1_700_000_000 + 7200)).ok().unwrap();
    assert_eq!(snap.server_url, URL);
    assert_eq!(snap.entries.len(), 2);
    assert_eq!(snap.entries[0].project, "alpha");
    assert_eq!(snap.entries[1].project, "zeta");
    assert_eq!(snap.entries[0].age, "2h");
    assert_eq!(snap.entries[0].age_seconds, 7200);
    assert_eq!(snap.entries[0].fetched_at, "2023-11-14T22:13:20Z");
    assert!(snap.entries[0].is_older_than(&at(1_700_000_000 + 7200), 7199));
    assert!(!snap.entries[0].is_older_than(&at(1_700_000_000 + 7200), 7200));
    let empty = empty_snapshot(URL);
    assert!(empty.entries.is_empty());
}

#[test]
fn metadata_age_never_goes_below_zero() {
    let m = metadata(stored("x", 1000), &at(900));
    assert_eq!(m.age_seconds, 0);
    assert_eq!(m.age, "0s");
}

#[test]
fn removal_only_takes_entries_still_as_listed() {
    let doc = save_document(None, URL, "a", runtime("env_a", "p", "a", 100));
    let mut doc = save_document(Some(doc), URL, "b", runtime("env_b", "p", "b", 100));
    let snap = snapshot(
        save_document(None, URL, "a", runtime("env_a", "p", "a", 100)),
        URL,
        &at(200),
    )
    .ok()
    .unwrap();
    let candidates = vec![snap.entries[0].candidate()];
    let removal = remove_matching(&mut doc, &candidates, &at(200));
    assert_eq!(removal.removed.len(), 1);
    assert_eq!(removal.removed[0].environment_id, "env_a");
    assert_eq!(removal.remaining_count, 1);
    assert_eq!(doc.environments.len(), 1);
    assert_eq!(doc.environments[0].0, "env_b");

    let stale = save_document(None, URL, "b", runtime("env_b", "p", "b", 50));
    let stale_snap = snapshot(stale, URL, &at(200)).ok().unwrap();
    let removal = remove_matching(&mut doc, &[stale_snap.entries[0].candidate()], &at(200));
    assert!(removal.removed.is_empty());
    assert_eq!(doc.environments.len(), 1);
}

#[test]
fn an_envelope_opens_to_what_it_sealed() {
    let key = [7u8; 32];
    let nonce = [3u8; 24];
    let clear = b"{\"version\":1}".to_vec();
    let sealed = seal_envelope(&key, &nonce, &clear).ok().unwrap();
    assert_eq!(sealed.len(), clear.len() + 33 + 16);
    assert_eq!(&sealed[..8], b"DOPRUN\0\0");
    assert_eq!(sealed[8], VERSION);
    assert_eq!(open_envelope(&key, &sealed).ok().unwrap(), clear);

    let random = encrypt_document(&key, &clear).ok().unwrap();
    assert_eq!(open_envelope(&key, &random).ok().unwrap(), clear);
}

#[test]
fn damaged_or_foreign_envelopes_are_refused() {
    let key = [7u8; 32];
    let sealed = seal_envelope(&key, &[1u8; 24], b"secret").ok().unwrap();
    assert!(matches!(open_envelope(&[8u8; 32], &sealed), Err(CacheError::AuthenticationFailed)));
    let mut tampered = sealed.clone();
    let last = tampered.len() - 1;
    tampered[last] ^= 1;
    assert!(matches!(open_envelope(&key, &tampered), Err(CacheError::AuthenticationFailed)));
    assert!(matches!(open_envelope(&key, &sealed[..33]), Err(CacheError::InvalidFormat)));
    let mut wrong_magic = sealed.clone();
    wrong_magic[0] = b'X';
    assert!(matches!(open_envelope(&key, &wrong_magic), Err(CacheError::InvalidFormat)));
    let mut wrong_version = sealed.clone();
    wrong_version[8] = 2;
    assert!(matches!(open_envelope(&key, &wrong_version), Err(CacheError::UnsupportedVersion)));
}

#[test]
fn oversized_documents_are_refused() {
    let key = [7u8; 32];
    let big = vec![0u8; 33_554_433];
    assert!(matches!(seal_envelope(&key, &[0u8; 24], &big), Err(CacheError::TooLarge)));
    assert!(matches!(open_envelope(&key, &big), Err(CacheError::TooLarge)));
}

#[test]
fn keys_and_names() {
    assert_eq!(to_hex_lower(&[0x00, 0xab, 0x7f]), "00ab7f");
    assert_eq!(
        cache_file_name(""),
        "e3b0c44298fc1c149afbf4c8996fb92427ae41e4649b934ca495991b7852b855"
    );
    assert_eq!(cache_file_name(URL).len(), 64);
    let a = derive_key(&[1u8; 32], "token-a", URL);
    let b = derive_key(&[1u8; 32], "token-b", URL);
    assert_eq!(a.len(), 32);
    assert_ne!(a, b);
    assert_ne!(a, derive_key(&[1u8; 32], "token-a", "https://other"));
    assert!(check_key(&[0u8; 32]).is_ok());
    assert!(matches!(check_key(&[0u8; 31]), Err(CacheError::InvalidKeyLength)));
    assert_eq!(new_local_key().ok().unwrap().len(), 32);
}

#[test]
fn error_messages() {
    assert_eq!(CacheError::NoMatchingEntry.message(), "encrypted run cache has no matching entry");
    assert_eq!(CacheError::InvalidKeyLength.message(), "run cache key must contain exactly 32 bytes");
    assert_eq!(
        CacheError::TooLarge.message(),
        "encrypted run cache exceeded the maximum allowed size"
    );
    assert_eq!(
        CacheError::InvalidScope.message(),
        "encrypted run cache has an invalid scope or unsupported version"
    );
}

#[test]
fn a_newer_unrelated_record_does_not_hide_a_saved_runtime() {
    let doc = save_document(None, URL, "other", runtime("env_b", "p", "b", 500));
    let doc = save_document(Some(doc), URL, "shared", runtime("env_a", "p", "a", 100));
    let loaded = select_for_load(doc, URL, "shared").ok().unwrap();
    assert_eq!(loaded.environment_id, "env_a");
}

#[test]
fn a_saved_runtime_loads_under_each_alias() {
    let doc = save_document(None, URL, "payments/production", runtime("env_1", "payments", "production", 100));
    for alias in ["payments/production", "env_1"] {
        let copy = save_document(None, URL, "payments/production", runtime("env_1", "payments", "production", 100));
        let loaded = select_for_load(copy, URL, alias).ok().unwrap();
        assert_eq!(loaded.environment_id, "env_1");
    }
    assert!(doc.is_well_formed());
}

#[test]
fn documents_with_unsorted_keys_or_bad_times_are_not_well_formed() {
    let good = CacheDocument { version: VERSION, server_url: URL.to_owned(), environments: vec![("a".to_owned(), stored("a", 1)), ("b".to_owned(), stored("b", 2))] };
    assert!(good.is_well_formed());
    let unsorted = CacheDocument { version: VERSION, server_url: URL.to_owned(), environments: vec![("b".to_owned(), stored("b", 1)), ("a".to_owned(), stored("a", 2))] };
    assert!(!unsorted.is_well_formed());
    let repeated = CacheDocument { version: VERSION, server_url: URL.to_owned(), environments: vec![("a".to_owned(), stored("a", 1)), ("a".to_owned(), stored("a", 2))] };
    assert!(!repeated.is_well_formed());
    let mut late = stored("a", 1);
    late.fetched_at = Timestamp { seconds: 0, nanos: 1_000_000_000 };
    let bad_time = CacheDocument { version: VERSION, server_url: URL.to_owned(), environments: vec![("a".to_owned(), late)] };
    assert!(!bad_time.is_well_formed());
}

#[test]
fn documents_within_the_limit_are_not_refused_as_too_large() {
    let key = [7u8; 32];
    let clear = vec![1u8; 1000];
    match encrypt_document(&key, &clear) {
        Ok(bytes) => assert_eq!(bytes.len(), 1000 + 33 + 16),
        Err(error) => assert!(matches!(error, CacheError::RandomUnavailable)),
    }
    let big = vec![0u8; 33_554_433];
    assert!(matches!(encrypt_document(&key, &big), Err(CacheError::TooLarge)));
}
