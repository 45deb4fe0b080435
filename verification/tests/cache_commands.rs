use dopbase::commands::cache::store::{cache_file_action, CacheFileAction, CacheRemoval};
use dopbase::commands::cache::args::{CacheAge, DEFAULT_MAX_AGE_SECONDS};
use dopbase::commands::cache::handler::{
    cached_environment_count, clean_result_text, clean_step, entry_count, list_text, removal_prompt,
    remaining_count_label, select_for_clean, CleanStep,
};
use dopbase::commands::cache::store::{save_document, snapshot, CacheMetadata, CachedRuntime};
use dopbase::models::{SecretInput, Timestamp};

const URL: &str = "https://dopbase.example.com";

fn entries_at(now: i64, fetched: &[(&str, i64)]) -> Vec<CacheMetadata> {
    let mut doc = None;
    for (id, time) in fetched {
        let runtime = CachedRuntime {
            project: "payments".to_owned(),
            environment: (*id).to_owned(),
            environment_id: (*id).to_owned(),
            aliases: Vec::new(),
            fetched_at: Timestamp { seconds: *time, nanos: 0 },
            entries: vec![SecretInput { key: "K".to_owned(), value: "v".to_owned() }],
        };
        doc = Some(save_document(doc, URL, id, runtime));
    }
    snapshot(doc.unwrap(), URL, &Timestamp { seconds: now, nanos: 0 }).ok().unwrap().entries
}

#[test]
fn cache_age_parses_whole_numbers_with_a_unit() {
    assert_eq!(CacheAge::parse("45s").ok().unwrap().seconds(), 45);
    assert_eq!(CacheAge::parse("90m").ok().unwrap().seconds(), 5400);
    assert_eq!(CacheAge::parse("12h").ok().unwrap().seconds(), 43200);
    assert_eq!(CacheAge::parse("30d").ok().unwrap().seconds(), 2_592_000);
    assert_eq!(CacheAge::parse("+2d").ok().unwrap().seconds(), 172_800);
    assert_eq!(CacheAge::parse("30d").ok().unwrap().to_string(), "30d");
    let parsed: CacheAge = "7d".parse().ok().unwrap();
    assert_eq!(parsed.seconds(), 604_800);
}

#[test]
fn cache_age_errors() {
    let format = "use a positive whole number followed by s, m, h, or d";
    assert_eq!(CacheAge::parse("30").err().unwrap(), format);
    assert_eq!(CacheAge::parse("").err().unwrap(), format);
    assert_eq!(CacheAge::parse("d").err().unwrap(), format);
    assert_eq!(CacheAge::parse("1.5h").err().unwrap(), format);
    assert_eq!(CacheAge::parse("30w").err().unwrap(), format);
    assert_eq!(CacheAge::parse("0d").err().unwrap(), "cache age must be greater than zero");
    assert_eq!(CacheAge::parse("-3h").err().unwrap(), "cache age must be greater than zero");
    assert_eq!(
        CacheAge::parse("9223372036854775807d").err().unwrap(),
        "cache age is too large"
    );
    assert_eq!(CacheAge::parse("9223372036854775807s").ok().unwrap().seconds(), i64::MAX);
}

#[test]
fn default_cache_age_is_fourteen_days() {
    let age = CacheAge::default();
    assert_eq!(age.seconds(), DEFAULT_MAX_AGE_SECONDS);
    assert_eq!(age.seconds(), 1_209_600);
    assert_eq!(age.to_string(), "14d");
}

#[test]
fn count_labels() {
    assert_eq!(cached_environment_count(1), "1 cached environment");
    assert_eq!(cached_environment_count(3), "3 cached environments");
    assert_eq!(remaining_count_label(1), "1 entry remains.");
    assert_eq!(remaining_count_label(0), "0 entries remain.");
    assert_eq!(entry_count(1), "1 encrypted runtime cache entry");
    assert_eq!(entry_count(2), "2 encrypted runtime cache entries");
    assert_eq!(removal_prompt(2), "Remove 2 encrypted runtime cache entries?");
}

#[test]
fn clean_picks_entries_older_than_the_age_or_all() {
    let now = 2_000_000;
    let fetched = [("a", now - 10 * 86_400), ("b", now - 20 * 86_400), ("c", now - 100)];
    let age = CacheAge::default();
    let picked = select_for_clean(entries_at(now, &fetched), false, &Timestamp { seconds: now, nanos: 0 }, &age);
    let ids: Vec<&str> = picked.iter().map(|m| m.environment_id.as_str()).collect();
    assert_eq!(ids, vec!["b"]);
    let all = select_for_clean(entries_at(now, &fetched), true, &Timestamp { seconds: now, nanos: 0 }, &age);
    assert_eq!(all.len(), 3);
}

#[test]
fn clean_steps() {
    assert_eq!(clean_step(true, 3), CleanStep::ReportDryRun);
    assert_eq!(clean_step(false, 0), CleanStep::ReportNothing);
    assert_eq!(clean_step(false, 2), CleanStep::ConfirmRemoval);
}

#[test]
fn listing_and_results() {
    let entries = entries_at(1_000_000, &[("env_1", 1_000_000 - 90)]);
    let text = list_text(URL, &entries);
    assert!(text.starts_with("SERVER"));
    assert!(text.contains("payments"));
    assert!(text.contains("1m"));
    assert!(text.contains("env_1, payments/env_1"));
    assert!(text.ends_with("\n\n1 cached environment"));
    assert_eq!(
        list_text(URL, &Vec::new()),
        "No encrypted runtime cache entries found for https://dopbase.example.com."
    );
    assert_eq!(
        clean_result_text(URL, false, &Vec::new(), 0, 4),
        "No encrypted runtime cache entries were removed."
    );
    assert_eq!(
        clean_result_text(URL, true, &Vec::new(), 0, 0),
        "No encrypted runtime cache entries would be removed."
    );
    let removed = clean_result_text(URL, false, &entries, 1, 2);
    assert!(removed.ends_with("\n\nRemoved 1 encrypted runtime cache entry. 2 entries remain."));
    let dry = clean_result_text(URL, true, &entries, 0, 0);
    assert!(dry.ends_with("\n\nDry run: 1 encrypted runtime cache entry would be removed."));
}

#[test]
fn the_cache_file_follows_the_removal() {
    let removed = entries_at(100, &[("a", 10)]);
    let none = CacheRemoval { removed: Vec::new(), remaining_count: 3 };
    assert_eq!(cache_file_action(&none), CacheFileAction::LeaveAlone);
    let all = CacheRemoval { removed: entries_at(100, &[("a", 10)]), remaining_count: 0 };
    assert_eq!(cache_file_action(&all), CacheFileAction::Delete);
    let some = CacheRemoval { removed, remaining_count: 2 };
    assert_eq!(cache_file_action(&some), CacheFileAction::Rewrite);
}
