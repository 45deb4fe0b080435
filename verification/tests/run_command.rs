use dopbase::commands::run::handler::child_environment;
use dopbase::commands::cache::store::CachedRuntime;
use dopbase::commands::run::cache::{
    cache_update_warning, cached_from_live, check_environment_id, check_runtime_response,
    concise_reason, fallback_failure_message, fallback_reason, runtime_from_cache, runtime_from_live,
    timeout_reason, validate_entries, LiveFailure, RuntimeResponse, RuntimeSource,
};
use dopbase::commands::run::handler::{
    child_command, child_exit_code, run_environment, run_summary, stale_default_message, warning_line,
    EnvVarError, RunEnvironmentSource,
};
use dopbase::models::{SecretInput, Timestamp};

fn entry(key: &str, value: &str) -> SecretInput {
    SecretInput { key: key.to_owned(), value: value.to_owned() }
}

#[test]
fn the_argument_wins_then_the_variable_then_the_default() {
    let chosen = run_environment(Some("a/b".to_owned()), Ok("c/d".to_owned()), Some("e/f")).ok().unwrap();
    assert_eq!(chosen.reference, "a/b");
    assert_eq!(chosen.source, RunEnvironmentSource::Argument);
    let chosen = run_environment(None, Ok("c/d".to_owned()), Some("e/f")).ok().unwrap();
    assert_eq!(chosen.reference, "c/d");
    assert_eq!(chosen.source, RunEnvironmentSource::Environment);
    let chosen = run_environment(None, Err(EnvVarError::NotPresent), Some("e/f")).ok().unwrap();
    assert_eq!(chosen.reference, "e/f");
    assert_eq!(chosen.source, RunEnvironmentSource::Default);
}

#[test]
fn run_environment_errors() {
    assert_eq!(
        run_environment(None, Ok(String::new()), Some("e/f")).err().unwrap(),
        "DOPBASE_ENV is set but empty"
    );
    assert_eq!(
        run_environment(None, Err(EnvVarError::NotUnicode), Some("e/f")).err().unwrap(),
        "DOPBASE_ENV contains invalid Unicode"
    );
    assert_eq!(
        run_environment(None, Err(EnvVarError::NotPresent), None).err().unwrap(),
        "No default environment is set. Set one with: dopbase env default <project/environment>"
    );
}

#[test]
fn entries_are_checked_in_order() {
    assert!(validate_entries(&[entry("A", "1"), entry("B", "2")], 10, 100).is_ok());
    assert_eq!(
        validate_entries(&[entry("A", "1"), entry("B", "2")], 1, 100).err().unwrap(),
        "runtime response exceeded the maximum number of environment variables"
    );
    assert_eq!(
        validate_entries(&[entry("AB", "é")], 10, 3).err().unwrap(),
        "runtime response exceeded the maximum secret collection size"
    );
    assert!(validate_entries(&[entry("AB", "é")], 10, 4).is_ok());
    for bad in ["", "A=B", "A\0"] {
        assert_eq!(
            validate_entries(&[entry(bad, "x")], 10, 100).err().unwrap(),
            "runtime response contained an invalid environment variable name"
        );
    }
    assert_eq!(
        validate_entries(&[entry("A", "x\0y")], 10, 100).err().unwrap(),
        "runtime response contained an invalid environment variable value"
    );
    assert_eq!(
        validate_entries(&[entry("A", "1"), entry("B", "2"), entry("A", "3")], 10, 100).err().unwrap(),
        "runtime response contained a duplicate environment variable name"
    );
    assert_eq!(
        validate_entries(&[entry("A", "1"), entry("A", "2"), entry("", "3")], 10, 100).err().unwrap(),
        "runtime response contained a duplicate environment variable name"
    );
}

#[test]
fn concise_reasons_keep_the_first_line() {
    assert_eq!(concise_reason("Could not connect.\nCheck the server."), "Could not connect.");
    assert_eq!(concise_reason("first\r\nsecond"), "first");
    assert_eq!(concise_reason("only line"), "only line");
    assert_eq!(concise_reason("trailing\r"), "trailing\r");
    assert_eq!(concise_reason("\nsecond"), "");
    assert_eq!(concise_reason(""), "Dopbase is unavailable");
}

#[test]
fn live_failures_decide_the_fallback() {
    assert_eq!(
        fallback_reason(LiveFailure::Unavailable("down\nmore".to_owned()), "http://x").ok().unwrap(),
        "down"
    );
    assert_eq!(
        fallback_reason(LiveFailure::TimedOut, "http://x").ok().unwrap(),
        "Dopbase at http://x did not complete the runtime fetch within 5 seconds"
    );
    assert_eq!(timeout_reason("http://x"), "Dopbase at http://x did not complete the runtime fetch within 5 seconds");
    assert_eq!(
        fallback_reason(LiveFailure::Refused("ENVIRONMENT_NOT_FOUND".to_owned()), "http://x").err().unwrap(),
        "ENVIRONMENT_NOT_FOUND"
    );
    assert_eq!(
        fallback_failure_message("down", "p/e"),
        "down. \nEnvironment variables were not injected, and the child was not started because no usable encrypted cache is available for p/e"
    );
    assert_eq!(
        cache_update_warning("disk full"),
        "live secrets were loaded, but the encrypted cache was not updated: disk full"
    );
}

#[test]
fn runtime_responses_must_match_the_request() {
    let response = RuntimeResponse {
        project: "p".to_owned(),
        environment: "e".to_owned(),
        environment_id: "env_1".to_owned(),
        entries: vec![entry("A", "1")],
    };
    assert!(check_environment_id("env_1").is_ok());
    assert_eq!(check_environment_id("").err().unwrap(), "environment response contained an empty id");
    assert!(check_runtime_response("env_1", &response, 10, 100).is_ok());
    assert_eq!(
        check_runtime_response("env_2", &response, 10, 100).err().unwrap(),
        "runtime response returned a different environment id"
    );
    let empty = RuntimeResponse { project: String::new(), ..response };
    assert_eq!(
        check_runtime_response("env_1", &empty, 10, 100).err().unwrap(),
        "runtime response contained empty environment metadata"
    );
}

#[test]
fn live_and_cached_runs() {
    let response = RuntimeResponse {
        project: "p".to_owned(),
        environment: "e".to_owned(),
        environment_id: "env_1".to_owned(),
        entries: vec![entry("A", "1")],
    };
    let now = Timestamp { seconds: 1_700_000_000, nanos: 5 };
    let cached = cached_from_live(&response, &now);
    assert_eq!(cached.environment_id, "env_1");
    assert!(cached.aliases.is_empty());
    assert_eq!(cached.fetched_at, now);
    assert_eq!(cached.entries[0].value, "1");

    let live = runtime_from_live(response, Some("warn".to_owned()));
    assert_eq!(live.source.as_str(), "live");
    assert_eq!(warning_line(&live.source).unwrap(), "Dopbase warning: warn");
    assert_eq!(run_summary(&live), "Dopbase: p/e (env_1), 1 key(s), source=live");

    let record = CachedRuntime {
        project: "p".to_owned(),
        environment: "e".to_owned(),
        environment_id: "env_1".to_owned(),
        aliases: Vec::new(),
        fetched_at: Timestamp { seconds: 1_700_000_000, nanos: 0 },
        entries: vec![entry("A", "1"), entry("B", "2")],
    };
    let load = runtime_from_cache(record, &Timestamp { seconds: 1_700_003_600, nanos: 0 }, "down".to_owned(), 10, 100)
        .ok()
        .unwrap();
    assert_eq!(load.source.as_str(), "cache");
    match &load.source {
        RuntimeSource::Cache { fetched_at, age, reason } => {
            assert_eq!(fetched_at, "2023-11-14T22:13:20Z");
            assert_eq!(age, "1h");
            assert_eq!(reason, "down");
        }
        RuntimeSource::Live { .. } => panic!("expected a cached run"),
    }
    assert_eq!(
        warning_line(&load.source).unwrap(),
        "Dopbase warning: down; using encrypted cache fetched at 2023-11-14T22:13:20Z (1h old)."
    );
    assert_eq!(run_summary(&load), "Dopbase: p/e (env_1), 2 key(s), source=cache");

    let bad = CachedRuntime {
        project: "p".to_owned(),
        environment: "e".to_owned(),
        environment_id: "env_1".to_owned(),
        aliases: Vec::new(),
        fetched_at: Timestamp { seconds: 0, nanos: 0 },
        entries: vec![entry("A=", "1")],
    };
    assert_eq!(
        runtime_from_cache(bad, &Timestamp { seconds: 0, nanos: 0 }, "down".to_owned(), 10, 100).err().unwrap(),
        "runtime response contained an invalid environment variable name"
    );
}

#[test]
fn a_stale_default_is_reported_as_such() {
    let default = run_environment(None, Err(EnvVarError::NotPresent), Some("p/e")).ok().unwrap();
    assert_eq!(
        stale_default_message(&default, "ENVIRONMENT_NOT_FOUND: no such environment").unwrap(),
        "Saved default environment p/e is unavailable. Set a new one with `dopbase env default <project/environment>` or clear it with `dopbase env default --clear`."
    );
    assert!(stale_default_message(&default, "FORBIDDEN").is_none());
    let argument = run_environment(Some("p/e".to_owned()), Err(EnvVarError::NotPresent), None).ok().unwrap();
    assert!(stale_default_message(&argument, "ENVIRONMENT_NOT_FOUND").is_none());
}

#[test]
fn child_process_details() {
    assert_eq!(child_exit_code(Some(3), None), 3);
    assert_eq!(child_exit_code(None, Some(15)), 143);
    assert_eq!(child_exit_code(None, None), 129);
    let (program, args) = child_command(&vec!["npm".to_owned(), "run".to_owned(), "dev".to_owned()]).ok().unwrap();
    assert_eq!(program, "npm");
    assert_eq!(args, vec!["run".to_owned(), "dev".to_owned()]);
    assert_eq!(child_command(&Vec::new()).err().unwrap(), "run requires a child command");
}

#[test]
fn the_child_loses_the_token_and_gets_every_secret() {
    let entries = vec![
        SecretInput { key: "DATABASE_URL".to_owned(), value: "postgres://x".to_owned() },
        SecretInput { key: "API_KEY".to_owned(), value: "k".to_owned() },
    ];
    let environment = child_environment(&entries);
    assert_eq!(environment.remove, vec!["DOPBASE_TOKEN".to_owned()]);
    assert_eq!(
        environment.set,
        vec![
            ("DATABASE_URL".to_owned(), "postgres://x".to_owned()),
            ("API_KEY".to_owned(), "k".to_owned()),
        ]
    );
    assert!(child_environment(&Vec::new()).set.is_empty());
}
