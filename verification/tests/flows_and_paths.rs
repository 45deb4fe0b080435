use dopbase::args::with_help_flag;
use dopbase::commands::environment::{affected_text, environment_details_text};
use dopbase::commands::secret::secret_fields_text;
use dopbase::commands::transfer::import_fields_text;
use dopbase::models::timestamp_text;
use dopbase::api::{
    environment_item, environments, project_environments, project_item, resolve_environment, secret_item,
    secret_reveal, secrets, secrets_export, secrets_import, token_revoke, tokens, HEALTH, PROJECTS,
};
use dopbase::commands::admin::{check_new_password, check_password_reset_start};
use dopbase::commands::client::{connect_next, ConnectContext, ConnectEvent, ConnectPhase, DaemonState};
use dopbase::commands::init::{record_taken_project, validate_interactive_target};

fn context(current: &str, target: &str) -> ConnectContext {
    ConnectContext {
        target: target.to_owned(),
        current_url: current.to_owned(),
        had_default: true,
        data_dir: "/home/u/.dopbase".to_owned(),
    }
}

fn healthy() -> ConnectEvent {
    ConnectEvent::Health { product: Some("dopbase".to_owned()), api_version: Some("v1".to_owned()) }
}

#[test]
fn connecting_to_the_active_server_changes_nothing() {
    let c = context("http://a", "http://a");
    let phase = connect_next(&c, ConnectPhase::CheckHealth, healthy());
    assert!(matches!(phase, ConnectPhase::SaveUnchanged));
    let phase = connect_next(&c, phase, ConnectEvent::Written);
    assert!(matches!(
        phase,
        ConnectPhase::Done { changed: false, stopped: false, session_removed: false, default_cleared: false }
    ));
}

#[test]
fn switching_away_from_the_background_server() {
    let c = context("http://a", "https://b");
    let phase = connect_next(&c, ConnectPhase::CheckHealth, healthy());
    assert!(matches!(phase, ConnectPhase::InspectDaemon));
    let phase = connect_next(&c, phase, ConnectEvent::Daemon(DaemonState::Running { public_url: Some("http://a".to_owned()) }));
    assert!(matches!(phase, ConnectPhase::Confirm { switching: true, stale: false }));
    let phase = connect_next(&c, phase, ConnectEvent::Confirmed);
    assert!(matches!(phase, ConnectPhase::StopDaemon));
    let phase = connect_next(&c, phase, ConnectEvent::Stopped);
    let phase = connect_next(&c, phase, ConnectEvent::SessionRemoved(true));
    assert!(matches!(phase, ConnectPhase::SaveChanged { stopped: true, session_removed: true }));
    let phase = connect_next(&c, phase, ConnectEvent::Written);
    assert!(matches!(
        phase,
        ConnectPhase::Done { changed: true, stopped: true, session_removed: true, default_cleared: true }
    ));
}

#[test]
fn connection_refusals() {
    let c = context("http://a", "https://b");
    let bad = connect_next(
        &c,
        ConnectPhase::CheckHealth,
        ConnectEvent::Health { product: Some("other".to_owned()), api_version: Some("v1".to_owned()) },
    );
    assert!(matches!(&bad, ConnectPhase::Failed { message } if message == "the endpoint is not a compatible Dopbase v1 server"));
    let phase = connect_next(&c, ConnectPhase::InspectDaemon, ConnectEvent::Daemon(DaemonState::Stale));
    assert!(matches!(phase, ConnectPhase::CheckForeground { stale: true }));
    let blocked = connect_next(&c, phase, ConnectEvent::Foreground(true));
    assert!(matches!(&blocked, ConnectPhase::Failed { message } if message.starts_with("A foreground Dopbase server is running for /home/u/.dopbase.")));
    let phase = connect_next(&c, ConnectPhase::CheckForeground { stale: true }, ConnectEvent::Foreground(false));
    let phase = connect_next(&c, phase, ConnectEvent::Confirmed);
    assert!(matches!(phase, ConnectPhase::RemovePidFile));
    let cancelled = connect_next(&c, ConnectPhase::Confirm { switching: false, stale: false }, ConnectEvent::StepFailed("Server switch cancelled.".to_owned()));
    assert!(matches!(&cancelled, ConnectPhase::Failed { message } if message == "Server switch cancelled."));
}

#[test]
fn a_refused_project_name_is_not_offered_again() {
    let mut existing = vec!["billing".to_owned()];
    let warning = record_taken_project(&mut existing, "payments".to_owned());
    assert_eq!(warning, "Project payments already exists. Enter a different project name.");
    assert_eq!(existing.len(), 2);
    assert_eq!(
        validate_interactive_target("payments/local", &existing).err().unwrap(),
        "Project payments already exists. Enter a different project name."
    );
}

#[test]
fn api_paths() {
    assert_eq!(HEALTH, "/api/v1/health");
    assert_eq!(PROJECTS, "/api/v1/projects");
    assert_eq!(project_item("payments"), "/api/v1/projects/payments");
    assert_eq!(project_environments("payments"), "/api/v1/projects/payments/environments");
    assert_eq!(environments(None), "/api/v1/environments");
    assert_eq!(environments(Some("a b")), "/api/v1/environments?project=a+b");
    assert_eq!(resolve_environment("payments/dev"), "/api/v1/environments/resolve?reference=payments%2Fdev");
    assert_eq!(environment_item("env_1"), "/api/v1/environments/env_1");
    assert_eq!(secrets("env_1"), "/api/v1/environments/env_1/secrets");
    assert_eq!(secret_item("env_1", "K"), "/api/v1/environments/env_1/secrets/K");
    assert_eq!(secret_reveal("env_1", "K"), "/api/v1/environments/env_1/secrets/K/reveal");
    assert_eq!(secrets_import("env_1"), "/api/v1/environments/env_1/secrets/import");
    assert_eq!(secrets_export("env_1"), "/api/v1/environments/env_1/secrets/export");
    assert_eq!(tokens("env_1"), "/api/v1/environments/env_1/tokens");
    assert_eq!(token_revoke("tok_1"), "/api/v1/tokens/tok_1/revoke");
}

#[test]
fn password_reset_checks() {
    assert!(check_password_reset_start(true).is_ok());
    assert_eq!(check_password_reset_start(false).err().unwrap(), "password reset requires an interactive terminal");
    assert!(check_new_password("s3cret", "s3cret").is_ok());
    assert_eq!(check_new_password("a", "b").err().unwrap(), "passwords do not match");
}

#[test]
fn time_fields_and_detail_views() {
    assert_eq!(timestamp_text(None), "never");
    assert_eq!(timestamp_text(Some("2024-03-05T10:20:30+02:00")), "2024-03-05 08:20 UTC");
    assert_eq!(timestamp_text(Some("yesterday")), "yesterday");
    let expected = ["Mode:", "Added:", "Updated:", "Unchanged:", "Deleted:"]
        .iter()
        .zip(["merge", "2", "1", "0", "3"])
        .map(|(l, v)| format!("{l:<10}  {v}"))
        .collect::<Vec<_>>()
        .join("\n");
    assert_eq!(import_fields_text("merge", 2, 1, 0, 3), expected);
    assert_eq!(
        environment_details_text("p", "e", "id", "c", "u"),
        "Project:      p\nEnvironment:  e\nID:           id\nCreated:      c\nUpdated:      u"
    );
    assert_eq!(affected_text(1, 4, 2), "Environments:  1\nSecrets:       4\nTokens:        2");
    assert_eq!(secret_fields_text("K", -1, "c", "u"), "Key:      K\nVersion:  -1\nCreated:  c\nUpdated:  u");
    let args = |v: &[&str]| v.iter().map(|s| s.to_string()).collect::<Vec<_>>();
    assert_eq!(with_help_flag(args(&["dopbase", "run"])), args(&["dopbase", "run", "--help"]));
    assert_eq!(
        with_help_flag(args(&["dopbase", "run", "--", "npm", "--"])),
        args(&["dopbase", "run", "--help", "--", "npm", "--"])
    );
}
