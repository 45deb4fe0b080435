use dopbase::commands::server::{server_status_outcome, ManagedDaemon};
use dopbase::commands::admin::{offline_reset_next, offline_reset_start, OfflineResetEvent, OfflineResetPhase};
use dopbase::args::{route, ClientCommand, Command, LoginArgs, Route};
use dopbase::commands::admin::{
    backup_field, check_factory_reset_confirmation, check_factory_reset_start, check_reset_host,
    confirmation_prompt, factory_reset_archive_path, factory_reset_confirmation_matches,
    factory_reset_notice, factory_reset_quarantine_path, quarantine_exists_message, reset_next,
    reset_plan, reset_start, validate_factory_reset_target, ResetEvent, ResetPhase,
    archive_directory_entry, archive_step, ArchiveEntryKind, ArchiveStep,
};
use dopbase::commands::auth::{
    delete_project_prompt, login_message, logout_message, piped_runner_token, project_environments_path,
    typed_runner_token,
};
use dopbase::commands::environment::{
    clone_next, clone_prompt, clone_summary, clone_target, default_cleared_message, default_set_message,
    delete_prompt, environment_changed_message, environment_listing, secret_count_label, ClonePhase,
    CloneEvent, SensitiveEntries,
};
use dopbase::commands::init::{
    check_interactive_init, classify_entries, cleanup_message, env_cleanup, import_summary,
    initialized_message, is_sensitive_key, parse_init, render_detection_summary, run_hint, sentence,
    validate_interactive_target, EnvCleanup,
};
use dopbase::commands::prompt::{confirm_answer, confirm_question, confirm_step, ConfirmStep};
use dopbase::commands::secret::{
    delete_secret_prompt, secret_changed_message, secret_listing, value_source, ValueSource,
};
use dopbase::commands::server::{
    check_server_command, check_server_down, load_server_config, serve_flags, server_start_flags,
    server_status_text, ServeArgs, ServerCommand, ServerLaunchArgs, ServerStartArgs, ServerState,
};
use dopbase::commands::transfer::{
    backup_location, backup_steps, bootstrap_restore, check_backup_file, check_export, export_message,
    import_headline, import_mode, needs_preview, replace_warning, restore_prompt,
};
use dopbase::models::{SecretInput, Timestamp};

fn entry(key: &str, value: &str) -> SecretInput {
    SecretInput { key: key.to_owned(), value: value.to_owned() }
}

#[test]
fn sensitive_keys() {
    for key in ["API_KEY", "stripe_secret", "DB_PASSWORD", "github-token", "DATABASE_URL", "my_client_secret_v2", "PWD"] {
        assert!(is_sensitive_key(key), "{key}");
    }
    for key in ["PORT", "NODE_ENV", "SECRETARY", "TOKENIZER_MODE", "LOG_LEVEL"] {
        assert!(!is_sensitive_key(key), "{key}");
    }
    let entries = [entry("API_KEY", "1"), entry("PORT", "2"), entry("AUTH_TOKEN", "3")];
    assert_eq!(classify_entries(&entries), (2, 1));
    assert_eq!(classify_entries(&[]), (0, 0));
}

#[test]
fn detection_summary() {
    assert_eq!(
        render_detection_summary(3, 1, 2),
        "3 variables detected\n1 appears sensitive\n2 appear non-sensitive"
    );
    assert_eq!(
        render_detection_summary(1, 0, 1),
        "1 variable detected\n0 appear sensitive\n1 appears non-sensitive"
    );
}

#[test]
fn sentences() {
    assert_eq!(sentence("expected a name"), "Expected a name.");
    assert_eq!(sentence("Done."), "Done.");
    assert_eq!(sentence(""), ".");
    assert_eq!(sentence("émigré"), "émigré.");
}

#[test]
fn interactive_targets() {
    assert_eq!(parse_init("payments/local").ok().unwrap(), ("payments".to_owned(), "local".to_owned()));
    assert_eq!(parse_init("payments").err().unwrap(), "expected PROJECT_NAME/ENVIRONMENT_NAME");
    assert!(parse_init("a/b/c").is_err());
    assert!(parse_init("/b").is_err());
    assert!(parse_init("a/").is_err());
    let existing = vec!["billing".to_owned()];
    assert_eq!(
        validate_interactive_target("payments/local", &existing).ok().unwrap(),
        ("payments".to_owned(), "local".to_owned())
    );
    assert_eq!(
        validate_interactive_target("billing/local", &existing).err().unwrap(),
        "Project billing already exists. Enter a different project name."
    );
    assert_eq!(
        validate_interactive_target("billing", &existing).err().unwrap(),
        "Expected PROJECT_NAME/ENVIRONMENT_NAME."
    );
}

#[test]
fn env_file_cleanup() {
    assert_eq!(env_cleanup(None, b"A=1"), EnvCleanup::Missing);
    assert_eq!(env_cleanup(Some(b"A=2"), b"A=1"), EnvCleanup::Changed);
    assert_eq!(env_cleanup(Some(b"A=1\n"), b"A=1"), EnvCleanup::Changed);
    assert_eq!(env_cleanup(Some(b"A=1"), b"A=1"), EnvCleanup::Deleted);
    assert_eq!(cleanup_message(EnvCleanup::Deleted), "✓ .env deleted.");
    assert_eq!(cleanup_message(EnvCleanup::Missing), ".env was already removed.");
    assert_eq!(import_summary(1, "p", "e"), "✓ Imported 1 variable into p/e.");
    assert_eq!(import_summary(4, "p", "e"), "✓ Imported 4 variables into p/e.");
    assert_eq!(run_hint("p", "e"), "\nRun your application with:\n\n  dopbase run p/e -- <your-command>");
    assert_eq!(initialized_message("p", "e"), "Initialized p/e.");
    assert!(check_interactive_init(false, true).is_ok());
    assert!(check_interactive_init(true, true).err().unwrap().starts_with("interactive init does not support --json"));
    assert!(check_interactive_init(false, false).err().unwrap().starts_with("interactive init requires a terminal"));
}

#[test]
fn clone_runs_through_its_phases() {
    let target = clone_target(
        Some("env_src".to_owned()),
        Some("prj_1".to_owned()),
        Some("payments".to_owned()),
        Some("production".to_owned()),
        "staging",
    )
    .ok()
    .unwrap();
    assert_eq!(target.resolved_source(), "payments/production");
    assert_eq!(target.destination(), "payments/staging");
    let phase = clone_next(&target, ClonePhase::CheckName, CloneEvent::Listed(vec!["production".to_owned()]));
    assert!(matches!(phase, ClonePhase::CountSecrets));
    let phase = clone_next(&target, phase, CloneEvent::Counted(2));
    assert!(matches!(phase, ClonePhase::Confirm { secret_count: 2 }));
    let phase = clone_next(&target, phase, CloneEvent::Confirmed);
    assert!(matches!(phase, ClonePhase::Create));
    let phase = clone_next(&target, phase, CloneEvent::Created("env_new".to_owned()));
    let phase = clone_next(&target, phase, CloneEvent::Exported(2));
    assert!(matches!(&phase, ClonePhase::Import { destination_id, count: 2 } if destination_id == "env_new"));
    let phase = clone_next(&target, phase, CloneEvent::Imported);
    let phase = clone_next(&target, phase, CloneEvent::Listed(Vec::new()));
    assert!(matches!(&phase, ClonePhase::Done { message } if message == "Cloned 2 secrets from payments/production to payments/staging."));
    let after = clone_next(&target, phase, CloneEvent::RequestFailed("late".to_owned()));
    assert!(matches!(after, ClonePhase::Done { .. }));
}

#[test]
fn clone_failures() {
    let target = clone_target(Some("s".to_owned()), Some("p".to_owned()), Some("payments".to_owned()), Some("prod".to_owned()), "prod").ok().unwrap();
    let phase = clone_next(&target, ClonePhase::CheckName, CloneEvent::Listed(vec!["prod".to_owned()]));
    assert!(matches!(&phase, ClonePhase::Failed { message } if message == "Environment payments/prod already exists."));
    let phase = clone_next(&target, ClonePhase::Import { destination_id: "d".to_owned(), count: 1 }, CloneEvent::RequestFailed("boom".to_owned()));
    assert!(matches!(&phase, ClonePhase::Rollback { destination_id, message } if destination_id == "d" && message == "Could not copy the source secrets: boom"));
    let failed = clone_next(&target, phase, CloneEvent::RolledBack);
    assert!(matches!(&failed, ClonePhase::Failed { message } if message == "Could not copy the source secrets: boom\nCleanup: removed the new environment payments/prod."));
    let phase = clone_next(&target, ClonePhase::Export { destination_id: "d".to_owned() }, CloneEvent::RequestFailed("x".to_owned()));
    let failed = clone_next(&target, phase, CloneEvent::RequestFailed("y".to_owned()));
    assert!(matches!(&failed, ClonePhase::Failed { message } if message == "Could not read the source secrets: x\nCleanup failed for payments/prod: y"));
    let failed = clone_next(&target, ClonePhase::Refresh { copied: 1 }, CloneEvent::RequestFailed("z".to_owned()));
    assert!(matches!(&failed, ClonePhase::Failed { message } if message == "Cloned payments/prod, but could not refresh the environment list: z\nRun `dopbase env list payments` to view the project environments."));
    assert_eq!(
        clone_target(Some("s".to_owned()), None, None, None, "x").err().unwrap(),
        "source environment response did not contain projectId"
    );
}

#[test]
fn environment_messages() {
    assert_eq!(secret_count_label(1), "1 secret");
    assert_eq!(secret_count_label(5), "5 secrets");
    assert_eq!(clone_prompt(1, "a/b", "a/c"), "Clone 1 secret from a/b to a/c?");
    assert_eq!(clone_summary("a/b", "a/c", 3), "Source:       a/b\nDestination:  a/c\nSecrets:      3");
    assert_eq!(delete_prompt("a/b", 2, 1), "Delete environment a/b, 2 secret(s), and 1 token(s)?");
    assert_eq!(default_cleared_message(true), "Cleared the default environment.");
    assert_eq!(default_cleared_message(false), "No default environment was set.");
    assert_eq!(default_set_message("a/b"), "Set a/b as the default environment.");
    assert_eq!(environment_changed_message(false, "p", "e", "id"), "Created environment p/e (id).");
    assert_eq!(environment_changed_message(true, "p", "e", "id"), "Renamed environment to p/e (id).");
    assert_eq!(environment_listing(&Vec::new(), Some("p")), "No environments found for p.");
    assert_eq!(environment_listing(&Vec::new(), None), "No environments found.");
    let rows = vec![vec!["p".to_owned(), "e".to_owned(), "id".to_owned(), "never".to_owned()]];
    assert_eq!(environment_listing(&rows, None), "PROJECT   ENVIRONMENT   ID   UPDATED\np         e             id   never\n\n1 environment(s)");
}

#[test]
fn sensitive_entries_are_wiped() {
    let mut entries = SensitiveEntries(vec![entry("A", "secret"), entry("B", "other")]);
    assert_eq!(entries.len(), 2);
    assert_eq!(entries.as_slice()[1].value, "other");
    entries.wipe();
    assert_eq!(entries.len(), 2);
    assert_eq!(entries.as_slice()[0].key, "A");
    assert!(entries.as_slice().iter().all(|e| e.value.is_empty()));
}

#[test]
fn factory_reset_confirmation() {
    assert!(factory_reset_confirmation_matches("please-wipe-out-system"));
    assert!(factory_reset_confirmation_matches("please-wipe-out-system\r\n"));
    assert!(factory_reset_confirmation_matches("please-wipe-out-system\n\n"));
    assert!(!factory_reset_confirmation_matches(" please-wipe-out-system"));
    assert!(!factory_reset_confirmation_matches("please-wipe-out-system "));
    assert!(check_factory_reset_confirmation("please-wipe-out-system\n").is_ok());
    assert_eq!(
        check_factory_reset_confirmation("yes").err().unwrap(),
        "factory reset cancelled: confirmation text did not match"
    );
    assert_eq!(confirmation_prompt(), "Type please-wipe-out-system to continue:");
    assert!(check_factory_reset_start(false, true).is_ok());
    assert_eq!(check_factory_reset_start(true, true).err().unwrap(), "--json cannot be used with `dopbase admin factory-reset`");
    assert_eq!(check_factory_reset_start(false, false).err().unwrap(), "factory reset requires an interactive terminal");
}

#[test]
fn factory_reset_paths() {
    assert_eq!(
        factory_reset_archive_path("/home/u/.dopbase.factory-reset-20240101000000"),
        "/home/u/.dopbase.factory-reset-20240101000000.zip"
    );
    assert_eq!(factory_reset_archive_path("/"), "/dopbase.factory-reset.zip");
    assert_eq!(
        factory_reset_quarantine_path("/home/u/.dopbase", &Timestamp { seconds: 1_704_067_200, nanos: 0 }).ok().unwrap(),
        "/home/u/.dopbase.factory-reset-20240101000000"
    );
    assert_eq!(
        factory_reset_quarantine_path("/", &Timestamp { seconds: 0, nanos: 0 }).err().unwrap(),
        "Dopbase data directory does not have a valid name"
    );
    assert_eq!(quarantine_exists_message("/q"), "factory reset quarantine path already exists: /q");
    let plan = reset_plan("/srv/data", "/srv/data.factory-reset-1", false).ok().unwrap();
    assert_eq!(plan.archive, "/srv/data.factory-reset-1.zip");
    assert_eq!(plan.partial_archive, "/srv/.data.factory-reset-1.zip.partial");
    assert_eq!(plan.archive_root, "data");
}

#[test]
fn factory_reset_target_checks() {
    assert!(check_reset_host(true, true).is_ok());
    assert!(check_reset_host(false, true).err().unwrap().starts_with("Factory reset is only available"));
    assert!(validate_factory_reset_target("/srv/data", "/srv/data/dopbase.db", Some("/home/u"), "/home/u").is_ok());
    assert_eq!(
        validate_factory_reset_target("/srv/data", "/srv/other/dopbase.db", None, "/").err().unwrap(),
        "refusing to reset a data directory that does not contain its database"
    );
    assert_eq!(
        validate_factory_reset_target("/srv/data", "/srv/database.db", None, "/").err().unwrap(),
        "refusing to reset a data directory that does not contain its database"
    );
    assert_eq!(
        validate_factory_reset_target("/", "/db", None, "/x").err().unwrap(),
        "refusing to use the filesystem root as the Dopbase data directory"
    );
    assert_eq!(
        validate_factory_reset_target("/home/u", "/home/u/db", Some("/home/u"), "/").err().unwrap(),
        "refusing to use the home directory as the Dopbase data directory"
    );
    assert_eq!(
        validate_factory_reset_target("/home/u", "/home/u/db", Some("/home/u/"), "/").err().unwrap(),
        "refusing to use the home directory as the Dopbase data directory"
    );
    assert_eq!(
        validate_factory_reset_target("/srv/data", "/srv/data/db", None, "/srv/data/logs").err().unwrap(),
        "leave the Dopbase data directory before running factory reset"
    );
}

#[test]
fn factory_reset_sequence() {
    let plan = reset_plan("/srv/data", "/srv/data.q", false).ok().unwrap();
    let phase = reset_start(&plan);
    assert!(matches!(phase, ResetPhase::CheckQuarantine));
    let phase = reset_next(&plan, phase, ResetEvent::QuarantineFree);
    assert!(matches!(phase, ResetPhase::CheckBackupPaths));
    let phase = reset_next(&plan, phase, ResetEvent::BackupPathsFree);
    let phase = reset_next(&plan, phase, ResetEvent::Moved);
    assert!(matches!(phase, ResetPhase::Archive));
    let phase = reset_next(&plan, phase, ResetEvent::Archived);
    assert!(matches!(phase, ResetPhase::DeleteQuarantine { backup: true }));
    let phase = reset_next(&plan, phase, ResetEvent::Deleted);
    assert!(matches!(&phase, ResetPhase::Done { archive: Some(a) } if a == "/srv/data.q.zip"));

    let failed = reset_next(&plan, ResetPhase::Archive, ResetEvent::OperationFailed("disk full".to_owned()));
    assert!(matches!(&failed, ResetPhase::Restore { error } if error == "disk full"));
    let restored = reset_next(&plan, failed, ResetEvent::Restored);
    assert!(matches!(&restored, ResetPhase::Failed { message } if message == "factory reset was cancelled because the ZIP backup could not be created: disk full"));
    let taken = reset_next(&plan, ResetPhase::CheckBackupPaths, ResetEvent::BackupPathTaken);
    assert!(matches!(&taken, ResetPhase::Failed { message } if message == "factory reset backup path already exists: /srv/data.q.zip"));

    let occupied = reset_next(&plan, reset_start(&plan), ResetEvent::QuarantineTaken);
    assert!(matches!(&occupied, ResetPhase::Failed { message } if message == "factory reset quarantine path already exists: /srv/data.q"));

    let quick = reset_plan("/srv/data", "/srv/data.q", true).ok().unwrap();
    let phase = reset_start(&quick);
    assert!(matches!(phase, ResetPhase::CheckQuarantine));
    let phase = reset_next(&quick, phase, ResetEvent::QuarantineFree);
    assert!(matches!(phase, ResetPhase::MoveAside));
    let phase = reset_next(&quick, phase, ResetEvent::Moved);
    assert!(matches!(phase, ResetPhase::DeleteQuarantine { backup: false }));
    let phase = reset_next(&quick, phase, ResetEvent::Deleted);
    assert!(matches!(phase, ResetPhase::Done { archive: None }));
    assert_eq!(backup_field(None), "skipped (--no-backup)");
    assert_eq!(backup_field(Some("/b.zip")), "/b.zip");
    assert!(factory_reset_notice("/srv/data", true).contains("No backup will be created."));
    assert!(factory_reset_notice("/srv/data", false).contains("A ZIP backup will be saved"));
}

#[test]
fn background_start_flags() {
    let args = ServerLaunchArgs {
        config: Some("/etc/dopbase.toml".to_owned()),
        port: Some(9000),
        host: None,
        public_url: Some("https://x".to_owned()),
        shutdown_grace_seconds: Some(5),
        docs: false,
        no_docs: true,
        master_key_file: None,
    };
    assert_eq!(args.docs(), Some(false));
    assert_eq!(
        server_start_flags(&args, "/srv/data"),
        vec![
            "server", "start", "--config", "/etc/dopbase.toml", "--port", "9000", "--public-url",
            "https://x", "--shutdown-grace-seconds", "5", "--no-docs", "--data-dir", "/srv/data",
            "--supervised",
        ]
    );
    let plain = ServerLaunchArgs::default();
    assert_eq!(plain.docs(), None);
    assert_eq!(server_start_flags(&plain, "/d"), vec!["server", "start", "--data-dir", "/d", "--supervised"]);
    let overrides = load_server_config(args, Some("/d".to_owned()), true, false);
    assert_eq!(overrides.port, Some(9000));
    assert_eq!(overrides.docs, Some(false));
    assert!(overrides.background);
}

#[test]
fn server_commands() {
    let start = ServerCommand::Start(ServerStartArgs { launch: ServerLaunchArgs::default(), supervised: false });
    assert_eq!(check_server_command(&start, true).err().unwrap(), "--json cannot be used with `dopbase server start`");
    assert!(check_server_command(&start, false).is_ok());
    let logs = ServerCommand::Logs { lines: 100, clean: false, watch: true };
    assert_eq!(check_server_command(&logs, true).err().unwrap(), "--json cannot be used with `dopbase server logs --watch`");
    assert!(check_server_command(&ServerCommand::Status, true).is_ok());
    assert!(check_server_down(false).is_ok());
    assert_eq!(check_server_down(true).err().unwrap(), "the server is running in the foreground. Stop it with Ctrl+C");
    let (text, code) = server_status_text(&ServerState::Stopped { stale_pid_file: true }, "/d", "/d/log");
    assert_eq!(text, "Server:     stopped\nData:       /d\nNote:       stale PID file found");
    assert_eq!(code, 1);
    let (text, code) = server_status_text(
        &ServerState::Background { pid: 42, started_at: "t".to_owned(), public_url: None },
        "/d",
        "/d/log",
    );
    assert_eq!(text, "Server:     running (background)\nPID:        42\nStarted:    t\nURL:        unknown\nData:       /d\nLog:        /d/log");
    assert_eq!(code, 0);
    let (text, code) = server_status_text(&ServerState::Foreground, "/d", "/d/log");
    assert_eq!(text, "Server:     running (foreground)\nData:       /d");
    assert_eq!(code, 0);
}

#[test]
fn routing() {
    let connect = Command::Client { command: ClientCommand::Connect { server_url: "https://x".to_owned() } };
    assert_eq!(route(&connect, false).ok().unwrap(), Route::Connect);
    assert_eq!(
        route(&connect, true).err().unwrap(),
        "--server cannot be used with `dopbase client connect`. Pass the destination as the positional server URL"
    );
    assert_eq!(route(&Command::Status, true).ok().unwrap(), Route::ShowStatus);
    assert_eq!(route(&Command::Update, true).ok().unwrap(), Route::Update);
    assert_eq!(route(&Command::Login(LoginArgs { token: false }), true).ok().unwrap(), Route::ResolvedServer);
    assert_eq!(route(&Command::Logout, false).ok().unwrap(), Route::ResolvedServer);
    let server = Command::Server { command: ServerCommand::Status };
    assert_eq!(route(&server, true).err().unwrap(), "--server cannot be used with local `dopbase server` commands");
    assert_eq!(route(&server, false).ok().unwrap(), Route::LocalServer);
}

#[test]
fn secret_and_transfer_messages() {
    assert_eq!(value_source(true, false).ok().unwrap(), ValueSource::Stdin);
    assert_eq!(value_source(false, true).ok().unwrap(), ValueSource::Prompt);
    assert_eq!(value_source(false, false).err().unwrap(), "use --stdin when setting a secret non-interactively");
    assert_eq!(secret_changed_message(false, "K", "p/e"), "Saved K in p/e.");
    assert_eq!(secret_changed_message(true, "K", "p/e"), "Deleted K from p/e.");
    assert_eq!(delete_secret_prompt("K", "p/e"), "Delete secret K from p/e?");
    assert_eq!(secret_listing(&Vec::new(), "p/e"), "No secrets found in p/e.");
    let rows = vec![vec!["API_KEY".to_owned(), "3".to_owned(), "never".to_owned()]];
    assert_eq!(secret_listing(&rows, "p/e"), "KEY       VERSION   UPDATED\nAPI_KEY   3         never\n\n1 secret(s)");
    assert_eq!(import_mode(true), "replace");
    assert_eq!(import_mode(false), "merge");
    assert!(needs_preview(true, false));
    assert!(!needs_preview(true, true));
    assert!(replace_warning(&Vec::new()).is_none());
    assert_eq!(replace_warning(&vec!["A".to_owned(), "B".to_owned()]).unwrap(), "Replace will delete: A, B");
    assert_eq!(import_headline(true, "p/e"), "Dry run complete. No changes were applied.");
    assert_eq!(import_headline(false, "p/e"), "Imported secrets into p/e.");
    assert_eq!(check_export(false, false, false).err().unwrap(), "export requires --output <FILE> or --stdout");
    assert_eq!(check_export(false, true, true).err().unwrap(), "--stdout and --json cannot be combined");
    assert!(check_export(true, false, true).is_ok());
    assert_eq!(export_message(2, "out.env"), "Exported 2 secret(s) to out.env.");
    assert_eq!(backup_steps(true), 2);
    assert_eq!(backup_steps(false), 1);
    assert_eq!(backup_location("http://x", "b.dop"), "http://x (~/.dopbase/backups/b.dop)");
    assert_eq!(check_backup_file("a.dop", false, Some("a.dop")).err().unwrap(), "Backup file not found: a.dop");
    assert_eq!(check_backup_file("a.zip", true, Some("a.zip")).err().unwrap(), "Invalid backup file: must have a .dop extension");
    assert_eq!(check_backup_file("x/a.dop", true, Some("a.dop")).ok().unwrap(), "a.dop");
    assert_eq!(check_backup_file("..", true, None).ok().unwrap(), "backup.dop");
    assert_eq!(bootstrap_restore("ready", None).ok().unwrap(), None);
    assert_eq!(bootstrap_restore("setupRequired", Some("dbs_1")).ok().unwrap(), Some("dbs_1".to_owned()));
    assert_eq!(
        bootstrap_restore("setupRequired", None).err().unwrap(),
        "--setup-token is required when restoring an uninitialized server"
    );
    assert_eq!(restore_prompt("./b.dop"), "Proceed with restoring from \"./b.dop\"?");
}

#[test]
fn login_and_prompts() {
    assert_eq!(piped_runner_token("  dbs_abc\n").ok().unwrap(), "dbs_abc");
    assert_eq!(piped_runner_token(" \n").err().unwrap(), "Runner token cannot be empty.");
    assert_eq!(typed_runner_token("t".to_owned()).ok().unwrap(), "t");
    assert_eq!(typed_runner_token(String::new()).err().unwrap(), "Runner token cannot be empty.");
    assert_eq!(login_message(true, "http://x"), "Saved a runner token for http://x.");
    assert_eq!(login_message(false, "http://x"), "Logged in to http://x.");
    assert_eq!(logout_message("http://x"), "Logged out from http://x.");
    assert_eq!(delete_project_prompt("payments", 2), "Delete project payments and its 2 environment(s)?");
    assert_eq!(project_environments_path("my app"), "/api/v1/environments?project=my+app");
    assert!(matches!(confirm_step(true, false), ConfirmStep::Proceed));
    assert!(matches!(confirm_step(false, true), ConfirmStep::Ask));
    assert!(matches!(confirm_step(false, false), ConfirmStep::Refuse(m) if m == "confirmation is required; pass --yes for non-interactive use"));
    assert!(confirm_answer("Yes\n").is_ok());
    assert_eq!(confirm_answer("nope").err().unwrap(), "operation cancelled");
    assert_eq!(confirm_question("Remove 1 entry?"), "Remove 1 entry? [y/N] ");
}

#[test]
fn detached_serve_child_flags() {
    let args = ServeArgs {
        config: Some("/etc/dopbase.toml".to_owned()),
        bind_address: Some("0.0.0.0:9000".to_owned()),
        port: Some(9000),
        host: None,
        public_url: None,
        database_url: Some("sqlite:///srv/db".to_owned()),
        shutdown_grace_seconds: Some(3),
        docs: true,
        no_docs: false,
        master_key_file: Some("/k".to_owned()),
    };
    assert_eq!(args.docs(), Some(true));
    assert_eq!(
        serve_flags(&args, "/srv/data"),
        vec![
            "serve", "--config", "/etc/dopbase.toml", "--bind-address", "0.0.0.0:9000", "--port", "9000",
            "--database-url", "sqlite:///srv/db", "--shutdown-grace-seconds", "3", "--docs",
            "--master-key-file", "/k", "--data-dir", "/srv/data", "--supervised",
        ]
    );
    let plain = ServeArgs {
        config: None, bind_address: None, port: None, host: None, public_url: None, database_url: None,
        shutdown_grace_seconds: None, docs: false, no_docs: false, master_key_file: None,
    };
    assert_eq!(serve_flags(&plain, "/d"), vec!["serve", "--data-dir", "/d", "--supervised"]);
}

#[test]
fn backup_archive_entries() {
    assert_eq!(archive_directory_entry("data"), "data/");
    assert!(matches!(archive_step("data", Some("logs"), "/q/logs", ArchiveEntryKind::Directory), Ok(ArchiveStep::Descend(n)) if n == "data/logs"));
    assert!(matches!(archive_step("data", Some("db"), "/q/db", ArchiveEntryKind::File), Ok(ArchiveStep::AddFile(n)) if n == "data/db"));
    assert_eq!(archive_step("data", Some("l"), "/q/l", ArchiveEntryKind::SymbolicLink).err().unwrap(), "factory reset backup cannot include the symbolic link /q/l");
    assert_eq!(archive_step("data", None, "/q/x", ArchiveEntryKind::File).err().unwrap(), "backup path is not valid UTF-8: /q/x");
    assert_eq!(archive_step("data", Some("s"), "/q/s", ArchiveEntryKind::Other).err().unwrap(), "factory reset backup cannot include the unsupported file /q/s");
}

#[test]
fn server_status_from_the_pid_file_and_the_lock() {
    let running = server_status_outcome(
        ManagedDaemon::Running { pid: 42, started_at: "t".to_owned(), public_url: None },
        false,
    );
    assert!(matches!(running.state, ServerState::Background { pid: 42, .. }));
    assert_eq!((running.exit_code, running.status, running.mode), (0, "running", Some("background")));
    let foreground = server_status_outcome(ManagedDaemon::Stale, true);
    assert!(matches!(foreground.state, ServerState::Foreground));
    assert_eq!((foreground.exit_code, foreground.status, foreground.mode), (0, "running", Some("foreground")));
    let stopped = server_status_outcome(ManagedDaemon::Stale, false);
    assert!(matches!(stopped.state, ServerState::Stopped { stale_pid_file: true }));
    assert_eq!((stopped.exit_code, stopped.status, stopped.mode), (1, "stopped", None));
    let absent = server_status_outcome(ManagedDaemon::Absent, false);
    assert!(matches!(absent.state, ServerState::Stopped { stale_pid_file: false }));
    assert_eq!(absent.exit_code, 1);
    assert!(matches!(server_status_outcome(ManagedDaemon::Absent, true).state, ServerState::Foreground));
}

#[test]
fn offline_reset_passes_every_gate_in_order() {
    assert!(matches!(offline_reset_start(true, true), OfflineResetPhase::Failed { message } if message == "--json cannot be used with `dopbase admin factory-reset`"));
    assert!(matches!(offline_reset_start(false, false), OfflineResetPhase::Failed { message } if message == "factory reset requires an interactive terminal"));
    let phase = offline_reset_start(false, true);
    assert!(matches!(phase, OfflineResetPhase::CheckTarget));
    let phase = offline_reset_next(phase, OfflineResetEvent::TargetAccepted);
    assert!(matches!(phase, OfflineResetPhase::LockInstance));
    let phase = offline_reset_next(phase, OfflineResetEvent::Locked);
    assert!(matches!(phase, OfflineResetPhase::Confirm));
    let wrong = offline_reset_next(OfflineResetPhase::Confirm, OfflineResetEvent::Typed("yes".to_owned()));
    assert!(matches!(wrong, OfflineResetPhase::Failed { message } if message == "factory reset cancelled: confirmation text did not match"));
    let phase = offline_reset_next(phase, OfflineResetEvent::Typed("please-wipe-out-system\n".to_owned()));
    assert!(matches!(phase, OfflineResetPhase::VerifyPassword));
    let rejected = offline_reset_next(OfflineResetPhase::VerifyPassword, OfflineResetEvent::PasswordRejected);
    assert!(matches!(rejected, OfflineResetPhase::Failed { message } if message == "the root password is incorrect"));
    let skipped = offline_reset_next(OfflineResetPhase::Confirm, OfflineResetEvent::PasswordVerified);
    assert!(matches!(skipped, OfflineResetPhase::Confirm));
    let phase = offline_reset_next(phase, OfflineResetEvent::PasswordVerified);
    assert!(matches!(phase, OfflineResetPhase::Reset));
    let phase = offline_reset_next(phase, OfflineResetEvent::ResetFinished);
    assert!(matches!(phase, OfflineResetPhase::Done));
}
