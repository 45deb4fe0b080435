use dopbase::client::{
    any_credential_step, api_error_message, credential, encode_query, login_result,
    normalize_login_email, refused_credential_step, transport_error, trim_chars, AuthenticationStep,
    CliCancelled, Credential, CredentialSource, StoredSession, TransportFailure,
    confirmed_access_next, confirmed_access_start, ConfirmedAccessEvent, ConfirmedAccessPhase,
};
use dopbase::commands::client::{
    check_health, check_url_override, connection_result_text, credential_identity,
    foreground_server_message, human_identity, insecure_transport_warning, is_plain_http, local_target,
    not_connected_message, saved_server_url, server_switch_confirmed, server_switch_prompt, status_text,
    yes_no,
};

#[test]
fn cancellation_messages_and_sources() {
    assert_eq!(CliCancelled::Login.message(), "Login cancelled.");
    assert_eq!(CliCancelled::PasswordConfirmation.message(), "Password confirmation cancelled.");
    assert_eq!(CliCancelled::ServerSwitch.message(), "Server switch cancelled.");
    assert_eq!(CredentialSource::Environment.as_str(), "environment");
    assert_eq!(CredentialSource::EncryptedSession.as_str(), "encrypted_session");
    assert_eq!(CredentialSource::Missing.as_str(), "none");
}

#[test]
fn the_environment_token_wins_over_the_session() {
    let session = || Some(StoredSession { token: "session".to_owned(), email: Some("a@b.co".to_owned()) });
    let c = credential(Some("runner".to_owned()), session()).ok().unwrap();
    assert_eq!(c.token.as_deref(), Some("runner"));
    assert_eq!(c.source, CredentialSource::Environment);
    assert!(c.email.is_none());
    let c = credential(None, session()).ok().unwrap();
    assert_eq!(c.token.as_deref(), Some("session"));
    assert_eq!(c.source, CredentialSource::EncryptedSession);
    assert_eq!(c.email.as_deref(), Some("a@b.co"));
    let c = credential(None, None).ok().unwrap();
    assert!(c.token.is_none());
    assert_eq!(c.source, CredentialSource::Missing);
    assert_eq!(credential(Some(String::new()), session()).err().unwrap(), "DOPBASE_TOKEN is set but empty");
}

#[test]
fn authentication_steps() {
    let with_token = Credential { token: Some("t".to_owned()), source: CredentialSource::EncryptedSession, email: None };
    assert!(matches!(any_credential_step(with_token, false), AuthenticationStep::UseToken(t) if t == "t"));
    let none = || Credential { token: None, source: CredentialSource::Missing, email: None };
    assert!(matches!(any_credential_step(none(), true), AuthenticationStep::Login));
    assert!(matches!(any_credential_step(none(), false), AuthenticationStep::Fail(m) if m == "Dopbase authentication is required"));
    assert!(matches!(refused_credential_step(CredentialSource::EncryptedSession, true), AuthenticationStep::Login));
    assert!(matches!(
        refused_credential_step(CredentialSource::Environment, true),
        AuthenticationStep::Fail(m) if m == "the configured Dopbase credential is invalid or expired"
    ));
}

#[test]
fn login_emails() {
    assert_eq!(normalize_login_email("  Admin@Example.COM\n").ok().unwrap(), "admin@example.com");
    assert_eq!(normalize_login_email("a.b@c.io").ok().unwrap(), "a.b@c.io");
    for bad in ["", "admin", "@example.com", "admin@", "admin@example", "a b@c.io", "a@b@c.io", "a@.com", "a@com."] {
        assert_eq!(normalize_login_email(bad).err().unwrap(), "Enter a valid email address.", "{bad}");
    }
}

#[test]
fn trimming_follows_str_trim() {
    for s in ["  x  ", "\t\n", "", "a b", "\u{3000}z\u{2009}"] {
        assert_eq!(trim_chars(s).into_iter().collect::<String>(), s.trim(), "{s:?}");
    }
}

#[test]
fn query_values_are_form_urlencoded() {
    assert_eq!(encode_query("payments service/dev"), "payments+service%2Fdev");
    assert_eq!(encode_query("a*b-c.d_e~"), "a*b-c.d_e%7E");
    assert_eq!(encode_query("é"), "%C3%A9");
    assert_eq!(encode_query(""), "");
}

#[test]
fn request_failures() {
    assert_eq!(
        transport_error(TransportFailure::Timeout, "http://x"),
        "Dopbase at http://x did not respond within 30 seconds.\nCheck the server health and network connection, then try again."
    );
    assert!(transport_error(TransportFailure::Connect, "http://x").starts_with("Could not connect to Dopbase at http://x.\n"));
    assert!(transport_error(TransportFailure::Other, "http://x").starts_with("The request to Dopbase at http://x failed"));
    assert_eq!(
        api_error_message(Some(vec![("NOT_FOUND".to_owned(), Some("Missing.".to_owned())), ("X".to_owned(), None)]), "404 Not Found"),
        "NOT_FOUND: Missing.; X: Request failed."
    );
    assert_eq!(api_error_message(None, "500 Internal Server Error"), "server returned 500 Internal Server Error");
    assert_eq!(login_result(None, None).err().unwrap(), "login response did not contain a token");
    assert_eq!(login_result(Some("t".to_owned()), None).err().unwrap(), "login response did not contain an email");
    assert_eq!(login_result(Some("t".to_owned()), Some("e".to_owned())).ok().unwrap(), ("t".to_owned(), "e".to_owned()));
}

#[test]
fn switch_confirmation_answers() {
    for yes in ["y", "Y", "yes", " YES \n", "yEs\r\n"] {
        assert!(server_switch_confirmed(yes), "{yes:?}");
    }
    for no in ["", "n", "no", "ye", "yess", "y e s"] {
        assert!(!server_switch_confirmed(no), "{no:?}");
    }
}

#[test]
fn connect_checks_and_messages() {
    assert_eq!(
        insecure_transport_warning("http://10.0.0.2:8840"),
        "Plain HTTP does not encrypt traffic to http://10.0.0.2:8840. Credentials and secrets could be exposed. Use HTTPS whenever possible."
    );
    assert!(check_url_override(false).is_ok());
    assert!(check_url_override(true).err().unwrap().starts_with("DOPBASE_URL is set"));
    assert_eq!(local_target("local").unwrap(), "http://localhost:8840");
    assert!(local_target("https://x").is_none());
    assert!(is_plain_http("http://x"));
    assert!(!is_plain_http("https://x"));
    assert!(!is_plain_http("http:/"));
    assert!(check_health(Some("dopbase"), Some("v1")).is_ok());
    assert_eq!(check_health(Some("dopbase"), Some("v2")).err().unwrap(), "the endpoint is not a compatible Dopbase v1 server");
    assert!(check_health(None, Some("v1")).is_err());
    assert!(saved_server_url("local", "http://localhost:8840").is_none());
    assert_eq!(saved_server_url("https://x", "https://x").unwrap(), "https://x");
    assert_eq!(
        foreground_server_message("/srv/dopbase"),
        "A foreground Dopbase server is running for /srv/dopbase. Stop it with Ctrl+C, then run `dopbase client connect` again"
    );
    assert_eq!(
        server_switch_prompt("http://a", "http://b", true),
        "Change active Dopbase server?\nCurrent: http://a\nNew:     http://b\n\nThis will:\n- stop the managed background server\n- delete the saved CLI session and session key\n- clear the saved default environment"
    );
    assert_eq!(
        server_switch_prompt("http://a", "http://b", false),
        "Change active Dopbase server?\nCurrent: http://a\nNew:     http://b\n\nThis will:\n- delete the saved CLI session and session key\n- clear the saved default environment"
    );
    assert!(not_connected_message("backup", "http://a").starts_with("Cannot perform backup: Dopbase server at http://a is not connected"));
}

#[test]
fn connection_results() {
    assert_eq!(connection_result_text("http://a", "http://a", false, false, false, false), "Already connected to http://a.");
    let fields = [
        ("Previous server:", "http://a"),
        ("Background server stopped:", "yes"),
        ("CLI session removed:", "no"),
        ("Default environment cleared:", "yes"),
    ];
    let lines: Vec<String> = fields.iter().map(|(l, v)| format!("{l:<28}  {v}")).collect();
    assert_eq!(
        connection_result_text("http://a", "http://b", true, true, false, true),
        format!("Connected to http://b.\n{}\nRun `dopbase login` to authenticate with the new server.", lines.join("\n"))
    );
}

#[test]
fn status_identity_and_text() {
    let session = Credential { token: Some("s".to_owned()), source: CredentialSource::EncryptedSession, email: None };
    assert_eq!(credential_identity(&session), "admin");
    assert_eq!(human_identity("ai_agent"), "AI agent");
    assert_eq!(human_identity("runner"), "runner");
    assert_eq!(yes_no(true), "yes");
    assert_eq!(yes_no(false), "no");
    let text = status_text("/home/u/.dopbase/client.toml", "http://localhost:8840", false, "default", &session, None);
    let fields = [
        ("Config file:", "/home/u/.dopbase/client.toml"),
        ("Server:", "http://localhost:8840"),
        ("Server status:", "offline (cache)"),
        ("Server source:", "default"),
        ("Authentication:", "encrypted_session"),
        ("Identity:", "admin"),
        ("Email:", "unknown (run dopbase login again to refresh)"),
        ("Environment:", "none (set with `dopbase env default <ENVIRONMENT_REF>`)"),
    ];
    let lines: Vec<String> = fields.iter().map(|(l, v)| format!("{l:<15}  {v}")).collect();
    assert_eq!(text, lines.join("\n"));
    let runner = Credential { token: Some("r".to_owned()), source: CredentialSource::Environment, email: None };
    let text = status_text("c", "u", true, "argument", &runner, Some("env_1"));
    assert!(text.contains("Server status:   connected (live)"));
    assert!(text.contains("Identity:        runner"));
    assert!(text.contains("Email:           none"));
    assert!(text.ends_with("Environment:     env_1 (default)"));
}

#[test]
fn plaintext_access_needs_a_terminal_and_a_confirmed_password() {
    assert!(matches!(confirmed_access_start(false), ConfirmedAccessPhase::Failed { message } if message == "interactive password confirmation is required for plaintext secret access"));
    let phase = confirmed_access_start(true);
    assert!(matches!(phase, ConfirmedAccessPhase::AcquireClient));
    let phase = confirmed_access_next(phase, ConfirmedAccessEvent::ExistingClient);
    assert!(matches!(phase, ConfirmedAccessPhase::ConfirmPassword));
    let cancelled = confirmed_access_next(ConfirmedAccessPhase::ConfirmPassword, ConfirmedAccessEvent::Cancelled);
    assert!(matches!(cancelled, ConfirmedAccessPhase::Failed { message } if message == "Password confirmation cancelled."));
    let refused = confirmed_access_next(ConfirmedAccessPhase::ConfirmPassword, ConfirmedAccessEvent::OperationFailed("wrong password".to_owned()));
    assert!(matches!(refused, ConfirmedAccessPhase::Failed { message } if message == "wrong password"));
    assert!(matches!(confirmed_access_next(phase, ConfirmedAccessEvent::PasswordAccepted), ConfirmedAccessPhase::Confirmed));
    let fresh = confirmed_access_next(ConfirmedAccessPhase::AcquireClient, ConfirmedAccessEvent::NewlyAuthenticated);
    assert!(matches!(fresh, ConfirmedAccessPhase::Confirmed));
    let early = confirmed_access_next(ConfirmedAccessPhase::AcquireClient, ConfirmedAccessEvent::PasswordAccepted);
    assert!(matches!(early, ConfirmedAccessPhase::AcquireClient));
}
