//! `dopbase client connect` and `dopbase client status`: the checks and the
//! text around changing and showing the active server.

use crate::client::{ascii_lower, trim_chars, trimmed, Credential, CredentialSource};
use crate::commands::output::{fields_text, render_fields};
use crate::text::same_text;
use vstd::prelude::*;
use vstd::string::*;

verus! {

/// The URL client commands use when no server is saved, and what `local`
/// stands for in `dopbase client connect local`.
pub open spec fn default_public_url() -> Seq<char> {
    "http://localhost:8840"@
}

/// The warning printed before connecting to a plain-HTTP server.
pub fn insecure_transport_warning(server_url: &str) -> (res: String)
    ensures
        res@ == "Plain HTTP does not encrypt traffic to "@ + server_url@
            + ". Credentials and secrets could be exposed. Use HTTPS whenever possible."@,
{
    let mut res = "Plain HTTP does not encrypt traffic to ".to_owned();
    res.append(server_url);
    res.append(". Credentials and secrets could be exposed. Use HTTPS whenever possible.");
    res
}

/// The answer, trimmed and in ASCII lower case, is `y` or `yes`.
pub open spec fn accepts(answer: Seq<char>) -> bool {
    let a = trimmed(answer).map_values(|c: char| ascii_lower(c));
    a == seq!['y'] || a == seq!['y', 'e', 's']
}

/// Whether an answer to a yes/no prompt confirms it: `y` or `yes` in any
/// ASCII case, with surrounding whitespace ignored.
pub fn server_switch_confirmed(answer: &str) -> (res: bool)
    ensures
        res == accepts(answer@),
{
    let t = trim_chars(answer);
    let ghost lower = t@.map_values(|c: char| ascii_lower(c));
    let n = t.len();
    let mut i: usize = 0;
    let mut lowered: Vec<char> = Vec::new();
    while i < n
        invariant
            n == t@.len(),
            i <= n,
            lowered@ == t@.take(i as int).map_values(|c: char| ascii_lower(c)),
        decreases n - i,
    {
        let c = t[i];
        let l = if 'A' <= c && c <= 'Z' {
            ((c as u32) + 32) as u8 as char
        } else {
            c
        };
        assert(l == ascii_lower(c));
        lowered.push(l);
        assert(t@.take(i + 1).map_values(|c: char| ascii_lower(c)) =~= t@.take(i as int).map_values(
            |c: char| ascii_lower(c),
        ).push(ascii_lower(c)));
        i = i + 1;
    }
    assert(t@.take(n as int) =~= t@);
    assert(lowered@ == lower);
    if lowered.len() == 1 {
        let yes = lowered[0] == 'y';
        assert(yes ==> lowered@ =~= seq!['y']);
        assert(lowered@ =~= seq!['y'] ==> yes);
        yes
    } else if lowered.len() == 3 {
        let yes = lowered[0] == 'y' && lowered[1] == 'e' && lowered[2] == 's';
        assert(yes ==> lowered@ =~= seq!['y', 'e', 's']);
        assert(lowered@ =~= seq!['y', 'e', 's'] ==> yes);
        yes
    } else {
        false
    }
}

/// `yes` or `no`.
pub fn yes_no(value: bool) -> (res: &'static str)
    ensures
        value ==> res@ == "yes"@,
        !value ==> res@ == "no"@,
{
    if value {
        "yes"
    } else {
        "no"
    }
}

/// Who the credential speaks for: a runner token from the environment, an
/// administrator's saved session, or nobody.
pub open spec fn identity_of(source: CredentialSource) -> Seq<char> {
    match source {
        CredentialSource::Environment => "runner"@,
        CredentialSource::EncryptedSession => "admin"@,
        CredentialSource::Missing => "none"@,
    }
}

/// The identity `dopbase client status` reports for a credential.
pub fn credential_identity(credential: &Credential) -> (res: &'static str)
    ensures
        res@ == identity_of(credential.source),
{
    match credential.source {
        CredentialSource::Environment => "runner",
        CredentialSource::EncryptedSession => "admin",
        CredentialSource::Missing => "none",
    }
}

/// The identity as shown to a person: `AI agent` for `ai_agent`, otherwise
/// unchanged.
pub fn human_identity(identity: &str) -> (res: &str)
    ensures
        identity@ == "ai_agent"@ ==> res@ == "AI agent"@,
        identity@ != "ai_agent"@ ==> res@ == identity@,
{
    if same_text(identity, "ai_agent") {
        "AI agent"
    } else {
        identity
    }
}

/// The email shown by `dopbase client status`.
pub open spec fn status_email(credential: Credential) -> Seq<char> {
    match credential.email {
        Some(e) => e@,
        None => if credential.source == CredentialSource::EncryptedSession {
            "unknown (run dopbase login again to refresh)"@
        } else {
            "none"@
        },
    }
}

/// The environment shown by `dopbase client status`.
pub open spec fn status_environment(default_environment: Option<Seq<char>>) -> Seq<char> {
    match default_environment {
        Some(id) => id + " (default)"@,
        None => "none (set with `dopbase env default <ENVIRONMENT_REF>`)"@,
    }
}

/// The labels and values `dopbase client status` shows, in order.
pub open spec fn status_rows(
    config_file: Seq<char>,
    server_url: Seq<char>,
    connected: bool,
    server_source: Seq<char>,
    credential: Credential,
    default_environment: Option<Seq<char>>,
) -> Seq<(Seq<char>, Seq<char>)> {
    let identity = identity_of(credential.source);
    seq![
        ("Config file:"@, config_file),
        ("Server:"@, server_url),
        ("Server status:"@, if connected {
            "connected (live)"@
        } else {
            "offline (cache)"@
        }),
        ("Server source:"@, server_source),
        ("Authentication:"@, match credential.source {
            CredentialSource::Environment => "environment"@,
            CredentialSource::EncryptedSession => "encrypted_session"@,
            CredentialSource::Missing => "none"@,
        }),
        ("Identity:"@, if identity == "ai_agent"@ {
            "AI agent"@
        } else {
            identity
        }),
        ("Email:"@, status_email(credential)),
        ("Environment:"@, status_environment(default_environment)),
    ]
}

/// The label and value views of a field list.
pub open spec fn field_views(fields: Seq<(&str, String)>) -> Seq<(Seq<char>, Seq<char>)> {
    fields.map_values(|f: (&str, String)| (f.0@, f.1@))
}

/// What `dopbase client status` prints when not asked for JSON.
pub fn status_text(
    config_file: &str,
    server_url: &str,
    connected: bool,
    server_source: &str,
    credential: &Credential,
    default_environment: Option<&str>,
) -> (res: String)
    ensures
        exists|fields: Seq<(&str, String)>|
            field_views(fields) == status_rows(
                config_file@,
                server_url@,
                connected,
                server_source@,
                *credential,
                match default_environment {
                    Some(d) => Some(d@),
                    None => None,
                },
            ) && res@ == fields_text(fields),
{
    proof {
        reveal_strlit("ai_agent");
        reveal_strlit("runner");
        reveal_strlit("admin");
        reveal_strlit("none");
    }
    let identity = credential_identity(credential);
    let email = match &credential.email {
        Some(e) => e.clone(),
        None => if credential.source == CredentialSource::EncryptedSession {
            "unknown (run dopbase login again to refresh)".to_owned()
        } else {
            "none".to_owned()
        },
    };
    let environment = match default_environment {
        Some(id) => {
            let mut e = id.to_owned();
            e.append(" (default)");
            e
        },
        None => "none (set with `dopbase env default <ENVIRONMENT_REF>`)".to_owned(),
    };
    let server_status = if connected {
        "connected (live)"
    } else {
        "offline (cache)"
    };
    let fields: Vec<(&str, String)> = vec![
        ("Config file:", config_file.to_owned()),
        ("Server:", server_url.to_owned()),
        ("Server status:", server_status.to_owned()),
        ("Server source:", server_source.to_owned()),
        ("Authentication:", credential.source.as_str().to_owned()),
        ("Identity:", human_identity(identity).to_owned()),
        ("Email:", email),
        ("Environment:", environment),
    ];
    assert(field_views(fields@) =~= status_rows(
        config_file@,
        server_url@,
        connected,
        server_source@,
        *credential,
        match default_environment {
            Some(d) => Some(d@),
            None => None,
        },
    ));
    render_fields(fields.as_slice())
}

/// The message when `DOPBASE_URL` would override a newly saved server.
pub open spec fn url_override_message() -> Seq<char> {
    "DOPBASE_URL is set and would override the saved server. Unset DOPBASE_URL before changing the active server"@
}

/// `dopbase client connect` refuses to change the saved server while
/// `DOPBASE_URL` is set.
pub fn check_url_override(url_variable_set: bool) -> (res: Result<(), String>)
    ensures
        url_variable_set ==> (res matches Err(m) && m@ == url_override_message()),
        !url_variable_set ==> res is Ok,
{
    if url_variable_set {
        return Err(
            "DOPBASE_URL is set and would override the saved server. Unset DOPBASE_URL before changing the active server".to_owned(),
        );
    }
    Ok(())
}

/// The server a `connect` argument names: the default local URL for
/// `local`, otherwise none yet (the argument is normalized as a URL).
pub fn local_target(value: &str) -> (res: Option<String>)
    ensures
        value@ == "local"@ ==> (res matches Some(t) && t@ == default_public_url()),
        value@ != "local"@ ==> res is None,
{
    if same_text(value, "local") {
        Some("http://localhost:8840".to_owned())
    } else {
        None
    }
}

/// A target URL that starts with `http://`, which warrants the plain-HTTP
/// warning.
pub fn is_plain_http(target: &str) -> (res: bool)
    ensures
        res == (target@.len() >= 7 && target@.subrange(0, 7) == "http://"@),
{
    proof {
        reveal_strlit("http://");
    }
    let n = target.unicode_len();
    if n < 7 {
        return false;
    }
    let prefix = target.substring_char(0, 7);
    same_text(prefix, "http://")
}

/// The message for an endpoint that is not a Dopbase v1 server.
pub open spec fn incompatible_server_message() -> Seq<char> {
    "the endpoint is not a compatible Dopbase v1 server"@
}

/// The health response names the `dopbase` product and API version `v1`.
pub open spec fn healthy(product: Option<&str>, api_version: Option<&str>) -> bool {
    match (product, api_version) {
        (Some(p), Some(v)) => p@ == "dopbase"@ && v@ == "v1"@,
        _ => false,
    }
}

/// A health response is accepted when its `product` is `dopbase` and its
/// `apiVersion` is `v1`.
pub fn check_health(product: Option<&str>, api_version: Option<&str>) -> (res: Result<(), String>)
    ensures
        healthy(product, api_version) ==> res is Ok,
        !healthy(product, api_version) ==> (res matches Err(m) && m@ == incompatible_server_message()),
{
    let product_ok = match product {
        Some(p) => same_text(p, "dopbase"),
        None => false,
    };
    let version_ok = match api_version {
        Some(v) => same_text(v, "v1"),
        None => false,
    };
    if product_ok && version_ok {
        Ok(())
    } else {
        Err("the endpoint is not a compatible Dopbase v1 server".to_owned())
    }
}

/// The server URL written to the client configuration: none for `local`
/// (the implicit default), otherwise the target.
pub fn saved_server_url(value: &str, target: &str) -> (res: Option<String>)
    ensures
        value@ == "local"@ ==> res is None,
        value@ != "local"@ ==> (res matches Some(u) && u@ == target@),
{
    if same_text(value, "local") {
        None
    } else {
        Some(target.to_owned())
    }
}

/// The message when a foreground server holds the instance being left.
pub fn foreground_server_message(data_dir: &str) -> (res: String)
    ensures
        res@ == "A foreground Dopbase server is running for "@ + data_dir@
            + ". Stop it with Ctrl+C, then run `dopbase client connect` again"@,
{
    let mut res = "A foreground Dopbase server is running for ".to_owned();
    res.append(data_dir);
    res.append(". Stop it with Ctrl+C, then run `dopbase client connect` again");
    res
}

/// The explanation printed before asking to switch servers.
pub open spec fn switch_prompt(current: Seq<char>, target: Seq<char>, background: bool) -> Seq<char> {
    "Change active Dopbase server?\nCurrent: "@ + current + "\nNew:     "@ + target
        + "\n\nThis will:\n"@ + (if background {
        "- stop the managed background server\n"@
    } else {
        seq![]
    }) + "- delete the saved CLI session and session key\n- clear the saved default environment"@
}

/// What a server switch will do, printed before the confirmation.
pub fn server_switch_prompt(current: &str, target: &str, background_server_running: bool) -> (res:
    String)
    ensures
        res@ == switch_prompt(current@, target@, background_server_running),
{
    let mut res = "Change active Dopbase server?\nCurrent: ".to_owned();
    res.append(current);
    res.append("\nNew:     ");
    res.append(target);
    res.append("\n\nThis will:\n");
    if background_server_running {
        res.append("- stop the managed background server\n");
    }
    res.append("- delete the saved CLI session and session key\n- clear the saved default environment");
    proof {
        if !background_server_running {
            assert(res@ =~= switch_prompt(current@, target@, background_server_running));
        }
    }
    res
}

/// What a connection reports, when not asked for JSON.
pub open spec fn connection_result(
    previous_server_url: Seq<char>,
    server_url: Seq<char>,
    changed: bool,
    fields: Seq<char>,
) -> Seq<char> {
    if changed {
        "Connected to "@ + server_url + ".\n"@ + fields
            + "\nRun `dopbase login` to authenticate with the new server."@
    } else {
        "Already connected to "@ + server_url + "."@
    }
}

/// The result of `dopbase client connect`: the new server and what the
/// switch did, or that the server was already active.
pub fn connection_result_text(
    previous_server_url: &str,
    server_url: &str,
    changed: bool,
    background_server_stopped: bool,
    session_removed: bool,
    default_environment_cleared: bool,
) -> (res: String)
    ensures
        exists|fields: Seq<(&str, String)>|
            field_views(fields) == seq![
                ("Previous server:"@, previous_server_url@),
                ("Background server stopped:"@, if background_server_stopped {
                    "yes"@
                } else {
                    "no"@
                }),
                ("CLI session removed:"@, if session_removed {
                    "yes"@
                } else {
                    "no"@
                }),
                ("Default environment cleared:"@, if default_environment_cleared {
                    "yes"@
                } else {
                    "no"@
                }),
            ] && res@ == connection_result(
                previous_server_url@,
                server_url@,
                changed,
                fields_text(fields),
            ),
{
    let fields: Vec<(&str, String)> = vec![
        ("Previous server:", previous_server_url.to_owned()),
        ("Background server stopped:", yes_no(background_server_stopped).to_owned()),
        ("CLI session removed:", yes_no(session_removed).to_owned()),
        ("Default environment cleared:", yes_no(default_environment_cleared).to_owned()),
    ];
    let rendered = render_fields(fields.as_slice());
    let mut res: String;
    if changed {
        res = "Connected to ".to_owned();
        res.append(server_url);
        res.append(".\n");
        res.append(rendered.as_str());
        res.append("\nRun `dopbase login` to authenticate with the new server.");
    } else {
        res = "Already connected to ".to_owned();
        res.append(server_url);
        res.append(".");
    }
    assert(field_views(fields@) =~= seq![
        ("Previous server:"@, previous_server_url@),
        ("Background server stopped:"@, if background_server_stopped {
            "yes"@
        } else {
            "no"@
        }),
        ("CLI session removed:"@, if session_removed {
            "yes"@
        } else {
            "no"@
        }),
        ("Default environment cleared:"@, if default_environment_cleared {
            "yes"@
        } else {
            "no"@
        }),
    ]);
    res
}


/// The message when an operation needs a live server that does not answer.
pub fn not_connected_message(operation: &str, server_url: &str) -> (res: String)
    ensures
        res@ == "Cannot perform "@ + operation@ + ": Dopbase server at "@ + server_url@
            + " is not connected or offline (live status required).\nCheck that the server is running with `dopbase server start` and verify the endpoint with `dopbase client status`."@,
{
    let mut res = "Cannot perform ".to_owned();
    res.append(operation);
    res.append(": Dopbase server at ");
    res.append(server_url);
    res.append(
        " is not connected or offline (live status required).\nCheck that the server is running with `dopbase server start` and verify the endpoint with `dopbase client status`.",
    );
    res
}


/// What the managed background server of the local instance is doing.
pub enum DaemonState {
    /// It runs; `public_url` is its normalized public URL when known.
    Running { public_url: Option<String> },
    /// There is none.
    Absent,
    /// A PID file was left by a server that no longer runs.
    Stale,
}

/// A `dopbase client connect` in progress.
pub struct ConnectContext {
    /// The target server's URL.
    pub target: String,
    /// The active server's URL.
    pub current_url: String,
    /// A default environment is saved for the active server.
    pub had_default: bool,
    /// The local instance's data directory, for messages.
    pub data_dir: String,
}

/// Where a connection stands, and so which step comes next.
pub enum ConnectPhase {
    /// Ask the target for its health.
    CheckHealth,
    /// Rewrite the configuration of the active server, keeping its default.
    SaveUnchanged,
    /// Inspect the managed background server.
    InspectDaemon,
    /// Check whether a foreground server holds the local instance.
    CheckForeground { stale: bool },
    /// Show what the switch does and ask; `switching` stops the background
    /// server, `stale` removes its leftover PID file.
    Confirm { switching: bool, stale: bool },
    /// Stop the managed background server.
    StopDaemon,
    /// Remove the stale PID file.
    RemovePidFile,
    /// Delete the saved CLI session.
    RemoveSession { stopped: bool },
    /// Write the configuration for the target, without a default.
    SaveChanged { stopped: bool, session_removed: bool },
    /// Finished: what the connection did.
    Done { changed: bool, stopped: bool, session_removed: bool, default_cleared: bool },
    /// Finished with this error.
    Failed { message: String },
}

/// What the last step of a connection reported.
pub enum ConnectEvent {
    /// The health response's `product` and `apiVersion`.
    Health { product: Option<String>, api_version: Option<String> },
    /// The background server's state.
    Daemon(DaemonState),
    /// Whether a foreground server holds the instance.
    Foreground(bool),
    /// The user confirmed the switch.
    Confirmed,
    /// The background server stopped.
    Stopped,
    /// The stale PID file was removed.
    PidFileRemoved,
    /// The session was deleted (`true`) or there was none (`false`).
    SessionRemoved(bool),
    /// The configuration was written.
    Written,
    /// The step failed with this message.
    StepFailed(String),
}

/// The health fields as text.
pub open spec fn health_ok(product: Option<String>, api_version: Option<String>) -> bool {
    match (product, api_version) {
        (Some(p), Some(v)) => p@ == "dopbase"@ && v@ == "v1"@,
        _ => false,
    }
}

/// Whether `next` follows `event` in `phase` for the connection `c`.
/// Finished phases stay as they are, as does a phase given an event it does
/// not wait for.
pub open spec fn connect_step(c: ConnectContext, phase: ConnectPhase, event: ConnectEvent, next: ConnectPhase) -> bool {
    match event {
        ConnectEvent::StepFailed(m) => if phase is Done || phase is Failed {
            next == phase
        } else {
            next == (ConnectPhase::Failed { message: m })
        },
        _ => match phase {
            ConnectPhase::CheckHealth => match event {
                ConnectEvent::Health { product, api_version } => if !health_ok(product, api_version) {
                    next matches ConnectPhase::Failed { message } && message@ == incompatible_server_message()
                } else if c.current_url@ == c.target@ {
                    next is SaveUnchanged
                } else {
                    next is InspectDaemon
                },
                _ => next == phase,
            },
            ConnectPhase::SaveUnchanged => match event {
                ConnectEvent::Written => next == (ConnectPhase::Done {
                    changed: false,
                    stopped: false,
                    session_removed: false,
                    default_cleared: false,
                }),
                _ => next == phase,
            },
            ConnectPhase::InspectDaemon => match event {
                ConnectEvent::Daemon(state) => match state {
                    DaemonState::Running { public_url } => next == (ConnectPhase::Confirm {
                        switching: public_url matches Some(u) && u@ == c.current_url@,
                        stale: false,
                    }),
                    DaemonState::Absent => next == (ConnectPhase::CheckForeground { stale: false }),
                    DaemonState::Stale => next == (ConnectPhase::CheckForeground { stale: true }),
                },
                _ => next == phase,
            },
            ConnectPhase::CheckForeground { stale } => match event {
                ConnectEvent::Foreground(held) => if held {
                    next matches ConnectPhase::Failed { message } && message@
                        == "A foreground Dopbase server is running for "@ + c.data_dir@
                        + ". Stop it with Ctrl+C, then run `dopbase client connect` again"@
                } else {
                    next == (ConnectPhase::Confirm { switching: false, stale })
                },
                _ => next == phase,
            },
            ConnectPhase::Confirm { switching, stale } => match event {
                ConnectEvent::Confirmed => if switching {
                    next is StopDaemon
                } else if stale {
                    next is RemovePidFile
                } else {
                    next == (ConnectPhase::RemoveSession { stopped: false })
                },
                _ => next == phase,
            },
            ConnectPhase::StopDaemon => match event {
                ConnectEvent::Stopped => next == (ConnectPhase::RemoveSession { stopped: true }),
                _ => next == phase,
            },
            ConnectPhase::RemovePidFile => match event {
                ConnectEvent::PidFileRemoved => next == (ConnectPhase::RemoveSession { stopped: false }),
                _ => next == phase,
            },
            ConnectPhase::RemoveSession { stopped } => match event {
                ConnectEvent::SessionRemoved(removed) => next == (ConnectPhase::SaveChanged {
                    stopped,
                    session_removed: removed,
                }),
                _ => next == phase,
            },
            ConnectPhase::SaveChanged { stopped, session_removed } => match event {
                ConnectEvent::Written => next == (ConnectPhase::Done {
                    changed: true,
                    stopped,
                    session_removed,
                    default_cleared: c.had_default,
                }),
                _ => next == phase,
            },
            ConnectPhase::Done { .. } => next == phase,
            ConnectPhase::Failed { .. } => next == phase,
        },
    }
}

fn health_fields_ok(product: &Option<String>, api_version: &Option<String>) -> (res: bool)
    ensures
        res == health_ok(*product, *api_version),
{
    match (product, api_version) {
        (Some(p), Some(v)) => same_text(p.as_str(), "dopbase") && same_text(v.as_str(), "v1"),
        _ => false,
    }
}

/// The phase that follows `event` in `phase` for the connection `c`.
pub fn connect_next(c: &ConnectContext, phase: ConnectPhase, event: ConnectEvent) -> (res: ConnectPhase)
    ensures
        connect_step(*c, phase, event, res),
{
    if let ConnectEvent::StepFailed(m) = event {
        return match phase {
            ConnectPhase::Done { changed, stopped, session_removed, default_cleared } => ConnectPhase::Done {
                changed,
                stopped,
                session_removed,
                default_cleared,
            },
            ConnectPhase::Failed { message } => ConnectPhase::Failed { message },
            _ => ConnectPhase::Failed { message: m },
        };
    }
    match phase {
        ConnectPhase::CheckHealth => match event {
            ConnectEvent::Health { product, api_version } => {
                if !health_fields_ok(&product, &api_version) {
                    ConnectPhase::Failed {
                        message: "the endpoint is not a compatible Dopbase v1 server".to_owned(),
                    }
                } else if same_text(c.current_url.as_str(), c.target.as_str()) {
                    ConnectPhase::SaveUnchanged
                } else {
                    ConnectPhase::InspectDaemon
                }
            },
            _ => ConnectPhase::CheckHealth,
        },
        ConnectPhase::SaveUnchanged => match event {
            ConnectEvent::Written => ConnectPhase::Done {
                changed: false,
                stopped: false,
                session_removed: false,
                default_cleared: false,
            },
            _ => ConnectPhase::SaveUnchanged,
        },
        ConnectPhase::InspectDaemon => match event {
            ConnectEvent::Daemon(state) => match state {
                DaemonState::Running { public_url } => {
                    let switching = match &public_url {
                        Some(u) => same_text(u.as_str(), c.current_url.as_str()),
                        None => false,
                    };
                    ConnectPhase::Confirm { switching, stale: false }
                },
                DaemonState::Absent => ConnectPhase::CheckForeground { stale: false },
                DaemonState::Stale => ConnectPhase::CheckForeground { stale: true },
            },
            _ => ConnectPhase::InspectDaemon,
        },
        ConnectPhase::CheckForeground { stale } => match event {
            ConnectEvent::Foreground(held) => {
                if held {
                    ConnectPhase::Failed { message: foreground_server_message(c.data_dir.as_str()) }
                } else {
                    ConnectPhase::Confirm { switching: false, stale }
                }
            },
            _ => ConnectPhase::CheckForeground { stale },
        },
        ConnectPhase::Confirm { switching, stale } => match event {
            ConnectEvent::Confirmed => {
                if switching {
                    ConnectPhase::StopDaemon
                } else if stale {
                    ConnectPhase::RemovePidFile
                } else {
                    ConnectPhase::RemoveSession { stopped: false }
                }
            },
            _ => ConnectPhase::Confirm { switching, stale },
        },
        ConnectPhase::StopDaemon => match event {
            ConnectEvent::Stopped => ConnectPhase::RemoveSession { stopped: true },
            _ => ConnectPhase::StopDaemon,
        },
        ConnectPhase::RemovePidFile => match event {
            ConnectEvent::PidFileRemoved => ConnectPhase::RemoveSession { stopped: false },
            _ => ConnectPhase::RemovePidFile,
        },
        ConnectPhase::RemoveSession { stopped } => match event {
            ConnectEvent::SessionRemoved(removed) => ConnectPhase::SaveChanged {
                stopped,
                session_removed: removed,
            },
            _ => ConnectPhase::RemoveSession { stopped },
        },
        ConnectPhase::SaveChanged { stopped, session_removed } => match event {
            ConnectEvent::Written => ConnectPhase::Done {
                changed: true,
                stopped,
                session_removed,
                default_cleared: c.had_default,
            },
            _ => ConnectPhase::SaveChanged { stopped, session_removed },
        },
        ConnectPhase::Done { changed, stopped, session_removed, default_cleared } => ConnectPhase::Done {
            changed,
            stopped,
            session_removed,
            default_cleared,
        },
        ConnectPhase::Failed { message } => ConnectPhase::Failed { message },
    }
}

/// A switch to another server reports success only once the configuration
/// for it is written, which comes only after the saved session was deleted:
/// no changed connection keeps the old server's session.
pub proof fn law_switch_clears_the_session(
    c: ConnectContext,
    phase: ConnectPhase,
    event: ConnectEvent,
    next: ConnectPhase,
)
    requires
        connect_step(c, phase, event, next),
        next matches ConnectPhase::Done { changed, .. } && changed,
        !(phase is Done),
    ensures
        phase is SaveChanged,
        event is Written,
        next matches ConnectPhase::Done { default_cleared, .. } && default_cleared == c.had_default,
{
}

/// The configuration for a new server is written only after the session
/// removal step.
pub proof fn law_changed_save_follows_session_removal(
    c: ConnectContext,
    phase: ConnectPhase,
    event: ConnectEvent,
    next: ConnectPhase,
)
    requires
        connect_step(c, phase, event, next),
        next is SaveChanged,
        !(phase is SaveChanged),
    ensures
        phase is RemoveSession,
        event is SessionRemoved,
{
}

/// A foreground server on the local instance stops the switch before
/// anything is changed.
pub proof fn law_foreground_server_blocks_switch(c: ConnectContext, stale: bool, next: ConnectPhase)
    requires
        connect_step(c, ConnectPhase::CheckForeground { stale }, ConnectEvent::Foreground(true), next),
    ensures
        next is Failed,
{
}


/// The switch is put to the user only right after a running background
/// server was found, or right after no foreground server was found: when
/// the background server is absent or stale, the foreground check always
/// comes first, so a foreground server holding the instance stops the
/// switch before it is asked for.
pub proof fn law_confirmation_follows_the_foreground_check(
    c: ConnectContext,
    phase: ConnectPhase,
    event: ConnectEvent,
    next: ConnectPhase,
)
    requires
        connect_step(c, phase, event, next),
        next is Confirm,
        !(phase is Confirm),
    ensures
        (phase is InspectDaemon && event matches ConnectEvent::Daemon(DaemonState::Running { .. })) || (
        phase is CheckForeground && event == ConnectEvent::Foreground(false)),
{
}

/// With no running background server, the next step checks for a
/// foreground server, keeping whether a stale PID file was found.
pub proof fn law_idle_daemon_leads_to_the_foreground_check(c: ConnectContext, state: DaemonState, next: ConnectPhase)
    requires
        connect_step(c, ConnectPhase::InspectDaemon, ConnectEvent::Daemon(state), next),
        !(state is Running),
    ensures
        next matches ConnectPhase::CheckForeground { stale } && stale == (state is Stale),
{
}

/// Nothing is changed before the switch is confirmed: the first step that
/// stops a server, removes a file or the session, or writes the new
/// configuration comes right after the confirmation.
pub proof fn law_changes_follow_confirmation(
    c: ConnectContext,
    phase: ConnectPhase,
    event: ConnectEvent,
    next: ConnectPhase,
)
    requires
        connect_step(c, phase, event, next),
        next is StopDaemon || next is RemovePidFile || next is RemoveSession || next is SaveChanged,
        phase is CheckHealth || phase is InspectDaemon || phase is CheckForeground || phase is Confirm,
    ensures
        phase is Confirm,
        event is Confirmed,
{
}

} // verus!
