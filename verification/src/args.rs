//! The command line of `dopbase`, as plain values, and which part of the
//! program each command goes to.

use crate::commands::cache::args::CacheCommand;
use crate::commands::server::ServerCommand;
use vstd::prelude::*;
use vstd::string::*;

verus! {

/// The file formats secrets are read from and written in.
#[derive(Clone, Copy, Debug, PartialEq, Eq, Structural)]
pub enum SecretFormat {
    Dotenv,
    Json,
    Yaml,
    Toml,
}

/// A project and an environment name, written `PROJECT/ENVIRONMENT`.
pub struct EnvironmentTarget {
    pub project: String,
    pub environment: String,
}

impl EnvironmentTarget {
    /// The project and the environment name.
    pub fn into_parts(self) -> (res: (String, String))
        ensures
            res.0 == self.project,
            res.1 == self.environment,
    {
        (self.project, self.environment)
    }
}

/// The whole command line.
pub struct Cli {
    /// `--server`: the client endpoint for this invocation.
    pub server: Option<String>,
    /// `--data-dir`: the directory for Dopbase state and configuration.
    pub data_dir: Option<String>,
    /// `--json`: machine-readable output where supported.
    pub json: bool,
    pub command: Command,
}

/// The top-level commands.
pub enum Command {
    /// Run and inspect a local server.
    Server { command: ServerCommand },
    /// Connect the CLI to a server, or show the connection.
    Client { command: ClientCommand },
    /// Authenticate with the active server.
    Login(LoginArgs),
    /// Remove the saved credential.
    Logout,
    /// Same as `client status`.
    Status,
    /// Create a project, its first environment, and import secrets.
    Init(InitArgs),
    /// Manage projects.
    Project { command: ProjectCommand },
    /// Manage environments.
    Env { command: EnvCommand },
    /// Manage secrets.
    Secret { command: SecretCommand },
    /// Bulk-import secrets into an environment.
    Import(ImportArgs),
    /// Export an environment's secrets.
    Export(ExportArgs),
    /// Manage runner tokens.
    Token { command: TokenCommand },
    /// Run a command with an environment's secrets.
    Run(RunArgs),
    /// Offline server administration.
    Admin { command: AdminCommand },
    /// Check for a newer release.
    Update,
    /// Create an encrypted backup.
    Backup(BackupArgs),
    /// Restore from an encrypted backup.
    Restore(RestoreArgs),
    /// Inspect and clean the encrypted runtime cache.
    Cache { command: CacheCommand },
}

/// `dopbase client` subcommands.
pub enum ClientCommand {
    /// Validate a server URL and save it as the active server.
    Connect { server_url: String },
    /// Show the active server and login.
    Status,
}

/// `dopbase project` subcommands.
pub enum ProjectCommand {
    Create { name: String },
    List,
    Show { project: String },
    Rename { project: String, new_name: String },
    Delete { project: String, yes: bool },
}

/// `dopbase env` subcommands.
pub enum EnvCommand {
    Default { environment: Option<String>, clear: bool },
    Create { target: EnvironmentTarget },
    Clone { source: EnvironmentTarget, new_name: String, yes: bool },
    List { project: Option<String> },
    Show { environment: String },
    Rename { environment: String, new_name: String },
    Delete { environment: String, yes: bool },
}

/// `dopbase secret` subcommands.
pub enum SecretCommand {
    List { environment: String },
    SetValue { environment: String, key: String, stdin: bool },
    Get { environment: String, key: String, reveal: bool },
    Delete { environment: String, key: String, yes: bool },
}

/// `dopbase token` subcommands.
pub enum TokenCommand {
    Create { environment: String, name: String, role: String },
    List { environment: String },
    Revoke { token_id: String },
}

/// `dopbase admin` subcommands.
pub enum AdminCommand {
    ResetPassword { email: String, config: Option<String>, master_key_file: Option<String> },
    FactoryReset { config: Option<String>, no_backup: bool },
}

/// `dopbase login` options.
pub struct LoginArgs {
    /// Save a runner token instead of signing in with email and password.
    pub token: bool,
}

/// `dopbase init` options: both the target and the source, or neither.
pub struct InitArgs {
    pub target: Option<EnvironmentTarget>,
    pub from: Option<String>,
    pub format: Option<SecretFormat>,
}

/// `dopbase import` options.
pub struct ImportArgs {
    pub environment: String,
    pub path: String,
    pub format: Option<SecretFormat>,
    pub dry_run: bool,
    pub replace: bool,
    pub yes: bool,
}

/// `dopbase export` options.
pub struct ExportArgs {
    pub environment: String,
    pub output: Option<String>,
    pub stdout: bool,
    pub format: Option<SecretFormat>,
    pub force: bool,
}

/// `dopbase run` options.
pub struct RunArgs {
    pub environment: Option<String>,
    pub token: Option<String>,
    pub command: Vec<String>,
}

/// `dopbase backup` options.
pub struct BackupArgs {
    pub name: Option<String>,
    pub output: Option<String>,
}

/// `dopbase restore` options.
pub struct RestoreArgs {
    pub path: String,
    pub key: Option<String>,
    pub setup_token: Option<String>,
    pub yes: bool,
}

/// Where a parsed command is carried out.
#[derive(Clone, Copy, Debug, PartialEq, Eq, Structural)]
pub enum Route {
    /// The local server commands, without a client endpoint.
    LocalServer,
    /// `client connect`, without a client endpoint.
    Connect,
    /// `client status` or `status`, with the endpoint if given.
    ShowStatus,
    /// Offline administration, without a client endpoint.
    Admin,
    /// The release check.
    Update,
    /// A command for the resolved active server.
    ResolvedServer,
}

/// The message for `--server` given to a local server command.
pub open spec fn server_flag_local_message() -> Seq<char> {
    "--server cannot be used with local `dopbase server` commands"@
}

/// The message for `--server` given to `client connect`.
pub open spec fn server_flag_connect_message() -> Seq<char> {
    "--server cannot be used with `dopbase client connect`. Pass the destination as the positional server URL"@
}

/// The message for `--server` given to an admin command.
pub open spec fn server_flag_admin_message() -> Seq<char> {
    "--server cannot be used with local `dopbase admin` commands"@
}

/// Where a command goes. `--server` names a client endpoint, so it is
/// refused for local server commands, `client connect` and admin commands.
pub fn route(command: &Command, server_given: bool) -> (res: Result<Route, String>)
    ensures
        command is Server ==> if server_given {
            res matches Err(m) && m@ == server_flag_local_message()
        } else {
            res == Ok::<Route, String>(Route::LocalServer)
        },
        (command matches Command::Client { command: c } && c is Connect) ==> if server_given {
            res matches Err(m) && m@ == server_flag_connect_message()
        } else {
            res == Ok::<Route, String>(Route::Connect)
        },
        ((command matches Command::Client { command: c } && c is Status) || command is Status) ==> res
            == Ok::<Route, String>(Route::ShowStatus),
        command is Admin ==> if server_given {
            res matches Err(m) && m@ == server_flag_admin_message()
        } else {
            res == Ok::<Route, String>(Route::Admin)
        },
        command is Update ==> res == Ok::<Route, String>(Route::Update),
        !(command is Server || command is Client || command is Status || command is Admin
            || command is Update) ==> res == Ok::<Route, String>(Route::ResolvedServer),
{
    match command {
        Command::Server { .. } => {
            if server_given {
                return Err("--server cannot be used with local `dopbase server` commands".to_owned());
            }
            Ok(Route::LocalServer)
        },
        Command::Client { command: ClientCommand::Connect { .. } } => {
            if server_given {
                return Err(
                    "--server cannot be used with `dopbase client connect`. Pass the destination as the positional server URL".to_owned(),
                );
            }
            Ok(Route::Connect)
        },
        Command::Client { command: ClientCommand::Status } => Ok(Route::ShowStatus),
        Command::Status => Ok(Route::ShowStatus),
        Command::Admin { .. } => {
            if server_given {
                return Err("--server cannot be used with local `dopbase admin` commands".to_owned());
            }
            Ok(Route::Admin)
        },
        Command::Update => Ok(Route::Update),
        _ => Ok(Route::ResolvedServer),
    }
}


/// The arguments with `--help` put where a missing argument was reported:
/// before the first `--`, or at the end when there is none, so that the
/// help of the command being typed is shown.
pub open spec fn with_help(arguments: Seq<Seq<char>>) -> Seq<Seq<char>> {
    let position = if exists|i: int| 0 <= i < arguments.len() && arguments[i] == "--"@ {
        choose|i: int|
            0 <= i < arguments.len() && arguments[i] == "--"@ && forall|k: int|
                0 <= k < i ==> arguments[k] != "--"@
    } else {
        arguments.len() as int
    };
    arguments.insert(position, "--help"@)
}

/// Inserts `--help` before the first `--` (or at the end) of a command line.
pub fn with_help_flag(arguments: Vec<String>) -> (res: Vec<String>)
    ensures
        crate::text::texts(res@) == with_help(crate::text::texts(arguments@)),
{
    let ghost args = crate::text::texts(arguments@);
    let mut position: usize = 0;
    while position < arguments.len() && !crate::text::same_text(arguments[position].as_str(), "--")
        invariant
            position <= arguments@.len(),
            args == crate::text::texts(arguments@),
            forall|k: int| 0 <= k < position ==> args[k] != "--"@,
        decreases arguments@.len() - position,
    {
        position = position + 1;
    }
    proof {
        if position < arguments@.len() {
            assert(args[position as int] == "--"@);
            let c = choose|i: int|
                0 <= i < args.len() && args[i] == "--"@ && forall|k: int| 0 <= k < i ==> args[k] != "--"@;
            assert(c == position) by {
                if c < position {
                    assert(args[c] != "--"@);
                }
                if c > position {
                    assert(args[position as int] != "--"@);
                }
            }
        } else {
            assert forall|i: int| 0 <= i < args.len() implies args[i] != "--"@ by {}
        }
    }
    let mut res = arguments;
    res.insert(position, "--help".to_owned());
    assert(crate::text::texts(res@) =~= with_help(args));
    res
}

} // verus!
