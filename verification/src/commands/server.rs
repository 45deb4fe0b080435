//! `dopbase server`: the options of a local server, the command line a
//! background start hands to its detached child, and the status report.

use crate::text::{decimal, u64_to_string};
use vstd::prelude::*;
use vstd::string::*;

verus! {

/// The `dopbase server` subcommands.
pub enum ServerCommand {
    /// Run the server in the foreground.
    Start(ServerStartArgs),
    /// Start the server in the background.
    Up(ServerLaunchArgs),
    /// Stop the managed background server, waiting `timeout` seconds.
    Down { timeout: u64 },
    /// Show whether the local server runs.
    Status,
    /// Print the background server's log.
    Logs { lines: usize, clean: bool, watch: bool },
}

/// The options of `dopbase server start`.
pub struct ServerStartArgs {
    pub launch: ServerLaunchArgs,
    /// Set by `server up` on the detached child process.
    pub supervised: bool,
}

/// The options shared by `dopbase server start` and `dopbase server up`.
pub struct ServerLaunchArgs {
    /// Server config file to load.
    pub config: Option<String>,
    /// Port to listen on.
    pub port: Option<u16>,
    /// Network interface to bind.
    pub host: Option<String>,
    /// Public URL clients use to reach this server.
    pub public_url: Option<String>,
    /// Seconds to wait for in-flight requests during shutdown.
    pub shutdown_grace_seconds: Option<u64>,
    /// `--docs`: enable the API documentation.
    pub docs: bool,
    /// `--no-docs`: disable the API documentation.
    pub no_docs: bool,
    /// Read the server master key from this file.
    pub master_key_file: Option<String>,
}

impl Default for ServerLaunchArgs {
    /// No option given.
    fn default() -> (res: ServerLaunchArgs)
        ensures
            res.config is None,
            res.port is None,
            res.host is None,
            res.public_url is None,
            res.shutdown_grace_seconds is None,
            !res.docs,
            !res.no_docs,
            res.master_key_file is None,
    {
        ServerLaunchArgs {
            config: None,
            port: None,
            host: None,
            public_url: None,
            shutdown_grace_seconds: None,
            docs: false,
            no_docs: false,
            master_key_file: None,
        }
    }
}

/// `--docs` and `--no-docs` folded into one setting (the command line lets
/// only the last of the two stand).
pub open spec fn docs_setting(docs: bool, no_docs: bool) -> Option<bool> {
    if docs {
        Some(true)
    } else if no_docs {
        Some(false)
    } else {
        None
    }
}

impl ServerLaunchArgs {
    /// The documentation setting: on, off or unset.
    pub fn docs(&self) -> (res: Option<bool>)
        ensures
            res == docs_setting(self.docs, self.no_docs),
    {
        if self.docs {
            Some(true)
        } else if self.no_docs {
            Some(false)
        } else {
            None
        }
    }
}

/// A flag and its value, when the value is set.
pub open spec fn text_option(flag: Seq<char>, value: Option<String>) -> Seq<Seq<char>> {
    match value {
        Some(v) => seq![flag, v@],
        None => seq![],
    }
}

/// A flag and its number, when the number is set.
pub open spec fn number_option(flag: Seq<char>, value: Option<u64>) -> Seq<Seq<char>> {
    match value {
        Some(v) => seq![flag, decimal(v as nat)],
        None => seq![],
    }
}

/// The command line of the detached background server: `server start`, the
/// options that were given, in a fixed order, the resolved data directory
/// and `--supervised` (never `up` again, so the child does not detach).
pub open spec fn start_flags(args: ServerLaunchArgs, data_dir: Seq<char>) -> Seq<Seq<char>> {
    seq!["server"@, "start"@] + text_option("--config"@, args.config) + number_option(
        "--port"@,
        match args.port {
            Some(p) => Some(p as u64),
            None => None,
        },
    ) + text_option("--host"@, args.host) + text_option("--public-url"@, args.public_url)
        + number_option("--shutdown-grace-seconds"@, args.shutdown_grace_seconds) + match docs_setting(
        args.docs,
        args.no_docs,
    ) {
        Some(true) => seq!["--docs"@],
        Some(false) => seq!["--no-docs"@],
        None => seq![],
    } + text_option("--master-key-file"@, args.master_key_file) + seq![
        "--data-dir"@,
        data_dir,
        "--supervised"@,
    ]
}

fn push_text_option(flags: &mut Vec<String>, flag: &str, value: &Option<String>)
    ensures
        crate::text::texts(final(flags)@) == crate::text::texts(old(flags)@) + text_option(flag@, *value),
{
    if let Some(v) = value {
        flags.push(flag.to_owned());
        flags.push(v.clone());
    }
    assert(crate::text::texts(flags@) =~= crate::text::texts(old(flags)@) + text_option(flag@, *value));
}

fn push_number_option(flags: &mut Vec<String>, flag: &str, value: Option<u64>)
    ensures
        crate::text::texts(final(flags)@) == crate::text::texts(old(flags)@) + number_option(flag@, value),
{
    if let Some(v) = value {
        flags.push(flag.to_owned());
        flags.push(u64_to_string(v));
    }
    assert(crate::text::texts(flags@) =~= crate::text::texts(old(flags)@) + number_option(flag@, value));
}

/// The arguments `dopbase server up` starts its detached child with.
pub fn server_start_flags(args: &ServerLaunchArgs, data_dir: &str) -> (res: Vec<String>)
    ensures
        crate::text::texts(res@) == start_flags(*args, data_dir@),
{
    let mut flags: Vec<String> = vec!["server".to_owned(), "start".to_owned()];
    proof {
        reveal_strlit("server");
        reveal_strlit("start");
    }
    push_text_option(&mut flags, "--config", &args.config);
    let port: Option<u64> = match args.port {
        Some(p) => Some(p as u64),
        None => None,
    };
    push_number_option(&mut flags, "--port", port);
    push_text_option(&mut flags, "--host", &args.host);
    push_text_option(&mut flags, "--public-url", &args.public_url);
    push_number_option(&mut flags, "--shutdown-grace-seconds", args.shutdown_grace_seconds);
    let ghost before_docs = crate::text::texts(flags@);
    match args.docs() {
        Some(true) => flags.push("--docs".to_owned()),
        Some(false) => flags.push("--no-docs".to_owned()),
        None => {},
    }
    assert(crate::text::texts(flags@) =~= before_docs + match docs_setting(args.docs, args.no_docs) {
        Some(true) => seq!["--docs"@],
        Some(false) => seq!["--no-docs"@],
        None => Seq::<Seq<char>>::empty(),
    });
    push_text_option(&mut flags, "--master-key-file", &args.master_key_file);
    let ghost before_tail = crate::text::texts(flags@);
    flags.push("--data-dir".to_owned());
    flags.push(data_dir.to_owned());
    flags.push("--supervised".to_owned());
    assert(crate::text::texts(flags@) =~= before_tail + seq!["--data-dir"@, data_dir@, "--supervised"@]);
    assert(crate::text::texts(flags@) =~= start_flags(*args, data_dir@));
    flags
}

/// The options of the older `dopbase serve` command, which a background
/// start hands on to its detached child.
pub struct ServeArgs {
    /// Server config file to load.
    pub config: Option<String>,
    /// Address to bind.
    pub bind_address: Option<String>,
    /// Port to listen on.
    pub port: Option<u16>,
    /// Network interface to bind.
    pub host: Option<String>,
    /// Public URL clients use to reach this server.
    pub public_url: Option<String>,
    /// Database to use.
    pub database_url: Option<String>,
    /// Seconds to wait for in-flight requests during shutdown.
    pub shutdown_grace_seconds: Option<u64>,
    /// `--docs`: enable the API documentation.
    pub docs: bool,
    /// `--no-docs`: disable the API documentation.
    pub no_docs: bool,
    /// Read the server master key from this file.
    pub master_key_file: Option<String>,
}

impl ServeArgs {
    /// The documentation setting: on, off or unset.
    pub fn docs(&self) -> (res: Option<bool>)
        ensures
            res == docs_setting(self.docs, self.no_docs),
    {
        if self.docs {
            Some(true)
        } else if self.no_docs {
            Some(false)
        } else {
            None
        }
    }
}

/// The command line of the detached `serve` child: `serve`, the options
/// that were given, in a fixed order, the resolved data directory and
/// `--supervised` (never `--background`, so the child does not detach
/// again).
pub open spec fn serve_command_line(args: ServeArgs, data_dir: Seq<char>) -> Seq<Seq<char>> {
    seq!["serve"@] + text_option("--config"@, args.config) + text_option(
        "--bind-address"@,
        args.bind_address,
    ) + number_option(
        "--port"@,
        match args.port {
            Some(p) => Some(p as u64),
            None => None,
        },
    ) + text_option("--host"@, args.host) + text_option("--public-url"@, args.public_url)
        + text_option("--database-url"@, args.database_url) + number_option(
        "--shutdown-grace-seconds"@,
        args.shutdown_grace_seconds,
    ) + match docs_setting(args.docs, args.no_docs) {
        Some(true) => seq!["--docs"@],
        Some(false) => seq!["--no-docs"@],
        None => seq![],
    } + text_option("--master-key-file"@, args.master_key_file) + seq![
        "--data-dir"@,
        data_dir,
        "--supervised"@,
    ]
}

/// The arguments a background `serve` starts its detached child with.
pub fn serve_flags(args: &ServeArgs, data_dir: &str) -> (res: Vec<String>)
    ensures
        crate::text::texts(res@) == serve_command_line(*args, data_dir@),
{
    let mut flags: Vec<String> = vec!["serve".to_owned()];
    proof {
        reveal_strlit("serve");
    }
    push_text_option(&mut flags, "--config", &args.config);
    push_text_option(&mut flags, "--bind-address", &args.bind_address);
    let port: Option<u64> = match args.port {
        Some(p) => Some(p as u64),
        None => None,
    };
    push_number_option(&mut flags, "--port", port);
    push_text_option(&mut flags, "--host", &args.host);
    push_text_option(&mut flags, "--public-url", &args.public_url);
    push_text_option(&mut flags, "--database-url", &args.database_url);
    push_number_option(&mut flags, "--shutdown-grace-seconds", args.shutdown_grace_seconds);
    let ghost before_docs = crate::text::texts(flags@);
    match args.docs() {
        Some(true) => flags.push("--docs".to_owned()),
        Some(false) => flags.push("--no-docs".to_owned()),
        None => {},
    }
    assert(crate::text::texts(flags@) =~= before_docs + match docs_setting(args.docs, args.no_docs) {
        Some(true) => seq!["--docs"@],
        Some(false) => seq!["--no-docs"@],
        None => Seq::<Seq<char>>::empty(),
    });
    push_text_option(&mut flags, "--master-key-file", &args.master_key_file);
    let ghost before_tail = crate::text::texts(flags@);
    flags.push("--data-dir".to_owned());
    flags.push(data_dir.to_owned());
    flags.push("--supervised".to_owned());
    assert(crate::text::texts(flags@) =~= before_tail + seq!["--data-dir"@, data_dir@, "--supervised"@]);
    assert(crate::text::texts(flags@) =~= serve_command_line(*args, data_dir@));
    flags
}

/// An argument of the detached child that is neither `--background` nor
/// `--supervised`.
pub open spec fn ordinary_argument(x: Seq<char>) -> bool {
    x != "--background"@ && x != "--supervised"@
}

/// Every argument of `s` is ordinary.
pub open spec fn all_ordinary(s: Seq<Seq<char>>) -> bool {
    forall|i: int| 0 <= i < s.len() ==> ordinary_argument(#[trigger] s[i])
}

/// The value of an option, when given, is ordinary.
pub open spec fn ordinary_value(v: Option<String>) -> bool {
    match v {
        Some(x) => ordinary_argument(x@),
        None => true,
    }
}

proof fn lemma_all_ordinary_concat(a: Seq<Seq<char>>, b: Seq<Seq<char>>)
    requires
        all_ordinary(a),
        all_ordinary(b),
    ensures
        all_ordinary(a + b),
{
    assert forall|i: int| 0 <= i < (a + b).len() implies ordinary_argument(#[trigger] (a + b)[i]) by {
        if i < a.len() {
            assert((a + b)[i] == a[i]);
        } else {
            assert((a + b)[i] == b[i - a.len()]);
        }
    }
}

proof fn lemma_decimal_starts_with_digit(n: nat)
    ensures
        decimal(n).len() > 0,
        '0' <= decimal(n)[0] <= '9',
    decreases n,
{
    if n >= 10 {
        lemma_decimal_starts_with_digit(n / 10);
        assert(decimal(n)[0] == decimal(n / 10)[0]);
    }
}

proof fn lemma_text_option_ordinary(flag: Seq<char>, v: Option<String>)
    requires
        ordinary_argument(flag),
        ordinary_value(v),
    ensures
        all_ordinary(text_option(flag, v)),
{
}

proof fn lemma_number_option_ordinary(flag: Seq<char>, v: Option<u64>)
    requires
        ordinary_argument(flag),
    ensures
        all_ordinary(number_option(flag, v)),
{
    reveal_strlit("--background");
    reveal_strlit("--supervised");
    if let Some(n) = v {
        lemma_decimal_starts_with_digit(n as nat);
        let d = decimal(n as nat);
        assert(d[0] != "--background"@[0]);
        assert(d[0] != "--supervised"@[0]);
        assert(ordinary_argument(d));
    }
}

proof fn lemma_flags_ordinary()
    ensures
        ordinary_argument("serve"@),
        ordinary_argument("--config"@),
        ordinary_argument("--bind-address"@),
        ordinary_argument("--port"@),
        ordinary_argument("--host"@),
        ordinary_argument("--public-url"@),
        ordinary_argument("--database-url"@),
        ordinary_argument("--shutdown-grace-seconds"@),
        ordinary_argument("--docs"@),
        ordinary_argument("--no-docs"@),
        ordinary_argument("--master-key-file"@),
        ordinary_argument("--data-dir"@),
        "--supervised"@ != "--background"@,
{
    reveal_strlit("serve");
    reveal_strlit("--background");
    reveal_strlit("--supervised");
    reveal_strlit("--config");
    reveal_strlit("--bind-address");
    reveal_strlit("--port");
    reveal_strlit("--host");
    reveal_strlit("--public-url");
    reveal_strlit("--database-url");
    reveal_strlit("--shutdown-grace-seconds");
    reveal_strlit("--docs");
    reveal_strlit("--no-docs");
    reveal_strlit("--master-key-file");
    reveal_strlit("--data-dir");
    assert("--public-url"@[2] != "--background"@[2]);
    assert("--public-url"@[2] != "--supervised"@[2]);
    assert("--bind-address"@[3] != "--background"@[3]);
    assert("--bind-address"@[2] != "--supervised"@[2]);
    assert("--master-key-file"@[2] != "--background"@[2]);
    assert("--master-key-file"@[2] != "--supervised"@[2]);
    assert("--supervised"@[2] != "--background"@[2]);
    assert("--shutdown-grace-seconds"@[3] != "--supervised"@[3]);
    assert("--shutdown-grace-seconds"@[2] != "--background"@[2]);
}

/// The detached child is started as `serve`, ends with the data directory
/// and a single `--supervised`, and is never told `--background` (so it
/// does not detach again), when no option value is one of those two words.
pub proof fn law_serve_child_is_supervised_not_background(args: ServeArgs, data_dir: Seq<char>)
    requires
        ordinary_value(args.config),
        ordinary_value(args.bind_address),
        ordinary_value(args.host),
        ordinary_value(args.public_url),
        ordinary_value(args.database_url),
        ordinary_value(args.master_key_file),
        ordinary_argument(data_dir),
    ensures
        serve_command_line(args, data_dir)[0] == "serve"@,
        serve_command_line(args, data_dir).len() >= 4,
        serve_command_line(args, data_dir).subrange(
            serve_command_line(args, data_dir).len() - 3,
            serve_command_line(args, data_dir).len() as int,
        ) == seq!["--data-dir"@, data_dir, "--supervised"@],
        !serve_command_line(args, data_dir).contains("--background"@),
        forall|i: int|
            0 <= i < serve_command_line(args, data_dir).len() - 1 ==> #[trigger] serve_command_line(
                args,
                data_dir,
            )[i] != "--supervised"@,
{
    lemma_flags_ordinary();
    let port = match args.port {
        Some(p) => Some(p as u64),
        None => None,
    };
    let docs: Seq<Seq<char>> = match docs_setting(args.docs, args.no_docs) {
        Some(true) => seq!["--docs"@],
        Some(false) => seq!["--no-docs"@],
        None => seq![],
    };
    let s0: Seq<Seq<char>> = seq!["serve"@];
    let s1 = text_option("--config"@, args.config);
    let s2 = text_option("--bind-address"@, args.bind_address);
    let s3 = number_option("--port"@, port);
    let s4 = text_option("--host"@, args.host);
    let s5 = text_option("--public-url"@, args.public_url);
    let s6 = text_option("--database-url"@, args.database_url);
    let s7 = number_option("--shutdown-grace-seconds"@, args.shutdown_grace_seconds);
    let s8 = text_option("--master-key-file"@, args.master_key_file);
    lemma_text_option_ordinary("--config"@, args.config);
    lemma_text_option_ordinary("--bind-address"@, args.bind_address);
    lemma_number_option_ordinary("--port"@, port);
    lemma_text_option_ordinary("--host"@, args.host);
    lemma_text_option_ordinary("--public-url"@, args.public_url);
    lemma_text_option_ordinary("--database-url"@, args.database_url);
    lemma_number_option_ordinary("--shutdown-grace-seconds"@, args.shutdown_grace_seconds);
    lemma_text_option_ordinary("--master-key-file"@, args.master_key_file);
    assert(all_ordinary(s0));
    assert(all_ordinary(docs));
    let tail: Seq<Seq<char>> = seq!["--data-dir"@, data_dir];
    assert(all_ordinary(tail));
    lemma_all_ordinary_concat(s0, s1);
    lemma_all_ordinary_concat(s0 + s1, s2);
    lemma_all_ordinary_concat(s0 + s1 + s2, s3);
    lemma_all_ordinary_concat(s0 + s1 + s2 + s3, s4);
    lemma_all_ordinary_concat(s0 + s1 + s2 + s3 + s4, s5);
    lemma_all_ordinary_concat(s0 + s1 + s2 + s3 + s4 + s5, s6);
    lemma_all_ordinary_concat(s0 + s1 + s2 + s3 + s4 + s5 + s6, s7);
    lemma_all_ordinary_concat(s0 + s1 + s2 + s3 + s4 + s5 + s6 + s7, docs);
    lemma_all_ordinary_concat(s0 + s1 + s2 + s3 + s4 + s5 + s6 + s7 + docs, s8);
    let prefix = s0 + s1 + s2 + s3 + s4 + s5 + s6 + s7 + docs + s8;
    lemma_all_ordinary_concat(prefix, tail);
    let l = serve_command_line(args, data_dir);
    assert(l =~= prefix + tail + seq!["--supervised"@]);
    assert(l[0] == "serve"@);
    assert(l.subrange(l.len() - 3, l.len() as int) =~= seq!["--data-dir"@, data_dir, "--supervised"@]);
    assert forall|i: int| 0 <= i < l.len() - 1 implies #[trigger] l[i] != "--supervised"@ by {
        assert(l[i] == (prefix + tail)[i]);
    }
    assert(!l.contains("--background"@)) by {
        if l.contains("--background"@) {
            let i = choose|i: int| 0 <= i < l.len() && l[i] == "--background"@;
            if i < l.len() - 1 {
                assert(l[i] == (prefix + tail)[i]);
            }
        }
    }
}

/// What a server start hands to the configuration loader.
pub struct ServerOverrides {
    pub data_dir: Option<String>,
    pub docs: Option<bool>,
    pub background: bool,
    pub supervised: bool,
    pub config_path: Option<String>,
    pub public_url: Option<String>,
    pub port: Option<u16>,
    pub host: Option<String>,
    pub shutdown_grace_seconds: Option<u64>,
    pub master_key_path: Option<String>,
}

/// The configuration overrides of a server start: the launch options, the
/// data directory, and whether it runs in the background or supervised.
pub fn load_server_config(
    args: ServerLaunchArgs,
    data_dir: Option<String>,
    background: bool,
    supervised: bool,
) -> (res: ServerOverrides)
    ensures
        res.data_dir == data_dir,
        res.docs == docs_setting(args.docs, args.no_docs),
        res.background == background,
        res.supervised == supervised,
        res.config_path == args.config,
        res.public_url == args.public_url,
        res.port == args.port,
        res.host == args.host,
        res.shutdown_grace_seconds == args.shutdown_grace_seconds,
        res.master_key_path == args.master_key_file,
{
    let docs = args.docs();
    ServerOverrides {
        data_dir,
        docs,
        background,
        supervised,
        config_path: args.config,
        public_url: args.public_url,
        port: args.port,
        host: args.host,
        shutdown_grace_seconds: args.shutdown_grace_seconds,
        master_key_path: args.master_key_file,
    }
}

/// Options that do not combine: JSON output with a foreground start or with
/// a watched log.
pub fn check_server_command(command: &ServerCommand, json_output: bool) -> (res: Result<(), String>)
    ensures
        json_output && command is Start ==> (res matches Err(m) && m@
            == "--json cannot be used with `dopbase server start`"@),
        json_output && (command matches ServerCommand::Logs { watch, .. } && *watch) ==> (res matches Err(
            m,
        ) && m@ == "--json cannot be used with `dopbase server logs --watch`"@),
        !(json_output && command is Start) && !(json_output && (command matches ServerCommand::Logs {
            watch,
            ..
        } && *watch)) ==> res is Ok,
{
    match command {
        ServerCommand::Start(_) => if json_output {
            return Err("--json cannot be used with `dopbase server start`".to_owned());
        },
        ServerCommand::Logs { watch, .. } => if json_output && *watch {
            return Err("--json cannot be used with `dopbase server logs --watch`".to_owned());
        },
        _ => {},
    }
    Ok(())
}

/// The message when `dopbase server down` meets a foreground server.
pub open spec fn foreground_running_message() -> Seq<char> {
    "the server is running in the foreground. Stop it with Ctrl+C"@
}

/// `dopbase server down` stops only a background server.
pub fn check_server_down(foreground_running: bool) -> (res: Result<(), String>)
    ensures
        foreground_running ==> (res matches Err(m) && m@ == foreground_running_message()),
        !foreground_running ==> res is Ok,
{
    if foreground_running {
        return Err("the server is running in the foreground. Stop it with Ctrl+C".to_owned());
    }
    Ok(())
}

/// What runs the local instance.
pub enum ServerState {
    /// The managed background server, with its process details.
    Background { pid: u32, started_at: String, public_url: Option<String> },
    /// A server in the foreground holds the instance.
    Foreground,
    /// Nothing runs; `stale_pid_file` says a PID file was left behind.
    Stopped { stale_pid_file: bool },
}

/// What the PID file of the managed background server says.
pub enum ManagedDaemon {
    /// The managed server runs, with these process details.
    Running { pid: u32, started_at: String, public_url: Option<String> },
    /// There is no PID file.
    Absent,
    /// A PID file was left by a server that no longer runs.
    Stale,
}

/// What runs the instance, from the managed server's PID file and whether
/// a server holds the instance lock: the managed server when it runs, else
/// a foreground server when the lock is held, else nothing.
pub open spec fn state_of(daemon: ManagedDaemon, lock_held: bool) -> ServerState {
    match daemon {
        ManagedDaemon::Running { pid, started_at, public_url } => ServerState::Background {
            pid,
            started_at,
            public_url,
        },
        ManagedDaemon::Absent => if lock_held {
            ServerState::Foreground
        } else {
            ServerState::Stopped { stale_pid_file: false }
        },
        ManagedDaemon::Stale => if lock_held {
            ServerState::Foreground
        } else {
            ServerState::Stopped { stale_pid_file: true }
        },
    }
}

/// The `status` and `mode` words of the JSON status report.
pub open spec fn status_words(state: ServerState) -> (Seq<char>, Option<Seq<char>>) {
    match state {
        ServerState::Background { .. } => ("running"@, Some("background"@)),
        ServerState::Foreground => ("running"@, Some("foreground"@)),
        ServerState::Stopped { .. } => ("stopped"@, None),
    }
}

/// The outcome of `dopbase server status`.
pub struct StatusOutcome {
    /// What runs the instance.
    pub state: ServerState,
    /// The exit code: 0 when a server runs, 1 otherwise.
    pub exit_code: i32,
    /// The JSON `status` word.
    pub status: &'static str,
    /// The JSON `mode` word; none when stopped.
    pub mode: Option<&'static str>,
}

/// What `dopbase server status` reports, from the managed server's PID
/// file and whether the instance lock is held.
pub fn server_status_outcome(daemon: ManagedDaemon, lock_held: bool) -> (res: StatusOutcome)
    ensures
        res.state == state_of(daemon, lock_held),
        res.exit_code == (if res.state is Stopped { 1i32 } else { 0i32 }),
        res.status@ == status_words(res.state).0,
        match status_words(res.state).1 {
            Some(m) => res.mode matches Some(w) && w@ == m,
            None => res.mode is None,
        },
{
    proof {
        reveal_strlit("running");
        reveal_strlit("stopped");
        reveal_strlit("background");
        reveal_strlit("foreground");
    }
    let state = match daemon {
        ManagedDaemon::Running { pid, started_at, public_url } => ServerState::Background {
            pid,
            started_at,
            public_url,
        },
        ManagedDaemon::Absent => if lock_held {
            ServerState::Foreground
        } else {
            ServerState::Stopped { stale_pid_file: false }
        },
        ManagedDaemon::Stale => if lock_held {
            ServerState::Foreground
        } else {
            ServerState::Stopped { stale_pid_file: true }
        },
    };
    match state {
        ServerState::Background { .. } => StatusOutcome {
            state,
            exit_code: 0,
            status: "running",
            mode: Some("background"),
        },
        ServerState::Foreground => StatusOutcome {
            state,
            exit_code: 0,
            status: "running",
            mode: Some("foreground"),
        },
        ServerState::Stopped { .. } => StatusOutcome { state, exit_code: 1, status: "stopped", mode: None },
    }
}

/// The status report says `running` exactly when the exit code is 0, which
/// is exactly when the managed server runs or a server holds the instance
/// lock; and the exit code is the one the text report gives.
pub proof fn law_running_exactly_when_exit_zero(
    daemon: ManagedDaemon,
    lock_held: bool,
    data_dir: Seq<char>,
    log_file: Seq<char>,
)
    ensures
        (status_words(state_of(daemon, lock_held)).0 == "running"@) == (status_report(
            state_of(daemon, lock_held),
            data_dir,
            log_file,
        ).1 == 0),
        (status_report(state_of(daemon, lock_held), data_dir, log_file).1 == 0) == (daemon is Running
            || lock_held),
{
    reveal_strlit("running");
    reveal_strlit("stopped");
    assert("running"@ != "stopped"@) by {
        assert("running"@[0] != "stopped"@[0]);
    }
}

/// The report of `dopbase server status` and its exit code (1 when
/// stopped).
pub open spec fn status_report(state: ServerState, data_dir: Seq<char>, log_file: Seq<char>) -> (Seq<char>, i32) {
    match state {
        ServerState::Background { pid, started_at, public_url } => (
            "Server:     running (background)\nPID:        "@ + decimal(pid as nat) + "\nStarted:    "@
                + started_at@ + "\nURL:        "@ + match public_url {
                Some(u) => u@,
                None => "unknown"@,
            } + "\nData:       "@ + data_dir + "\nLog:        "@ + log_file,
            0,
        ),
        ServerState::Foreground => ("Server:     running (foreground)\nData:       "@ + data_dir, 0),
        ServerState::Stopped { stale_pid_file } => (
            "Server:     stopped\nData:       "@ + data_dir + if stale_pid_file {
                "\nNote:       stale PID file found"@
            } else {
                seq![]
            },
            1,
        ),
    }
}

/// What `dopbase server status` prints, and the exit code it returns.
pub fn server_status_text(state: &ServerState, data_dir: &str, log_file: &str) -> (res: (String, i32))
    ensures
        res.0@ == status_report(*state, data_dir@, log_file@).0,
        res.1 == status_report(*state, data_dir@, log_file@).1,
{
    match state {
        ServerState::Background { pid, started_at, public_url } => {
            let mut text = "Server:     running (background)\nPID:        ".to_owned();
            let p = u64_to_string(*pid as u64);
            text.append(p.as_str());
            text.append("\nStarted:    ");
            text.append(started_at.as_str());
            text.append("\nURL:        ");
            match public_url {
                Some(u) => text.append(u.as_str()),
                None => text.append("unknown"),
            }
            text.append("\nData:       ");
            text.append(data_dir);
            text.append("\nLog:        ");
            text.append(log_file);
            (text, 0)
        },
        ServerState::Foreground => {
            let mut text = "Server:     running (foreground)\nData:       ".to_owned();
            text.append(data_dir);
            (text, 0)
        },
        ServerState::Stopped { stale_pid_file } => {
            let mut text = "Server:     stopped\nData:       ".to_owned();
            text.append(data_dir);
            if *stale_pid_file {
                text.append("\nNote:       stale PID file found");
            }
            assert(*stale_pid_file || text@ =~= status_report(*state, data_dir@, log_file@).0);
            (text, 1)
        },
    }
}

} // verus!
