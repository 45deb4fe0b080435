//! The choices `dopbase run` makes around the child process: the
//! environment it runs, what it reports first and the exit code it returns.

use crate::commands::run::cache::{RuntimeLoad, RuntimeSource};
use crate::models::SecretInput;
use crate::text::texts;
use crate::text::{contains_str, contains_text, decimal, u64_to_string};
use vstd::prelude::*;
use vstd::string::*;

verus! {

/// Where the environment of a run was named.
#[derive(Clone, Copy, Debug, PartialEq, Eq, Structural)]
pub enum RunEnvironmentSource {
    /// The command line.
    Argument,
    /// The `DOPBASE_ENV` variable.
    Environment,
    /// The active server's saved default.
    Default,
}

/// Why an environment variable could not be read.
#[derive(Clone, Copy, Debug, PartialEq, Eq, Structural)]
pub enum EnvVarError {
    /// It is not set.
    NotPresent,
    /// Its value is not valid Unicode.
    NotUnicode,
}

/// The environment a run uses and where it was named.
pub struct RunEnvironment {
    pub reference: String,
    pub source: RunEnvironmentSource,
}

/// The environment a run uses: the argument when there is one, then a
/// non-empty `DOPBASE_ENV`, then the saved default. An empty or non-Unicode
/// `DOPBASE_ENV` is an error, as is having none of the three.
pub fn run_environment(
    argument: Option<String>,
    environment: Result<String, EnvVarError>,
    default: Option<&str>,
) -> (res: Result<RunEnvironment, String>)
    ensures
        argument matches Some(a) ==> (res matches Ok(r) && r.reference == a && r.source
            == RunEnvironmentSource::Argument),
        argument is None ==> match environment {
            Ok(e) => if e@.len() == 0 {
                res matches Err(m) && m@ == "DOPBASE_ENV is set but empty"@
            } else {
                res matches Ok(r) && r.reference == e && r.source
                    == RunEnvironmentSource::Environment
            },
            Err(EnvVarError::NotUnicode) => res matches Err(m) && m@
                == "DOPBASE_ENV contains invalid Unicode"@,
            Err(EnvVarError::NotPresent) => match default {
                Some(d) => res matches Ok(r) && r.reference@ == d@ && r.source
                    == RunEnvironmentSource::Default,
                None => res matches Err(m) && m@
                    == "No default environment is set. Set one with: dopbase env default <project/environment>"@,
            },
        },
{
    if let Some(reference) = argument {
        return Ok(RunEnvironment { reference, source: RunEnvironmentSource::Argument });
    }
    match environment {
        Ok(reference) => {
            if reference.as_str().unicode_len() == 0 {
                return Err("DOPBASE_ENV is set but empty".to_owned());
            }
            return Ok(RunEnvironment { reference, source: RunEnvironmentSource::Environment });
        },
        Err(EnvVarError::NotUnicode) => {
            return Err("DOPBASE_ENV contains invalid Unicode".to_owned());
        },
        Err(EnvVarError::NotPresent) => {},
    }
    if let Some(reference) = default {
        return Ok(
            RunEnvironment { reference: reference.to_owned(), source: RunEnvironmentSource::Default },
        );
    }
    Err("No default environment is set. Set one with: dopbase env default <project/environment>".to_owned())
}

/// The message when the saved default environment no longer exists.
pub open spec fn missing_default(reference: Seq<char>) -> Seq<char> {
    "Saved default environment "@ + reference
        + " is unavailable. Set a new one with `dopbase env default <project/environment>` or clear it with `dopbase env default --clear`."@
}

/// A failed load of the saved default environment whose error names
/// `ENVIRONMENT_NOT_FOUND` is reported as a stale default; any other failure
/// is reported as it is (`None`).
pub fn stale_default_message(selection: &RunEnvironment, error: &str) -> (res: Option<String>)
    ensures
        selection.source == RunEnvironmentSource::Default && contains_text(
            error@,
            "ENVIRONMENT_NOT_FOUND"@,
        ) ==> (res matches Some(m) && m@ == missing_default(selection.reference@)),
        !(selection.source == RunEnvironmentSource::Default && contains_text(
            error@,
            "ENVIRONMENT_NOT_FOUND"@,
        )) ==> res is None,
{
    if selection.source == RunEnvironmentSource::Default && contains_str(error, "ENVIRONMENT_NOT_FOUND") {
        let mut message = "Saved default environment ".to_owned();
        message.append(selection.reference.as_str());
        message.append(
            " is unavailable. Set a new one with `dopbase env default <project/environment>` or clear it with `dopbase env default --clear`.",
        );
        Some(message)
    } else {
        None
    }
}

/// The warning printed before a run, if any: why the cache was not updated
/// after a live fetch, or why the cache is used and how old it is.
pub open spec fn source_warning(source: RuntimeSource) -> Option<Seq<char>> {
    match source {
        RuntimeSource::Live { cache_warning } => match cache_warning {
            Some(w) => Some("Dopbase warning: "@ + w@),
            None => None,
        },
        RuntimeSource::Cache { fetched_at, age, reason } => Some(
            "Dopbase warning: "@ + reason@ + "; using encrypted cache fetched at "@ + fetched_at@ + " ("@
                + age@ + " old)."@,
        ),
    }
}

/// The warning line `dopbase run` prints about where its secrets came from.
pub fn warning_line(source: &RuntimeSource) -> (res: Option<String>)
    ensures
        match source_warning(*source) {
            Some(w) => res matches Some(line) && line@ == w,
            None => res is None,
        },
{
    match source {
        RuntimeSource::Live { cache_warning } => match cache_warning {
            Some(w) => {
                let mut line = "Dopbase warning: ".to_owned();
                line.append(w.as_str());
                Some(line)
            },
            None => None,
        },
        RuntimeSource::Cache { fetched_at, age, reason } => {
            let mut line = "Dopbase warning: ".to_owned();
            line.append(reason.as_str());
            line.append("; using encrypted cache fetched at ");
            line.append(fetched_at.as_str());
            line.append(" (");
            line.append(age.as_str());
            line.append(" old).");
            Some(line)
        },
    }
}

/// `live` or `cache`, as text.
pub open spec fn source_name(source: RuntimeSource) -> Seq<char> {
    match source {
        RuntimeSource::Live { .. } => "live"@,
        RuntimeSource::Cache { .. } => "cache"@,
    }
}

/// The line that names the environment a run injects, how many keys and
/// from where.
pub open spec fn summary_line(load: RuntimeLoad) -> Seq<char> {
    "Dopbase: "@ + load.project@ + "/"@ + load.environment@ + " ("@ + load.environment_id@ + "), "@
        + decimal(load.entries@.len()) + " key(s), source="@ + source_name(load.source)
}

/// `Dopbase: project/environment (id), N key(s), source=live|cache`.
pub fn run_summary(load: &RuntimeLoad) -> (res: String)
    ensures
        res@ == summary_line(*load),
{
    let mut line = "Dopbase: ".to_owned();
    line.append(load.project.as_str());
    line.append("/");
    line.append(load.environment.as_str());
    line.append(" (");
    line.append(load.environment_id.as_str());
    line.append("), ");
    let count = u64_to_string(load.entries.len() as u64);
    line.append(count.as_str());
    line.append(" key(s), source=");
    line.append(load.source.as_str());
    line
}

/// The exit code of a run: the child's code, or 128 plus the signal that
/// ended it (signal 1 when none is known).
pub fn child_exit_code(code: Option<i32>, signal: Option<i32>) -> (res: i32)
    requires
        code is None ==> (signal matches Some(s) ==> s <= i32::MAX - 128),
    ensures
        code matches Some(c) ==> res == c,
        code is None ==> res == 128 + match signal {
            Some(s) => s,
            None => 1,
        },
{
    match code {
        Some(c) => c,
        None => 128 + match signal {
            Some(s) => s,
            None => 1,
        },
    }
}

/// The message when a run was given no command to start.
pub open spec fn missing_command_message() -> Seq<char> {
    "run requires a child command"@
}

/// The program and the arguments a run starts: the first word and the rest.
pub fn child_command(command: &Vec<String>) -> (res: Result<(String, Vec<String>), String>)
    ensures
        command@.len() == 0 ==> (res matches Err(m) && m@ == missing_command_message()),
        command@.len() > 0 ==> (res matches Ok(c) && c.0@ == command@[0]@ && c.1@.len()
            == command@.len() - 1 && forall|i: int|
            0 <= i < c.1@.len() ==> (#[trigger] c.1@[i])@ == command@[i + 1]@),
{
    if command.len() == 0 {
        return Err("run requires a child command".to_owned());
    }
    let program = command[0].clone();
    let mut args: Vec<String> = Vec::new();
    let mut i: usize = 1;
    while i < command.len()
        invariant
            1 <= i <= command@.len(),
            args@.len() == i - 1,
            forall|k: int| 0 <= k < args@.len() ==> (#[trigger] args@[k])@ == command@[k + 1]@,
        decreases command@.len() - i,
    {
        args.push(command[i].clone());
        i = i + 1;
    }
    Ok((program, args))
}


/// Secret values are never printed: the line a run prints about what it
/// injects is the same for any two runs that differ only in the values of
/// their entries.
pub proof fn law_summary_hides_values(a: RuntimeLoad, b: RuntimeLoad)
    requires
        a.project@ == b.project@,
        a.environment@ == b.environment@,
        a.environment_id@ == b.environment_id@,
        a.entries@.len() == b.entries@.len(),
        source_name(a.source) == source_name(b.source),
    ensures
        summary_line(a) == summary_line(b),
{
}

/// What a run changes in the environment it hands its child: the variables
/// it removes, then the variables it sets, in order.
pub struct ChildEnvironment {
    pub remove: Vec<String>,
    pub set: Vec<(String, String)>,
}

/// The name and value of each entry, in order.
pub open spec fn entry_pairs(entries: Seq<SecretInput>) -> Seq<(Seq<char>, Seq<char>)> {
    entries.map_values(|e: SecretInput| (e.key@, e.value@))
}

/// The views of name-value pairs.
pub open spec fn pair_views(set: Seq<(String, String)>) -> Seq<(Seq<char>, Seq<char>)> {
    set.map_values(|p: (String, String)| (p.0@, p.1@))
}

/// The name of the variable that carries the credential.
pub open spec fn token_variable() -> Seq<char> {
    "DOPBASE_TOKEN"@
}

/// The child of a run does not inherit the credential, and gets every
/// secret entry as a variable.
pub fn child_environment(entries: &Vec<SecretInput>) -> (res: ChildEnvironment)
    ensures
        texts(res.remove@) == seq![token_variable()],
        pair_views(res.set@) == entry_pairs(entries@),
{
    proof {
        reveal_strlit("DOPBASE_TOKEN");
    }
    let remove: Vec<String> = vec!["DOPBASE_TOKEN".to_owned()];
    let mut set: Vec<(String, String)> = Vec::new();
    let mut i: usize = 0;
    while i < entries.len()
        invariant
            i <= entries@.len(),
            set@.len() == i,
            forall|k: int|
                0 <= k < i ==> (#[trigger] set@[k]).0@ == entries@[k].key@ && set@[k].1@
                    == entries@[k].value@,
        decreases entries@.len() - i,
    {
        let key = entries[i].key.clone();
        let value = entries[i].value.clone();
        set.push((key, value));
        i = i + 1;
    }
    assert(pair_views(set@) =~= entry_pairs(entries@));
    assert(texts(remove@) =~= seq![token_variable()]);
    ChildEnvironment { remove, set }
}

/// `env` after setting each pair in order (a later pair wins).
pub open spec fn with_settings(
    env: Map<Seq<char>, Seq<char>>,
    set: Seq<(Seq<char>, Seq<char>)>,
) -> Map<Seq<char>, Seq<char>>
    decreases set.len(),
{
    if set.len() == 0 {
        env
    } else {
        with_settings(env, set.drop_last()).insert(set.last().0, set.last().1)
    }
}

/// The environment the child of a run sees, given its parent's: the
/// parent's without `DOPBASE_TOKEN`, with every entry set.
pub open spec fn child_env(parent: Map<Seq<char>, Seq<char>>, entries: Seq<SecretInput>) -> Map<
    Seq<char>,
    Seq<char>,
> {
    with_settings(parent.remove(token_variable()), entry_pairs(entries))
}

proof fn lemma_with_settings_untouched(
    env: Map<Seq<char>, Seq<char>>,
    set: Seq<(Seq<char>, Seq<char>)>,
    k: Seq<char>,
)
    requires
        forall|j: int| 0 <= j < set.len() ==> (#[trigger] set[j]).0 != k,
    ensures
        with_settings(env, set).dom().contains(k) == env.dom().contains(k),
        env.dom().contains(k) ==> with_settings(env, set)[k] == env[k],
    decreases set.len(),
{
    if set.len() > 0 {
        let rest = set.drop_last();
        assert forall|j: int| 0 <= j < rest.len() implies (#[trigger] rest[j]).0 != k by {
            assert(rest[j] == set[j]);
        }
        lemma_with_settings_untouched(env, rest, k);
        assert(set[set.len() - 1].0 != k);
    }
}

proof fn lemma_with_settings_last(env: Map<Seq<char>, Seq<char>>, set: Seq<(Seq<char>, Seq<char>)>, i: int)
    requires
        0 <= i < set.len(),
        forall|j: int| i < j < set.len() ==> (#[trigger] set[j]).0 != set[i].0,
    ensures
        with_settings(env, set).dom().contains(set[i].0),
        with_settings(env, set)[set[i].0] == set[i].1,
    decreases set.len(),
{
    if i < set.len() - 1 {
        let rest = set.drop_last();
        assert(rest[i] == set[i]);
        assert forall|j: int| i < j < rest.len() implies (#[trigger] rest[j]).0 != rest[i].0 by {
            assert(rest[j] == set[j]);
        }
        lemma_with_settings_last(env, rest, i);
        assert(set[set.len() - 1].0 != set[i].0);
    }
}

/// The child of a run sees every secret: a name that an entry sets has the
/// value of the last entry that sets it.
pub proof fn law_child_sees_each_secret(parent: Map<Seq<char>, Seq<char>>, entries: Seq<SecretInput>, i: int)
    requires
        0 <= i < entries.len(),
        forall|j: int| i < j < entries.len() ==> (#[trigger] entries[j]).key@ != entries[i].key@,
    ensures
        child_env(parent, entries).dom().contains(entries[i].key@),
        child_env(parent, entries)[entries[i].key@] == entries[i].value@,
{
    let pairs = entry_pairs(entries);
    assert forall|j: int| i < j < pairs.len() implies (#[trigger] pairs[j]).0 != pairs[i].0 by {
        assert(entries[j].key@ != entries[i].key@);
    }
    lemma_with_settings_last(parent.remove(token_variable()), pairs, i);
}

/// A name that no entry sets: `DOPBASE_TOKEN` is absent from the child's
/// environment, and any other name is as in the parent's.
pub proof fn law_child_keeps_the_rest_but_the_token(
    parent: Map<Seq<char>, Seq<char>>,
    entries: Seq<SecretInput>,
    name: Seq<char>,
)
    requires
        forall|j: int| 0 <= j < entries.len() ==> (#[trigger] entries[j]).key@ != name,
    ensures
        name == token_variable() ==> !child_env(parent, entries).dom().contains(name),
        name != token_variable() ==> child_env(parent, entries).dom().contains(name)
            == parent.dom().contains(name),
        name != token_variable() && parent.dom().contains(name) ==> child_env(parent, entries)[name]
            == parent[name],
{
    let pairs = entry_pairs(entries);
    assert forall|j: int| 0 <= j < pairs.len() implies (#[trigger] pairs[j]).0 != name by {
        assert(entries[j].key@ != name);
    }
    lemma_with_settings_untouched(parent.remove(token_variable()), pairs, name);
}

} // verus!
