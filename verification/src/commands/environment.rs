//! `dopbase env`: the environment commands, and `env clone` as a sequence
//! of server requests whose every failure after the new environment exists
//! removes it again.

use crate::commands::output::{
    headers_view, lengths_below, listing_text, rows_view, rows_within_headers, table_listing,
};
use crate::models::SecretInput;
use crate::text::{counted, counted_text, decimal, same_text, u64_to_string};
use zeroize::Zeroize;
use vstd::prelude::*;
use vstd::string::*;

verus! {

/// Overwrites a string's bytes with zeros and empties it.
///
/// Calls `Zeroize::zeroize` on the `String`, which zeroes its bytes and
/// clears it; the contract states that it is empty afterwards.
#[verifier::external_body]
fn zeroize_string(s: &mut String)
    ensures
        final(s)@.len() == 0,
{
    s.zeroize();
}

/// Secret entries held in memory while they are copied; `wipe` erases
/// their values once they are no longer needed.
pub struct SensitiveEntries(pub Vec<SecretInput>);

impl SensitiveEntries {
    /// How many entries there are.
    pub fn len(&self) -> (res: usize)
        ensures
            res == self.0@.len(),
    {
        self.0.len()
    }

    /// The entries.
    pub fn as_slice(&self) -> (res: &[SecretInput])
        ensures
            res@ == self.0@,
    {
        self.0.as_slice()
    }

    /// Zeroes and empties every value, keeping the keys.
    pub fn wipe(&mut self)
        ensures
            final(self).0@.len() == old(self).0@.len(),
            forall|i: int| 0 <= i < final(self).0@.len() ==> (#[trigger] final(self).0@[i]).value@.len() == 0
                && final(self).0@[i].key == old(self).0@[i].key,
    {
        let n = self.0.len();
        let mut wiped: Vec<SecretInput> = Vec::new();
        let mut i: usize = 0;
        let ghost original = self.0@;
        while i < n
            invariant
                n == original.len(),
                i <= n,
                self.0@.len() == n - i,
                forall|k: int| 0 <= k < self.0@.len() ==> #[trigger] self.0@[k] == original[k + i],
                wiped@.len() == i,
                forall|k: int| 0 <= k < i ==> (#[trigger] wiped@[k]).value@.len() == 0 && wiped@[k].key
                    == original[k].key,
            decreases n - i,
        {
            let ghost before = self.0@;
            let mut entry = self.0.remove(0);
            proof {
                assert forall|k: int| 0 <= k < self.0@.len() implies #[trigger] self.0@[k] == original[k + i + 1] by {
                    assert(self.0@[k] == before[k + 1]);
                }
            }
            zeroize_string(&mut entry.value);
            wiped.push(entry);
            i = i + 1;
        }
        self.0 = wiped;
    }
}

/// `1 secret`, `3 secrets`.
pub fn secret_count_label(count: usize) -> (res: String)
    ensures
        res@ == counted(count as nat, " secret"@, " secrets"@),
{
    counted_text(count, " secret", " secrets")
}

/// The source of a clone, as the server resolved it.
pub struct CloneTarget {
    pub source_id: String,
    pub project_id: String,
    pub project_name: String,
    pub source_name: String,
    pub new_name: String,
}

/// The message for a resolved source missing one of its fields.
pub open spec fn missing_field(field: Seq<char>) -> Seq<char> {
    "source environment response did not contain "@ + field
}

fn missing_field_message(field: &str) -> (res: String)
    ensures
        res@ == missing_field(field@),
{
    let mut res = "source environment response did not contain ".to_owned();
    res.append(field);
    res
}

/// The clone target from the fields of the resolved source environment:
/// each of `id`, `projectId`, `projectName` and `name` is required, in that
/// order.
pub fn clone_target(
    id: Option<String>,
    project_id: Option<String>,
    project_name: Option<String>,
    name: Option<String>,
    new_name: &str,
) -> (res: Result<CloneTarget, String>)
    ensures
        id is None ==> (res matches Err(m) && m@ == missing_field("id"@)),
        id is Some && project_id is None ==> (res matches Err(m) && m@ == missing_field("projectId"@)),
        id is Some && project_id is Some && project_name is None ==> (res matches Err(m) && m@
            == missing_field("projectName"@)),
        id is Some && project_id is Some && project_name is Some && name is None ==> (res matches Err(
            m,
        ) && m@ == missing_field("name"@)),
        id is Some && project_id is Some && project_name is Some && name is Some ==> (res matches Ok(
            t,
        ) && Some(t.source_id) == id && Some(t.project_id) == project_id && Some(t.project_name)
            == project_name && Some(t.source_name) == name && t.new_name@ == new_name@),
{
    let source_id = match id {
        Some(v) => v,
        None => {
            return Err(missing_field_message("id"));
        },
    };
    let project_id = match project_id {
        Some(v) => v,
        None => {
            return Err(missing_field_message("projectId"));
        },
    };
    let project_name = match project_name {
        Some(v) => v,
        None => {
            return Err(missing_field_message("projectName"));
        },
    };
    let source_name = match name {
        Some(v) => v,
        None => {
            return Err(missing_field_message("name"));
        },
    };
    Ok(CloneTarget { source_id, project_id, project_name, source_name, new_name: new_name.to_owned() })
}

/// `project/source` as the server resolved it.
pub open spec fn resolved_source(t: CloneTarget) -> Seq<char> {
    t.project_name@ + "/"@ + t.source_name@
}

/// `project/new-name`.
pub open spec fn destination(t: CloneTarget) -> Seq<char> {
    t.project_name@ + "/"@ + t.new_name@
}

impl CloneTarget {
    /// `project/source`.
    pub fn resolved_source(&self) -> (res: String)
        ensures
            res@ == resolved_source(*self),
    {
        let mut res = self.project_name.clone();
        res.append("/");
        res.append(self.source_name.as_str());
        res
    }

    /// `project/new-name`.
    pub fn destination(&self) -> (res: String)
        ensures
            res@ == destination(*self),
    {
        let mut res = self.project_name.clone();
        res.append("/");
        res.append(self.new_name.as_str());
        res
    }
}

/// Where a clone stands, and so which request comes next.
pub enum ClonePhase {
    /// List the project's environments to check the new name is free.
    CheckName,
    /// Count the source's secrets.
    CountSecrets,
    /// Show the summary and ask to clone this many secrets.
    Confirm { secret_count: usize },
    /// Re-authenticate if needed, then create the new environment.
    Create,
    /// Export the source's secrets.
    Export { destination_id: String },
    /// Import the exported secrets into the new environment.
    Import { destination_id: String, count: usize },
    /// Delete the new environment after a failure described by `message`.
    Rollback { destination_id: String, message: String },
    /// List the project's environments to show the result.
    Refresh { copied: usize },
    /// Finished: show this message and the environment list.
    Done { message: String },
    /// Finished with this error.
    Failed { message: String },
}

/// What the last request of a clone returned.
pub enum CloneEvent {
    /// The project's environment names.
    Listed(Vec<String>),
    /// The number of secrets in the source.
    Counted(usize),
    /// The user confirmed.
    Confirmed,
    /// The new environment was created with this ID.
    Created(String),
    /// The source secrets were exported; this many.
    Exported(usize),
    /// The secrets were imported.
    Imported,
    /// The new environment was deleted again.
    RolledBack,
    /// The request failed with this message.
    RequestFailed(String),
}

/// The names include `name`.
pub open spec fn name_taken(names: Seq<String>, name: Seq<char>) -> bool {
    exists|k: int| 0 <= k < names.len() && (#[trigger] names[k])@ == name
}

/// Whether `next` is the phase that follows `event` in `phase` for a clone
/// of `t`. Finished phases stay as they are, as does a phase given an event
/// it does not wait for.
pub open spec fn clone_step(t: CloneTarget, phase: ClonePhase, event: CloneEvent, next: ClonePhase) -> bool {
    match phase {
        ClonePhase::CheckName => match event {
            CloneEvent::Listed(names) => if name_taken(names@, t.new_name@) {
                next matches ClonePhase::Failed { message } && message@ == "Environment "@ + destination(t)
                    + " already exists."@
            } else {
                next is CountSecrets
            },
            CloneEvent::RequestFailed(e) => next == (ClonePhase::Failed { message: e }),
            _ => next == phase,
        },
        ClonePhase::CountSecrets => match event {
            CloneEvent::Counted(n) => next == (ClonePhase::Confirm { secret_count: n }),
            CloneEvent::RequestFailed(e) => next == (ClonePhase::Failed { message: e }),
            _ => next == phase,
        },
        ClonePhase::Confirm { .. } => match event {
            CloneEvent::Confirmed => next is Create,
            CloneEvent::RequestFailed(e) => next == (ClonePhase::Failed { message: e }),
            _ => next == phase,
        },
        ClonePhase::Create => match event {
            CloneEvent::Created(id) => next == (ClonePhase::Export { destination_id: id }),
            CloneEvent::RequestFailed(e) => next == (ClonePhase::Failed { message: e }),
            _ => next == phase,
        },
        ClonePhase::Export { destination_id } => match event {
            CloneEvent::Exported(n) => next == (ClonePhase::Import { destination_id, count: n }),
            CloneEvent::RequestFailed(e) => next matches ClonePhase::Rollback { destination_id: d, message }
                && d == destination_id && message@ == "Could not read the source secrets: "@ + e@,
            _ => next == phase,
        },
        ClonePhase::Import { destination_id, count } => match event {
            CloneEvent::Imported => next == (ClonePhase::Refresh { copied: count }),
            CloneEvent::RequestFailed(e) => next matches ClonePhase::Rollback { destination_id: d, message }
                && d == destination_id && message@ == "Could not copy the source secrets: "@ + e@,
            _ => next == phase,
        },
        ClonePhase::Rollback { destination_id, message } => match event {
            CloneEvent::RolledBack => next matches ClonePhase::Failed { message: m } && m@ == message@
                + "\nCleanup: removed the new environment "@ + destination(t) + "."@,
            CloneEvent::RequestFailed(e) => next matches ClonePhase::Failed { message: m } && m@
                == message@ + "\nCleanup failed for "@ + destination(t) + ": "@ + e@,
            _ => next == phase,
        },
        ClonePhase::Refresh { copied } => match event {
            CloneEvent::Listed(_) => next matches ClonePhase::Done { message } && message@ == "Cloned "@
                + counted(copied as nat, " secret"@, " secrets"@) + " from "@ + resolved_source(t) + " to "@
                + destination(t) + "."@,
            CloneEvent::RequestFailed(e) => next matches ClonePhase::Failed { message } && message@
                == "Cloned "@ + destination(t) + ", but could not refresh the environment list: "@ + e@
                + "\nRun `dopbase env list "@ + t.project_name@ + "` to view the project environments."@,
            _ => next == phase,
        },
        ClonePhase::Done { .. } => next == phase,
        ClonePhase::Failed { .. } => next == phase,
    }
}

fn name_in(names: &Vec<String>, name: &str) -> (res: bool)
    ensures
        res == name_taken(names@, name@),
{
    let mut k: usize = 0;
    while k < names.len()
        invariant
            k <= names@.len(),
            forall|j: int| 0 <= j < k ==> (#[trigger] names@[j])@ != name@,
        decreases names@.len() - k,
    {
        if same_text(names[k].as_str(), name) {
            assert(names@[k as int]@ == name@);
            return true;
        }
        k = k + 1;
    }
    false
}

fn joined_message(first: &str, second: &str) -> (res: String)
    ensures
        res@ == first@ + second@,
{
    let mut res = first.to_owned();
    res.append(second);
    res
}

/// The phase that follows `event` in `phase` for a clone of `target`.
pub fn clone_next(target: &CloneTarget, phase: ClonePhase, event: CloneEvent) -> (res: ClonePhase)
    ensures
        clone_step(*target, phase, event, res),
{
    match phase {
        ClonePhase::CheckName => match event {
            CloneEvent::Listed(names) => {
                if name_in(&names, target.new_name.as_str()) {
                    let mut message = "Environment ".to_owned();
                    let dest = target.destination();
                    message.append(dest.as_str());
                    message.append(" already exists.");
                    ClonePhase::Failed { message }
                } else {
                    ClonePhase::CountSecrets
                }
            },
            CloneEvent::RequestFailed(e) => ClonePhase::Failed { message: e },
            _ => ClonePhase::CheckName,
        },
        ClonePhase::CountSecrets => match event {
            CloneEvent::Counted(n) => ClonePhase::Confirm { secret_count: n },
            CloneEvent::RequestFailed(e) => ClonePhase::Failed { message: e },
            _ => ClonePhase::CountSecrets,
        },
        ClonePhase::Confirm { secret_count } => match event {
            CloneEvent::Confirmed => ClonePhase::Create,
            CloneEvent::RequestFailed(e) => ClonePhase::Failed { message: e },
            _ => ClonePhase::Confirm { secret_count },
        },
        ClonePhase::Create => match event {
            CloneEvent::Created(id) => ClonePhase::Export { destination_id: id },
            CloneEvent::RequestFailed(e) => ClonePhase::Failed { message: e },
            _ => ClonePhase::Create,
        },
        ClonePhase::Export { destination_id } => match event {
            CloneEvent::Exported(n) => ClonePhase::Import { destination_id, count: n },
            CloneEvent::RequestFailed(e) => ClonePhase::Rollback {
                destination_id,
                message: joined_message("Could not read the source secrets: ", e.as_str()),
            },
            _ => ClonePhase::Export { destination_id },
        },
        ClonePhase::Import { destination_id, count } => match event {
            CloneEvent::Imported => ClonePhase::Refresh { copied: count },
            CloneEvent::RequestFailed(e) => ClonePhase::Rollback {
                destination_id,
                message: joined_message("Could not copy the source secrets: ", e.as_str()),
            },
            _ => ClonePhase::Import { destination_id, count },
        },
        ClonePhase::Rollback { destination_id, message } => match event {
            CloneEvent::RolledBack => {
                let mut m = message.clone();
                m.append("\nCleanup: removed the new environment ");
                let dest = target.destination();
                m.append(dest.as_str());
                m.append(".");
                ClonePhase::Failed { message: m }
            },
            CloneEvent::RequestFailed(e) => {
                let mut m = message.clone();
                m.append("\nCleanup failed for ");
                let dest = target.destination();
                m.append(dest.as_str());
                m.append(": ");
                m.append(e.as_str());
                ClonePhase::Failed { message: m }
            },
            _ => ClonePhase::Rollback { destination_id, message },
        },
        ClonePhase::Refresh { copied } => match event {
            CloneEvent::Listed(_) => {
                let mut m = "Cloned ".to_owned();
                let label = secret_count_label(copied);
                m.append(label.as_str());
                m.append(" from ");
                let src = target.resolved_source();
                m.append(src.as_str());
                m.append(" to ");
                let dest = target.destination();
                m.append(dest.as_str());
                m.append(".");
                ClonePhase::Done { message: m }
            },
            CloneEvent::RequestFailed(e) => {
                let mut m = "Cloned ".to_owned();
                let dest = target.destination();
                m.append(dest.as_str());
                m.append(", but could not refresh the environment list: ");
                m.append(e.as_str());
                m.append("\nRun `dopbase env list ");
                m.append(target.project_name.as_str());
                m.append("` to view the project environments.");
                ClonePhase::Failed { message: m }
            },
            _ => ClonePhase::Refresh { copied },
        },
        ClonePhase::Done { message } => ClonePhase::Done { message },
        ClonePhase::Failed { message } => ClonePhase::Failed { message },
    }
}

/// Once the new environment exists and the copy into it fails, the next
/// request deletes that same environment: no failed clone leaves a
/// half-filled copy behind without trying to remove it.
pub proof fn law_failed_copy_rolls_back(
    t: CloneTarget,
    phase: ClonePhase,
    error: String,
    next: ClonePhase,
)
    requires
        phase is Export || phase is Import,
        clone_step(t, phase, CloneEvent::RequestFailed(error), next),
    ensures
        next matches ClonePhase::Rollback { destination_id, .. } && (phase matches ClonePhase::Export {
            destination_id: d,
        } ==> d == destination_id) && (phase matches ClonePhase::Import { destination_id: d, .. } ==> d
            == destination_id),
{
}

/// A clone whose new name is already used in the project stops before it
/// creates anything.
pub proof fn law_taken_name_stops(t: CloneTarget, names: Vec<String>, next: ClonePhase)
    requires
        name_taken(names@, t.new_name@),
        clone_step(t, ClonePhase::CheckName, CloneEvent::Listed(names), next),
    ensures
        next is Failed,
{
}

/// The project's environments are listed to check the new name: a listed
/// name equal to it, wherever it stands in the list, stops the clone with
/// `Environment PROJECT/NAME already exists.`; when no listed name equals
/// it, the clone goes on to count the source's secrets.
pub proof fn law_listed_name_anywhere_stops(t: CloneTarget, names: Vec<String>, next: ClonePhase)
    requires
        clone_step(t, ClonePhase::CheckName, CloneEvent::Listed(names), next),
    ensures
        (exists|k: int| 0 <= k < names@.len() && (#[trigger] names@[k])@ == t.new_name@) ==> (next matches ClonePhase::Failed {
            message,
        } && message@ == "Environment "@ + t.project_name@ + "/"@ + t.new_name@ + " already exists."@),
        (forall|k: int| 0 <= k < names@.len() ==> (#[trigger] names@[k])@ != t.new_name@) ==> next is CountSecrets,
{
    if exists|k: int| 0 <= k < names@.len() && (#[trigger] names@[k])@ == t.new_name@ {
        let k = choose|k: int| 0 <= k < names@.len() && (#[trigger] names@[k])@ == t.new_name@;
        assert(name_taken(names@, t.new_name@));
    } else {
        assert(!name_taken(names@, t.new_name@));
    }
}

/// A clone creates the new environment only after the user confirmed it.
pub proof fn law_clone_creates_after_confirmation(
    t: CloneTarget,
    phase: ClonePhase,
    event: CloneEvent,
    next: ClonePhase,
)
    requires
        clone_step(t, phase, event, next),
        next is Create,
        !(phase is Create),
    ensures
        phase is Confirm,
        event is Confirmed,
{
}

/// A finished clone stays finished whatever is reported afterwards.
pub proof fn law_finished_clone_is_final(
    t: CloneTarget,
    phase: ClonePhase,
    event: CloneEvent,
    next: ClonePhase,
)
    requires
        phase is Done || phase is Failed,
        clone_step(t, phase, event, next),
    ensures
        next == phase,
{
}

/// The summary printed before a clone is confirmed.
pub fn clone_summary(source: &str, destination: &str, secret_count: usize) -> (res: String)
    ensures
        exists|fields: Seq<(&str, String)>|
            crate::commands::client::field_views(fields) == seq![
                ("Source:"@, source@),
                ("Destination:"@, destination@),
                ("Secrets:"@, decimal(secret_count as nat)),
            ] && res@ == crate::commands::output::fields_text(fields),
{
    let fields: Vec<(&str, String)> = vec![
        ("Source:", source.to_owned()),
        ("Destination:", destination.to_owned()),
        ("Secrets:", u64_to_string(secret_count as u64)),
    ];
    assert(crate::commands::client::field_views(fields@) =~= seq![
        ("Source:"@, source@),
        ("Destination:"@, destination@),
        ("Secrets:"@, decimal(secret_count as nat)),
    ]);
    crate::commands::output::render_fields(fields.as_slice())
}

/// The confirmation asked before a clone.
pub fn clone_prompt(secret_count: usize, source: &str, destination: &str) -> (res: String)
    ensures
        res@ == "Clone "@ + counted(secret_count as nat, " secret"@, " secrets"@) + " from "@ + source@
            + " to "@ + destination@ + "?"@,
{
    let mut res = "Clone ".to_owned();
    let label = secret_count_label(secret_count);
    res.append(label.as_str());
    res.append(" from ");
    res.append(source);
    res.append(" to ");
    res.append(destination);
    res.append("?");
    res
}

/// The confirmation asked before deleting an environment.
pub fn delete_prompt(environment: &str, secrets: usize, tokens: usize) -> (res: String)
    ensures
        res@ == "Delete environment "@ + environment@ + ", "@ + decimal(secrets as nat)
            + " secret(s), and "@ + decimal(tokens as nat) + " token(s)?"@,
{
    let mut res = "Delete environment ".to_owned();
    res.append(environment);
    res.append(", ");
    let s = u64_to_string(secrets as u64);
    res.append(s.as_str());
    res.append(" secret(s), and ");
    let t = u64_to_string(tokens as u64);
    res.append(t.as_str());
    res.append(" token(s)?");
    res
}


/// The headers of an environment listing.
pub open spec fn environment_headers() -> Seq<Seq<char>> {
    seq!["PROJECT"@, "ENVIRONMENT"@, "ID"@, "UPDATED"@]
}

/// The message of an empty environment listing.
pub open spec fn no_environments(project: Option<Seq<char>>) -> Seq<char> {
    match project {
        Some(p) => "No environments found for "@ + p + "."@,
        None => "No environments found."@,
    }
}

/// The rows hold four cells each, every one shorter than the table can pad.
pub open spec fn environment_rows_fit(rows: Seq<Seq<Seq<char>>>) -> bool {
    forall|j: int|
        0 <= j < rows.len() ==> (#[trigger] rows[j]).len() == 4 && forall|k: int|
            0 <= k < 4 ==> (#[trigger] rows[j][k]).len() < usize::MAX - 3
}

/// The listing of environments (project, name, ID, update time per row),
/// with `N environment(s)` under it.
pub fn environment_listing(rows: &Vec<Vec<String>>, project: Option<&str>) -> (res: String)
    requires
        environment_rows_fit(rows_view(rows@)),
    ensures
        res@ == listing_text(
            environment_headers(),
            rows_view(rows@),
            no_environments(
                match project {
                    Some(p) => Some(p@),
                    None => None,
                },
            ),
            decimal(rows@.len() as nat) + " environment(s)"@,
        ),
{
    let headers: Vec<&str> = vec!["PROJECT", "ENVIRONMENT", "ID", "UPDATED"];
    let empty = match project {
        Some(p) => {
            let mut m = "No environments found for ".to_owned();
            m.append(p);
            m.append(".");
            m
        },
        None => "No environments found.".to_owned(),
    };
    let mut summary = u64_to_string(rows.len() as u64);
    summary.append(" environment(s)");
    proof {
        reveal_strlit("PROJECT");
        reveal_strlit("ENVIRONMENT");
        reveal_strlit("ID");
        reveal_strlit("UPDATED");
        let hv = headers_view(headers@);
        let rv = rows_view(rows@);
        assert(hv =~= environment_headers());
        assert forall|j: int, k: int| 0 <= j < rv.len() && 0 <= k < rv[j].len() implies #[trigger] rv[j][k].len()
            < (usize::MAX - 3) as nat by {
            assert(rv[j].len() == 4);
        }
        assert(lengths_below(hv, rv, (usize::MAX - 3) as nat));
        assert forall|j: int, k: int|
            0 <= j < rv.len() && hv.len() <= k < rv[j].len() - 1 implies #[trigger] rv[j][k].len() == 0 by {
            assert(rv[j].len() == 4);
        }
        assert(rows_within_headers(hv, rv));
    }
    table_listing(headers.as_slice(), rows.as_slice(), empty.as_str(), summary.as_str())
}

/// What `dopbase env default --clear` reports.
pub fn default_cleared_message(cleared: bool) -> (res: &'static str)
    ensures
        cleared ==> res@ == "Cleared the default environment."@,
        !cleared ==> res@ == "No default environment was set."@,
{
    if cleared {
        "Cleared the default environment."
    } else {
        "No default environment was set."
    }
}

/// What `dopbase env default` reports after saving a default.
pub fn default_set_message(reference: &str) -> (res: String)
    ensures
        res@ == "Set "@ + reference@ + " as the default environment."@,
{
    let mut res = "Set ".to_owned();
    res.append(reference);
    res.append(" as the default environment.");
    res
}

/// `Created environment project/name (id).` or `Renamed environment to
/// project/name (id).`
pub fn environment_changed_message(renamed: bool, project: &str, name: &str, id: &str) -> (res: String)
    ensures
        res@ == (if renamed {
            "Renamed environment to "@
        } else {
            "Created environment "@
        }) + project@ + "/"@ + name@ + " ("@ + id@ + ")."@,
{
    let mut res = if renamed {
        "Renamed environment to ".to_owned()
    } else {
        "Created environment ".to_owned()
    };
    res.append(project);
    res.append("/");
    res.append(name);
    res.append(" (");
    res.append(id);
    res.append(").");
    res
}


/// The details shown for one environment.
pub fn environment_details_text(
    project: &str,
    name: &str,
    id: &str,
    created: &str,
    updated: &str,
) -> (res: String)
    ensures
        exists|fields: Seq<(&str, String)>|
            crate::commands::client::field_views(fields) == seq![
                ("Project:"@, project@),
                ("Environment:"@, name@),
                ("ID:"@, id@),
                ("Created:"@, created@),
                ("Updated:"@, updated@),
            ] && res@ == crate::commands::output::fields_text(fields),
{
    let fields: Vec<(&str, String)> = vec![
        ("Project:", project.to_owned()),
        ("Environment:", name.to_owned()),
        ("ID:", id.to_owned()),
        ("Created:", created.to_owned()),
        ("Updated:", updated.to_owned()),
    ];
    assert(crate::commands::client::field_views(fields@) =~= seq![
        ("Project:"@, project@),
        ("Environment:"@, name@),
        ("ID:"@, id@),
        ("Created:"@, created@),
        ("Updated:"@, updated@),
    ]);
    crate::commands::output::render_fields(fields.as_slice())
}

/// What a deletion removed: environments, secrets and tokens.
pub fn affected_text(environments: u64, secrets: u64, tokens: u64) -> (res: String)
    ensures
        exists|fields: Seq<(&str, String)>|
            crate::commands::client::field_views(fields) == seq![
                ("Environments:"@, decimal(environments as nat)),
                ("Secrets:"@, decimal(secrets as nat)),
                ("Tokens:"@, decimal(tokens as nat)),
            ] && res@ == crate::commands::output::fields_text(fields),
{
    let fields: Vec<(&str, String)> = vec![
        ("Environments:", u64_to_string(environments)),
        ("Secrets:", u64_to_string(secrets)),
        ("Tokens:", u64_to_string(tokens)),
    ];
    assert(crate::commands::client::field_views(fields@) =~= seq![
        ("Environments:"@, decimal(environments as nat)),
        ("Secrets:"@, decimal(secrets as nat)),
        ("Tokens:"@, decimal(tokens as nat)),
    ]);
    crate::commands::output::render_fields(fields.as_slice())
}

} // verus!
