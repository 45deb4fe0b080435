//! `dopbase admin factory-reset`: the confirmation it asks for, the host
//! checks on the data directory, and the reset itself as a sequence of file
//! operations that moves the data aside before anything is deleted and puts
//! it back when the backup cannot be written.

use crate::models::{utc_compact, utc_compact_text, Timestamp};
use crate::paths::{
    file_name, has_parent, path_equal, path_file_name, path_has_parent, path_starts_with,
    path_with_file_name, same_path, starts_with, with_file_name,
};
use crate::text::same_text;
use vstd::prelude::*;
use vstd::string::*;

verus! {

/// The text a user types to confirm a factory reset.
pub const FACTORY_RESET_CONFIRMATION: &'static str = "please-wipe-out-system";

/// `s` without its trailing carriage returns and line feeds.
pub open spec fn without_line_endings(s: Seq<char>) -> Seq<char>
    decreases s.len(),
{
    if s.len() > 0 && (s.last() == '\r' || s.last() == '\n') {
        without_line_endings(s.drop_last())
    } else {
        s
    }
}

/// Whether a typed confirmation, line endings aside, is exactly
/// `please-wipe-out-system`.
pub fn factory_reset_confirmation_matches(value: &str) -> (res: bool)
    ensures
        res == (without_line_endings(value@) == "please-wipe-out-system"@),
{
    let mut end = value.unicode_len();
    assert(value@.subrange(0, end as int) =~= value@);
    while end > 0 && (value.get_char(end - 1) == '\r' || value.get_char(end - 1) == '\n')
        invariant
            end <= value@.len(),
            without_line_endings(value@) == without_line_endings(value@.subrange(0, end as int)),
        decreases end,
    {
        proof {
            assert(value@.subrange(0, end as int).drop_last() =~= value@.subrange(0, end - 1));
        }
        end = end - 1;
    }
    proof {
        let t = value@.subrange(0, end as int);
        assert(t.len() == 0 || !(t.last() == '\r' || t.last() == '\n'));
        assert(without_line_endings(t) == t);
    }
    same_text(value.substring_char(0, end), FACTORY_RESET_CONFIRMATION)
}

/// The name of the backup archive of a quarantined directory: its name and
/// `.zip`, next to it.
pub open spec fn archive_path_of(quarantine: Seq<char>) -> Seq<char> {
    let name = match path_file_name(quarantine) {
        Some(n) => n,
        None => "dopbase.factory-reset"@,
    };
    path_with_file_name(quarantine, name + ".zip"@)
}

/// Where the ZIP backup of a quarantined data directory is written.
pub fn factory_reset_archive_path(quarantine: &str) -> (res: String)
    ensures
        res@ == archive_path_of(quarantine@),
{
    let mut name = match file_name(quarantine) {
        Some(n) => n,
        None => "dopbase.factory-reset".to_owned(),
    };
    name.append(".zip");
    with_file_name(quarantine, name.as_str())
}

/// The name the data directory is moved to during a reset:
/// `NAME.factory-reset-YYYYMMDDhhmmss` next to it.
pub open spec fn quarantine_path_of(data_dir: Seq<char>, now: Timestamp) -> Option<Seq<char>> {
    match path_file_name(data_dir) {
        Some(n) => Some(
            path_with_file_name(
                data_dir,
                n + ".factory-reset-"@ + utc_compact_text(now.seconds, now.nanos),
            ),
        ),
        None => None,
    }
}

/// The message for a data directory path without a final name.
pub open spec fn unnamed_data_dir_message() -> Seq<char> {
    "Dopbase data directory does not have a valid name"@
}

/// Where the data directory is moved at time `now`; refused for a path with
/// no final name. Whether something already exists there is the first
/// phase of the reset (`ResetPhase::CheckQuarantine`).
pub fn factory_reset_quarantine_path(data_dir: &str, now: &Timestamp) -> (res: Result<String, String>)
    requires
        now.valid(),
    ensures
        match quarantine_path_of(data_dir@, *now) {
            Some(p) => res matches Ok(q) && q@ == p,
            None => res matches Err(m) && m@ == unnamed_data_dir_message(),
        },
{
    let name = match file_name(data_dir) {
        Some(n) => n,
        None => {
            return Err("Dopbase data directory does not have a valid name".to_owned());
        },
    };
    let mut new_name = name;
    new_name.append(".factory-reset-");
    let stamp = utc_compact(now);
    new_name.append(stamp.as_str());
    Ok(with_file_name(data_dir, new_name.as_str()))
}

/// The message for a quarantine path that is already taken.
pub fn quarantine_exists_message(path: &str) -> (res: String)
    ensures
        res@ == "factory reset quarantine path already exists: "@ + path@,
{
    let mut res = "factory reset quarantine path already exists: ".to_owned();
    res.append(path);
    res
}

/// The message for a reset started away from the server host.
pub open spec fn host_only_message() -> Seq<char> {
    "Factory reset is only available on the Dopbase server host. Run it on the host with the server stopped."@
}

/// A reset runs on the host: the data directory exists and the database is
/// a file.
pub fn check_reset_host(data_dir_exists: bool, database_is_file: bool) -> (res: Result<(), String>)
    ensures
        data_dir_exists && database_is_file ==> res is Ok,
        !(data_dir_exists && database_is_file) ==> (res matches Err(m) && m@ == host_only_message()),
{
    if !data_dir_exists || !database_is_file {
        return Err(
            "Factory reset is only available on the Dopbase server host. Run it on the host with the server stopped.".to_owned(),
        );
    }
    Ok(())
}

/// Why a resolved data directory may not be reset, if it may not: it must
/// contain its database, not be the filesystem root or (compared as paths)
/// the home directory, and not contain the current directory.
pub open spec fn reset_target_problem(
    target: Seq<char>,
    database: Seq<char>,
    home: Option<Seq<char>>,
    current: Seq<char>,
) -> Option<Seq<char>> {
    if !path_starts_with(database, target) {
        Some("refusing to reset a data directory that does not contain its database"@)
    } else if !path_has_parent(target) {
        Some("refusing to use the filesystem root as the Dopbase data directory"@)
    } else if home matches Some(h) && path_equal(target, h) {
        Some("refusing to use the home directory as the Dopbase data directory"@)
    } else if path_starts_with(current, target) {
        Some("leave the Dopbase data directory before running factory reset"@)
    } else {
        None
    }
}

/// Checks the resolved (canonical) data directory, database, home and
/// current directories before a reset.
pub fn validate_factory_reset_target(
    target: &str,
    database: &str,
    home: Option<&str>,
    current: &str,
) -> (res: Result<(), String>)
    ensures
        match reset_target_problem(
            target@,
            database@,
            match home {
                Some(h) => Some(h@),
                None => None,
            },
            current@,
        ) {
            Some(m) => res matches Err(e) && e@ == m,
            None => res is Ok,
        },
{
    if !starts_with(database, target) {
        return Err("refusing to reset a data directory that does not contain its database".to_owned());
    }
    if !has_parent(target) {
        return Err("refusing to use the filesystem root as the Dopbase data directory".to_owned());
    }
    if let Some(h) = home {
        if same_path(target, h) {
            return Err("refusing to use the home directory as the Dopbase data directory".to_owned());
        }
    }
    if starts_with(current, target) {
        return Err("leave the Dopbase data directory before running factory reset".to_owned());
    }
    Ok(())
}

/// The paths a reset works with.
pub struct ResetPlan {
    /// The active data directory.
    pub data_dir: String,
    /// Where it is moved first.
    pub quarantine: String,
    /// The finished ZIP backup.
    pub archive: String,
    /// The ZIP backup while it is written.
    pub partial_archive: String,
    /// The top directory inside the ZIP: the data directory's name.
    pub archive_root: String,
    /// Delete without a backup.
    pub no_backup: bool,
}

/// The message for a data directory path without a final UTF-8 name.
pub open spec fn unnamed_archive_root_message() -> Seq<char> {
    "Dopbase data directory does not have a valid UTF-8 name"@
}

/// The partial archive of `archive`: `.NAME.partial` next to it.
pub open spec fn partial_path_of(archive: Seq<char>) -> Seq<char> {
    let name = match path_file_name(archive) {
        Some(n) => n,
        None => "factory-reset.zip"@,
    };
    path_with_file_name(archive, "."@ + name + ".partial"@)
}

/// The paths of a reset of `data_dir` through `quarantine`.
pub fn reset_plan(data_dir: &str, quarantine: &str, no_backup: bool) -> (res: Result<ResetPlan, String>)
    ensures
        match path_file_name(data_dir@) {
            None => res matches Err(m) && m@ == unnamed_archive_root_message(),
            Some(root) => res matches Ok(p) && p.data_dir@ == data_dir@ && p.quarantine@ == quarantine@
                && p.archive@ == archive_path_of(quarantine@) && p.partial_archive@ == partial_path_of(
                archive_path_of(quarantine@),
            ) && p.archive_root@ == root && p.no_backup == no_backup,
        },
{
    let archive = factory_reset_archive_path(quarantine);
    let archive_root = match file_name(data_dir) {
        Some(n) => n,
        None => {
            return Err("Dopbase data directory does not have a valid UTF-8 name".to_owned());
        },
    };
    let mut partial_name = ".".to_owned();
    let archive_name = match file_name(archive.as_str()) {
        Some(n) => n,
        None => "factory-reset.zip".to_owned(),
    };
    partial_name.append(archive_name.as_str());
    partial_name.append(".partial");
    let partial_archive = with_file_name(archive.as_str(), partial_name.as_str());
    Ok(
        ResetPlan {
            data_dir: data_dir.to_owned(),
            quarantine: quarantine.to_owned(),
            archive,
            partial_archive,
            archive_root,
            no_backup,
        },
    )
}

/// Where a reset stands, and so which file operation comes next.
pub enum ResetPhase {
    /// Check that nothing exists at the quarantine path.
    CheckQuarantine,
    /// Check that neither the archive nor the partial archive exists.
    CheckBackupPaths,
    /// Move the data directory to the quarantine path.
    MoveAside,
    /// Write the ZIP backup of the quarantine (through the partial archive).
    Archive,
    /// Remove the partial archive and move the quarantine back after the
    /// backup failed with `error`.
    Restore { error: String },
    /// Delete the quarantined data; `backup` says a backup was written.
    DeleteQuarantine { backup: bool },
    /// Finished; the backup written, if any.
    Done { archive: Option<String> },
    /// Finished with this error.
    Failed { message: String },
}

/// What the last file operation of a reset reported.
pub enum ResetEvent {
    /// Nothing exists at the quarantine path.
    QuarantineFree,
    /// Something already exists at the quarantine path.
    QuarantineTaken,
    /// Neither backup path exists.
    BackupPathsFree,
    /// A backup path already exists.
    BackupPathTaken,
    /// The data directory was moved aside.
    Moved,
    /// The backup was written and published.
    Archived,
    /// The data directory was moved back.
    Restored,
    /// The quarantine was deleted.
    Deleted,
    /// The operation failed with this message.
    OperationFailed(String),
}

/// The first phase of a reset: the quarantine path is checked before
/// anything else.
pub fn reset_start(plan: &ResetPlan) -> (res: ResetPhase)
    ensures
        res is CheckQuarantine,
{
    ResetPhase::CheckQuarantine
}

/// Whether `next` follows `event` in `phase` for a reset of `plan`. Finished
/// phases stay as they are, as does a phase given an event it does not wait
/// for.
pub open spec fn reset_step(plan: ResetPlan, phase: ResetPhase, event: ResetEvent, next: ResetPhase) -> bool {
    match phase {
        ResetPhase::CheckQuarantine => match event {
            ResetEvent::QuarantineFree => if plan.no_backup {
                next is MoveAside
            } else {
                next is CheckBackupPaths
            },
            ResetEvent::QuarantineTaken => next matches ResetPhase::Failed { message } && message@
                == "factory reset quarantine path already exists: "@ + plan.quarantine@,
            ResetEvent::OperationFailed(e) => next == (ResetPhase::Failed { message: e }),
            _ => next == phase,
        },
        ResetPhase::CheckBackupPaths => match event {
            ResetEvent::BackupPathsFree => next is MoveAside,
            ResetEvent::BackupPathTaken => next matches ResetPhase::Failed { message } && message@
                == "factory reset backup path already exists: "@ + plan.archive@,
            ResetEvent::OperationFailed(e) => next == (ResetPhase::Failed { message: e }),
            _ => next == phase,
        },
        ResetPhase::MoveAside => match event {
            ResetEvent::Moved => if plan.no_backup {
                next == (ResetPhase::DeleteQuarantine { backup: false })
            } else {
                next is Archive
            },
            ResetEvent::OperationFailed(e) => next matches ResetPhase::Failed { message } && message@
                == "failed to move Dopbase data directory "@ + plan.data_dir@ + " to "@ + plan.quarantine@
                + ": "@ + e@,
            _ => next == phase,
        },
        ResetPhase::Archive => match event {
            ResetEvent::Archived => next == (ResetPhase::DeleteQuarantine { backup: true }),
            ResetEvent::OperationFailed(e) => next == (ResetPhase::Restore { error: e }),
            _ => next == phase,
        },
        ResetPhase::Restore { error } => match event {
            ResetEvent::Restored => next matches ResetPhase::Failed { message } && message@
                == "factory reset was cancelled because the ZIP backup could not be created: "@ + error@,
            ResetEvent::OperationFailed(e) => next matches ResetPhase::Failed { message } && message@
                == "the backup failed and the original data directory could not be restored: "@ + e@
                + ": "@ + error@,
            _ => next == phase,
        },
        ResetPhase::DeleteQuarantine { backup } => match event {
            ResetEvent::Deleted => if backup {
                next matches ResetPhase::Done { archive: Some(a) } && a@ == plan.archive@
            } else {
                next == (ResetPhase::Done { archive: None })
            },
            ResetEvent::OperationFailed(e) => if backup {
                next matches ResetPhase::Failed { message } && message@ == "the ZIP backup was created at "@
                    + plan.archive@ + ", but the old data remains at "@ + plan.quarantine@ + ": "@ + e@
            } else {
                next matches ResetPhase::Failed { message } && message@
                    == "factory reset removed the active data directory, but could not delete "@
                    + plan.quarantine@ + ": "@ + e@
            },
            _ => next == phase,
        },
        ResetPhase::Done { .. } => next == phase,
        ResetPhase::Failed { .. } => next == phase,
    }
}

/// The phase that follows `event` in `phase` for a reset of `plan`.
pub fn reset_next(plan: &ResetPlan, phase: ResetPhase, event: ResetEvent) -> (res: ResetPhase)
    ensures
        reset_step(*plan, phase, event, res),
{
    match phase {
        ResetPhase::CheckQuarantine => match event {
            ResetEvent::QuarantineFree => if plan.no_backup {
                ResetPhase::MoveAside
            } else {
                ResetPhase::CheckBackupPaths
            },
            ResetEvent::QuarantineTaken => ResetPhase::Failed {
                message: quarantine_exists_message(plan.quarantine.as_str()),
            },
            ResetEvent::OperationFailed(e) => ResetPhase::Failed { message: e },
            _ => ResetPhase::CheckQuarantine,
        },
        ResetPhase::CheckBackupPaths => match event {
            ResetEvent::BackupPathsFree => ResetPhase::MoveAside,
            ResetEvent::BackupPathTaken => {
                let mut message = "factory reset backup path already exists: ".to_owned();
                message.append(plan.archive.as_str());
                ResetPhase::Failed { message }
            },
            ResetEvent::OperationFailed(e) => ResetPhase::Failed { message: e },
            _ => ResetPhase::CheckBackupPaths,
        },
        ResetPhase::MoveAside => match event {
            ResetEvent::Moved => if plan.no_backup {
                ResetPhase::DeleteQuarantine { backup: false }
            } else {
                ResetPhase::Archive
            },
            ResetEvent::OperationFailed(e) => {
                let mut message = "failed to move Dopbase data directory ".to_owned();
                message.append(plan.data_dir.as_str());
                message.append(" to ");
                message.append(plan.quarantine.as_str());
                message.append(": ");
                message.append(e.as_str());
                ResetPhase::Failed { message }
            },
            _ => ResetPhase::MoveAside,
        },
        ResetPhase::Archive => match event {
            ResetEvent::Archived => ResetPhase::DeleteQuarantine { backup: true },
            ResetEvent::OperationFailed(e) => ResetPhase::Restore { error: e },
            _ => ResetPhase::Archive,
        },
        ResetPhase::Restore { error } => match event {
            ResetEvent::Restored => {
                let mut message =
                    "factory reset was cancelled because the ZIP backup could not be created: ".to_owned();
                message.append(error.as_str());
                ResetPhase::Failed { message }
            },
            ResetEvent::OperationFailed(e) => {
                let mut message =
                    "the backup failed and the original data directory could not be restored: ".to_owned();
                message.append(e.as_str());
                message.append(": ");
                message.append(error.as_str());
                ResetPhase::Failed { message }
            },
            _ => ResetPhase::Restore { error },
        },
        ResetPhase::DeleteQuarantine { backup } => match event {
            ResetEvent::Deleted => if backup {
                ResetPhase::Done { archive: Some(plan.archive.clone()) }
            } else {
                ResetPhase::Done { archive: None }
            },
            ResetEvent::OperationFailed(e) => if backup {
                let mut message = "the ZIP backup was created at ".to_owned();
                message.append(plan.archive.as_str());
                message.append(", but the old data remains at ");
                message.append(plan.quarantine.as_str());
                message.append(": ");
                message.append(e.as_str());
                ResetPhase::Failed { message }
            } else {
                let mut message =
                    "factory reset removed the active data directory, but could not delete ".to_owned();
                message.append(plan.quarantine.as_str());
                message.append(": ");
                message.append(e.as_str());
                ResetPhase::Failed { message }
            },
            _ => ResetPhase::DeleteQuarantine { backup },
        },
        ResetPhase::Done { archive } => ResetPhase::Done { archive },
        ResetPhase::Failed { message } => ResetPhase::Failed { message },
    }
}

/// A reset that asked for a backup deletes the moved data only right after
/// the backup was written: the data is never deleted on the way to a
/// backup that does not exist.
pub proof fn law_deleted_only_after_backup(
    plan: ResetPlan,
    phase: ResetPhase,
    event: ResetEvent,
    next: ResetPhase,
)
    requires
        !plan.no_backup,
        reset_step(plan, phase, event, next),
        next is DeleteQuarantine,
        !(phase is DeleteQuarantine),
    ensures
        phase is Archive,
        event is Archived,
        next == (ResetPhase::DeleteQuarantine { backup: true }),
{
}

/// A failed backup always leads to moving the data directory back.
pub proof fn law_failed_backup_restores(plan: ResetPlan, error: String, next: ResetPhase)
    requires
        reset_step(plan, ResetPhase::Archive, ResetEvent::OperationFailed(error), next),
    ensures
        next == (ResetPhase::Restore { error }),
{
}

/// A taken backup path stops the reset before anything is moved.
pub proof fn law_taken_backup_path_stops(plan: ResetPlan, next: ResetPhase)
    requires
        reset_step(plan, ResetPhase::CheckBackupPaths, ResetEvent::BackupPathTaken, next),
    ensures
        next is Failed,
{
}

/// A taken quarantine path stops the reset before anything is moved.
pub proof fn law_taken_quarantine_stops(plan: ResetPlan, next: ResetPhase)
    requires
        reset_step(plan, ResetPhase::CheckQuarantine, ResetEvent::QuarantineTaken, next),
    ensures
        next is Failed,
{
}

/// Nothing is moved aside before the quarantine path was found free: the
/// move is reached only from a check that found its paths free.
pub proof fn law_moved_only_after_checks(
    plan: ResetPlan,
    phase: ResetPhase,
    event: ResetEvent,
    next: ResetPhase,
)
    requires
        reset_step(plan, phase, event, next),
        next is MoveAside,
        !(phase is MoveAside),
    ensures
        (phase is CheckQuarantine && event is QuarantineFree && plan.no_backup) || (
        phase is CheckBackupPaths && event is BackupPathsFree),
{
}

/// What a directory entry met while writing the ZIP backup is.
#[derive(Clone, Copy, Debug, PartialEq, Eq, Structural)]
pub enum ArchiveEntryKind {
    Directory,
    File,
    SymbolicLink,
    Other,
}

/// What the backup does with one directory entry.
pub enum ArchiveStep {
    /// Add a directory entry of this name and archive the directory's
    /// contents under it.
    Descend(String),
    /// Add the file's contents under this name.
    AddFile(String),
}

/// The name of a directory's own entry in the ZIP backup: its archive name
/// and a `/`.
pub fn archive_directory_entry(archive_name: &str) -> (res: String)
    ensures
        res@ == archive_name@ + "/"@,
{
    let mut res = archive_name.to_owned();
    res.append("/");
    res
}

/// What the backup does with an entry of a directory archived as
/// `archive_name`: a symbolic link is refused, then a name that is not
/// UTF-8 (`name` is none), then anything but a directory or a regular
/// file; otherwise the entry is archived as `archive_name/name`.
pub open spec fn archive_step_of(
    archive_name: Seq<char>,
    name: Option<Seq<char>>,
    path: Seq<char>,
    kind: ArchiveEntryKind,
) -> Result<(bool, Seq<char>), Seq<char>> {
    if kind == ArchiveEntryKind::SymbolicLink {
        Err("factory reset backup cannot include the symbolic link "@ + path)
    } else {
        match name {
            None => Err("backup path is not valid UTF-8: "@ + path),
            Some(n) => if kind == ArchiveEntryKind::Directory {
                Ok((true, archive_name + "/"@ + n))
            } else if kind == ArchiveEntryKind::File {
                Ok((false, archive_name + "/"@ + n))
            } else {
                Err("factory reset backup cannot include the unsupported file "@ + path)
            },
        }
    }
}

/// The step for one entry of a directory archived as `archive_name`.
pub fn archive_step(archive_name: &str, name: Option<&str>, path: &str, kind: ArchiveEntryKind) -> (res: Result<
    ArchiveStep,
    String,
>)
    ensures
        match archive_step_of(
            archive_name@,
            match name {
                Some(n) => Some(n@),
                None => None,
            },
            path@,
            kind,
        ) {
            Ok((true, child)) => res matches Ok(ArchiveStep::Descend(c)) && c@ == child,
            Ok((false, child)) => res matches Ok(ArchiveStep::AddFile(c)) && c@ == child,
            Err(m) => res matches Err(e) && e@ == m,
        },
{
    if kind == ArchiveEntryKind::SymbolicLink {
        let mut message = "factory reset backup cannot include the symbolic link ".to_owned();
        message.append(path);
        return Err(message);
    }
    let name = match name {
        Some(n) => n,
        None => {
            let mut message = "backup path is not valid UTF-8: ".to_owned();
            message.append(path);
            return Err(message);
        },
    };
    let mut child = archive_name.to_owned();
    child.append("/");
    child.append(name);
    if kind == ArchiveEntryKind::Directory {
        Ok(ArchiveStep::Descend(child))
    } else if kind == ArchiveEntryKind::File {
        Ok(ArchiveStep::AddFile(child))
    } else {
        let mut message = "factory reset backup cannot include the unsupported file ".to_owned();
        message.append(path);
        Err(message)
    }
}

/// Every entry the backup archives lies under its directory's archive
/// name, and no symbolic link is ever archived.
pub proof fn law_archive_entries_stay_inside(
    archive_name: Seq<char>,
    name: Option<Seq<char>>,
    path: Seq<char>,
    kind: ArchiveEntryKind,
)
    ensures
        archive_step_of(archive_name, name, path, kind) matches Ok((_, child)) ==> child.len()
            > archive_name.len() && child.subrange(0, archive_name.len() + 1int) == archive_name + "/"@,
        kind == ArchiveEntryKind::SymbolicLink ==> archive_step_of(archive_name, name, path, kind) is Err,
{
    reveal_strlit("/");
    if let Ok((_, child)) = archive_step_of(archive_name, name, path, kind) {
        let n = name.unwrap();
        assert(child == archive_name + "/"@ + n);
        assert(child.subrange(0, archive_name.len() + 1int) =~= archive_name + "/"@);
    }
}

/// The lines shown before the confirmation of a reset of `target`.
pub open spec fn reset_notice(target: Seq<char>, no_backup: bool) -> Seq<char> {
    "Directory: "@ + target
        + "\nEvery database, backup, log, configuration, master-key, and CLI-state file inside this directory will be removed.\n"@
        + (if no_backup {
        "No backup will be created. The data directory will be permanently deleted.\n"@
    } else {
        "A ZIP backup will be saved next to the data directory before it is removed.\n"@
    }) + "The next server start will create a fresh installation.\n"@ + (if no_backup {
        "Keep an external backup of anything you need before continuing.\n"@
    } else {
        seq![]
    }) + "You must initialize Dopbase again after continuing.\n"@
}

/// What a factory reset explains before asking for the confirmation.
pub fn factory_reset_notice(target: &str, no_backup: bool) -> (res: String)
    ensures
        res@ == reset_notice(target@, no_backup),
{
    let mut res = "Directory: ".to_owned();
    res.append(target);
    res.append(
        "\nEvery database, backup, log, configuration, master-key, and CLI-state file inside this directory will be removed.\n",
    );
    if no_backup {
        res.append("No backup will be created. The data directory will be permanently deleted.\n");
    } else {
        res.append("A ZIP backup will be saved next to the data directory before it is removed.\n");
    }
    res.append("The next server start will create a fresh installation.\n");
    if no_backup {
        res.append("Keep an external backup of anything you need before continuing.\n");
    }
    res.append("You must initialize Dopbase again after continuing.\n");
    proof {
        if !no_backup {
            assert(res@ =~= reset_notice(target@, no_backup));
        }
    }
    res
}

/// The backup line of a finished reset.
pub fn backup_field(backup: Option<&str>) -> (res: String)
    ensures
        match backup {
            Some(b) => res@ == b@,
            None => res@ == "skipped (--no-backup)"@,
        },
{
    match backup {
        Some(b) => b.to_owned(),
        None => "skipped (--no-backup)".to_owned(),
    }
}


/// A factory reset is typed by a person: JSON output and a missing terminal
/// are refused.
pub fn check_factory_reset_start(json_output: bool, interactive: bool) -> (res: Result<(), String>)
    ensures
        json_output ==> (res matches Err(m) && m@
            == "--json cannot be used with `dopbase admin factory-reset`"@),
        !json_output && !interactive ==> (res matches Err(m) && m@
            == "factory reset requires an interactive terminal"@),
        !json_output && interactive ==> res is Ok,
{
    if json_output {
        return Err("--json cannot be used with `dopbase admin factory-reset`".to_owned());
    }
    if !interactive {
        return Err("factory reset requires an interactive terminal".to_owned());
    }
    Ok(())
}

/// The typed confirmation must match before the root password is asked.
pub fn check_factory_reset_confirmation(value: &str) -> (res: Result<(), String>)
    ensures
        without_line_endings(value@) == "please-wipe-out-system"@ ==> res is Ok,
        without_line_endings(value@) != "please-wipe-out-system"@ ==> (res matches Err(m) && m@
            == "factory reset cancelled: confirmation text did not match"@),
{
    if factory_reset_confirmation_matches(value) {
        Ok(())
    } else {
        Err("factory reset cancelled: confirmation text did not match".to_owned())
    }
}

/// The prompt for the confirmation text.
pub fn confirmation_prompt() -> (res: String)
    ensures
        res@ == "Type please-wipe-out-system to continue:"@,
{
    "Type please-wipe-out-system to continue:".to_owned()
}


/// A password reset is typed on the server's terminal.
pub fn check_password_reset_start(interactive: bool) -> (res: Result<(), String>)
    ensures
        interactive ==> res is Ok,
        !interactive ==> (res matches Err(m) && m@ == "password reset requires an interactive terminal"@),
{
    if !interactive {
        return Err("password reset requires an interactive terminal".to_owned());
    }
    Ok(())
}

/// The new password must be typed the same way twice.
pub fn check_new_password(password: &str, confirmation: &str) -> (res: Result<(), String>)
    ensures
        password@ == confirmation@ ==> res is Ok,
        password@ != confirmation@ ==> (res matches Err(m) && m@ == "passwords do not match"@),
{
    if !same_text(password, confirmation) {
        return Err("passwords do not match".to_owned());
    }
    Ok(())
}

/// Where an offline factory reset stands. The gates come first, in this
/// order; the reset itself (`reset_start` and `reset_next`) runs only in
/// `Reset`.
pub enum OfflineResetPhase {
    /// Check the host and the data directory (`check_reset_host`,
    /// `validate_factory_reset_target`).
    CheckTarget,
    /// Take the instance lock (every server stopped) and find the root
    /// account.
    LockInstance,
    /// Show the notice and read the typed confirmation.
    Confirm,
    /// Ask for the root password and verify it.
    VerifyPassword,
    /// Run the reset.
    Reset,
    /// Finished.
    Done,
    /// Refused or failed with this message.
    Failed { message: String },
}

/// What the last gate or operation of an offline reset reported.
pub enum OfflineResetEvent {
    /// The host and the data directory are acceptable.
    TargetAccepted,
    /// The instance lock is held and the root account exists.
    Locked,
    /// The user typed this confirmation text.
    Typed(String),
    /// The root password verified.
    PasswordVerified,
    /// The root password did not verify.
    PasswordRejected,
    /// The reset finished.
    ResetFinished,
    /// The check or the step failed with this message.
    OperationFailed(String),
}

/// The message for a confirmation text that does not match.
pub open spec fn confirmation_mismatch_message() -> Seq<char> {
    "factory reset cancelled: confirmation text did not match"@
}

/// Whether a typed confirmation matches.
pub open spec fn confirmation_matches(text: Seq<char>) -> bool {
    without_line_endings(text) == "please-wipe-out-system"@
}

/// The first phase of an offline reset: JSON output and a missing terminal
/// are refused before anything else.
pub fn offline_reset_start(json_output: bool, interactive: bool) -> (res: OfflineResetPhase)
    ensures
        json_output ==> (res matches OfflineResetPhase::Failed { message } && message@
            == "--json cannot be used with `dopbase admin factory-reset`"@),
        !json_output && !interactive ==> (res matches OfflineResetPhase::Failed { message } && message@
            == "factory reset requires an interactive terminal"@),
        !json_output && interactive ==> res is CheckTarget,
{
    match check_factory_reset_start(json_output, interactive) {
        Ok(()) => OfflineResetPhase::CheckTarget,
        Err(message) => OfflineResetPhase::Failed { message },
    }
}

/// Whether `next` follows `event` in `phase` of an offline reset. Finished
/// phases stay as they are, as does a phase given an event it does not
/// wait for.
pub open spec fn offline_reset_step(
    phase: OfflineResetPhase,
    event: OfflineResetEvent,
    next: OfflineResetPhase,
) -> bool {
    match phase {
        OfflineResetPhase::CheckTarget => match event {
            OfflineResetEvent::TargetAccepted => next is LockInstance,
            OfflineResetEvent::OperationFailed(e) => next == (OfflineResetPhase::Failed { message: e }),
            _ => next == phase,
        },
        OfflineResetPhase::LockInstance => match event {
            OfflineResetEvent::Locked => next is Confirm,
            OfflineResetEvent::OperationFailed(e) => next == (OfflineResetPhase::Failed { message: e }),
            _ => next == phase,
        },
        OfflineResetPhase::Confirm => match event {
            OfflineResetEvent::Typed(text) => if confirmation_matches(text@) {
                next is VerifyPassword
            } else {
                next matches OfflineResetPhase::Failed { message } && message@
                    == confirmation_mismatch_message()
            },
            OfflineResetEvent::OperationFailed(e) => next == (OfflineResetPhase::Failed { message: e }),
            _ => next == phase,
        },
        OfflineResetPhase::VerifyPassword => match event {
            OfflineResetEvent::PasswordVerified => next is Reset,
            OfflineResetEvent::PasswordRejected => next matches OfflineResetPhase::Failed { message }
                && message@ == "the root password is incorrect"@,
            OfflineResetEvent::OperationFailed(e) => next == (OfflineResetPhase::Failed { message: e }),
            _ => next == phase,
        },
        OfflineResetPhase::Reset => match event {
            OfflineResetEvent::ResetFinished => next is Done,
            OfflineResetEvent::OperationFailed(e) => next == (OfflineResetPhase::Failed { message: e }),
            _ => next == phase,
        },
        OfflineResetPhase::Done => next == phase,
        OfflineResetPhase::Failed { .. } => next == phase,
    }
}

/// The phase that follows `event` in `phase` of an offline reset.
pub fn offline_reset_next(phase: OfflineResetPhase, event: OfflineResetEvent) -> (res: OfflineResetPhase)
    ensures
        offline_reset_step(phase, event, res),
{
    match phase {
        OfflineResetPhase::CheckTarget => match event {
            OfflineResetEvent::TargetAccepted => OfflineResetPhase::LockInstance,
            OfflineResetEvent::OperationFailed(e) => OfflineResetPhase::Failed { message: e },
            _ => OfflineResetPhase::CheckTarget,
        },
        OfflineResetPhase::LockInstance => match event {
            OfflineResetEvent::Locked => OfflineResetPhase::Confirm,
            OfflineResetEvent::OperationFailed(e) => OfflineResetPhase::Failed { message: e },
            _ => OfflineResetPhase::LockInstance,
        },
        OfflineResetPhase::Confirm => match event {
            OfflineResetEvent::Typed(text) => match check_factory_reset_confirmation(text.as_str()) {
                Ok(()) => OfflineResetPhase::VerifyPassword,
                Err(message) => OfflineResetPhase::Failed { message },
            },
            OfflineResetEvent::OperationFailed(e) => OfflineResetPhase::Failed { message: e },
            _ => OfflineResetPhase::Confirm,
        },
        OfflineResetPhase::VerifyPassword => match event {
            OfflineResetEvent::PasswordVerified => OfflineResetPhase::Reset,
            OfflineResetEvent::PasswordRejected => OfflineResetPhase::Failed {
                message: "the root password is incorrect".to_owned(),
            },
            OfflineResetEvent::OperationFailed(e) => OfflineResetPhase::Failed { message: e },
            _ => OfflineResetPhase::VerifyPassword,
        },
        OfflineResetPhase::Reset => match event {
            OfflineResetEvent::ResetFinished => OfflineResetPhase::Done,
            OfflineResetEvent::OperationFailed(e) => OfflineResetPhase::Failed { message: e },
            _ => OfflineResetPhase::Reset,
        },
        OfflineResetPhase::Done => OfflineResetPhase::Done,
        OfflineResetPhase::Failed { message } => OfflineResetPhase::Failed { message },
    }
}

/// The event is a typed confirmation that matches.
pub open spec fn matching_confirmation(event: OfflineResetEvent) -> bool {
    match event {
        OfflineResetEvent::Typed(t) => confirmation_matches(t@),
        _ => false,
    }
}

/// How far an offline reset has come: the gates in order, then the reset;
/// -1 once refused or failed.
pub open spec fn offline_stage(phase: OfflineResetPhase) -> int {
    match phase {
        OfflineResetPhase::CheckTarget => 0,
        OfflineResetPhase::LockInstance => 1,
        OfflineResetPhase::Confirm => 2,
        OfflineResetPhase::VerifyPassword => 3,
        OfflineResetPhase::Reset => 4,
        OfflineResetPhase::Done => 5,
        OfflineResetPhase::Failed { .. } => -1,
    }
}

/// `phases` is a run of an offline reset driven by `events`.
pub open spec fn offline_run(phases: Seq<OfflineResetPhase>, events: Seq<OfflineResetEvent>) -> bool {
    &&& phases.len() == events.len() + 1
    &&& forall|i: int| 0 <= i < events.len() ==> offline_reset_step(#[trigger] phases[i], events[i], phases[i + 1])
}

proof fn lemma_offline_run_gates(phases: Seq<OfflineResetPhase>, events: Seq<OfflineResetEvent>, k: int)
    requires
        offline_run(phases, events),
        phases[0] is CheckTarget,
        0 <= k < phases.len(),
    ensures
        offline_stage(phases[k]) >= 3 ==> exists|i: int|
            0 <= i < k && matching_confirmation(#[trigger] events[i]),
        offline_stage(phases[k]) >= 4 ==> exists|j: int|
            0 <= j < k && #[trigger] events[j] is PasswordVerified,
    decreases k,
{
    if k > 0 {
        lemma_offline_run_gates(phases, events, k - 1);
        let p = phases[k - 1];
        assert(offline_reset_step(p, events[k - 1], phases[k]));
        if offline_stage(phases[k]) >= 3 && offline_stage(p) < 3 {
            assert(matching_confirmation(events[k - 1]));
        }
        if offline_stage(phases[k]) >= 4 && offline_stage(p) < 4 {
            assert(events[k - 1] is PasswordVerified);
        }
        if offline_stage(phases[k]) >= 3 && offline_stage(p) >= 3 {
            let i = choose|i: int|
                0 <= i < k - 1 && matching_confirmation(#[trigger] events[i]);
            assert(0 <= i < k);
        }
        if offline_stage(phases[k]) >= 4 && offline_stage(p) >= 4 {
            let j = choose|j: int| 0 <= j < k - 1 && #[trigger] events[j] is PasswordVerified;
            assert(0 <= j < k);
        }
    }
}

/// An offline reset reaches the reset only through every gate: it started
/// without `--json` on a terminal, the confirmation typed matched, and the
/// root password verified. On any refusal the reset is never reached.
pub proof fn law_reset_only_after_every_gate(
    json_output: bool,
    interactive: bool,
    phases: Seq<OfflineResetPhase>,
    events: Seq<OfflineResetEvent>,
)
    requires
        offline_run(phases, events),
        offline_reset_start_phase(phases[0], json_output, interactive),
        exists|k: int| 0 <= k < phases.len() && (#[trigger] phases[k]) is Reset,
    ensures
        !json_output,
        interactive,
        exists|i: int|
            0 <= i < events.len() && matching_confirmation(#[trigger] events[i]),
        exists|j: int| 0 <= j < events.len() && #[trigger] events[j] is PasswordVerified,
{
    let k = choose|k: int| 0 <= k < phases.len() && (#[trigger] phases[k]) is Reset;
    if phases[0] !is CheckTarget {
        assert forall|m: int| 0 <= m < phases.len() implies (#[trigger] phases[m]) is Failed by {
            lemma_failed_stays(phases, events, m);
        }
        assert(phases[k] is Failed);
    }
    lemma_offline_run_gates(phases, events, k);
    let i = choose|i: int|
        0 <= i < k && matching_confirmation(#[trigger] events[i]);
    assert(0 <= i < events.len());
    let j = choose|j: int| 0 <= j < k && #[trigger] events[j] is PasswordVerified;
    assert(0 <= j < events.len());
}

proof fn lemma_failed_stays(phases: Seq<OfflineResetPhase>, events: Seq<OfflineResetEvent>, m: int)
    requires
        offline_run(phases, events),
        phases[0] is Failed,
        0 <= m < phases.len(),
    ensures
        phases[m] is Failed,
    decreases m,
{
    if m > 0 {
        lemma_failed_stays(phases, events, m - 1);
        assert(offline_reset_step(phases[m - 1], events[m - 1], phases[m]));
    }
}

/// The phase `offline_reset_start` gives for these inputs.
pub open spec fn offline_reset_start_phase(phase: OfflineResetPhase, json_output: bool, interactive: bool) -> bool {
    if !json_output && interactive {
        phase is CheckTarget
    } else {
        phase is Failed
    }
}

} // verus!
