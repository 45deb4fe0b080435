//! `dopbase import`, `export`, `backup` and `restore`: the option checks,
//! the import mode and its replacement warning, and what is reported.

use crate::text::{decimal, join_strings, joined, texts, u64_to_string};
use vstd::prelude::*;
use vstd::string::*;

verus! {

/// `replace` or `merge`.
pub fn import_mode(replace: bool) -> (res: &'static str)
    ensures
        replace ==> res@ == "replace"@,
        !replace ==> res@ == "merge"@,
{
    if replace {
        "replace"
    } else {
        "merge"
    }
}

/// A real replacement is previewed first, to learn which keys it deletes
/// and the revision it applies to.
pub fn needs_preview(replace: bool, dry_run: bool) -> (res: bool)
    ensures
        res == (replace && !dry_run),
{
    replace && !dry_run
}

/// The warning shown when a replacement deletes keys, if it deletes any.
pub fn replace_warning(deleted: &Vec<String>) -> (res: Option<String>)
    ensures
        deleted@.len() == 0 ==> res is None,
        deleted@.len() > 0 ==> (res matches Some(w) && w@ == "Replace will delete: "@ + joined(
            texts(deleted@),
            ", "@,
        )),
{
    if deleted.len() == 0 {
        return None;
    }
    let mut res = "Replace will delete: ".to_owned();
    let keys = join_strings(deleted, ", ");
    res.append(keys.as_str());
    Some(res)
}

/// The first line of an import report.
pub fn import_headline(dry_run: bool, reference: &str) -> (res: String)
    ensures
        dry_run ==> res@ == "Dry run complete. No changes were applied."@,
        !dry_run ==> res@ == "Imported secrets into "@ + reference@ + "."@,
{
    if dry_run {
        "Dry run complete. No changes were applied.".to_owned()
    } else {
        let mut res = "Imported secrets into ".to_owned();
        res.append(reference);
        res.append(".");
        res
    }
}

/// The message for an export with neither destination.
pub open spec fn export_destination_message() -> Seq<char> {
    "export requires --output <FILE> or --stdout"@
}

/// The message for plaintext on standard output mixed with JSON output.
pub open spec fn export_stdout_json_message() -> Seq<char> {
    "--stdout and --json cannot be combined"@
}

/// An export needs a file or standard output, and standard output carries
/// the secrets, not a JSON report.
pub fn check_export(has_output: bool, stdout: bool, json_output: bool) -> (res: Result<(), String>)
    ensures
        !has_output && !stdout ==> (res matches Err(m) && m@ == export_destination_message()),
        (has_output || stdout) && stdout && json_output ==> (res matches Err(m) && m@
            == export_stdout_json_message()),
        (has_output || stdout) && !(stdout && json_output) ==> res is Ok,
{
    if !has_output && !stdout {
        return Err("export requires --output <FILE> or --stdout".to_owned());
    }
    if stdout && json_output {
        return Err("--stdout and --json cannot be combined".to_owned());
    }
    Ok(())
}

/// `Exported N secret(s) to PATH.`
pub fn export_message(count: usize, path: &str) -> (res: String)
    ensures
        res@ == "Exported "@ + decimal(count as nat) + " secret(s) to "@ + path@ + "."@,
{
    let mut res = "Exported ".to_owned();
    let n = u64_to_string(count as u64);
    res.append(n.as_str());
    res.append(" secret(s) to ");
    res.append(path);
    res.append(".");
    res
}

/// The number of progress steps of a backup: one more when it is also
/// downloaded.
pub fn backup_steps(download: bool) -> (res: usize)
    ensures
        res == if download {
            2usize
        } else {
            1usize
        },
{
    if download {
        2
    } else {
        1
    }
}

/// Where the server keeps a backup, as shown after it is created.
pub fn backup_location(server_url: &str, key: &str) -> (res: String)
    ensures
        res@ == server_url@ + " (~/.dopbase/backups/"@ + key@ + ")"@,
{
    let mut res = server_url.to_owned();
    res.append(" (~/.dopbase/backups/");
    res.append(key);
    res.append(")");
    res
}

/// The name a backup file is uploaded under: its file name, or
/// `backup.dop` when it has none.
pub open spec fn upload_name(file_name: Option<Seq<char>>) -> Seq<char> {
    match file_name {
        Some(n) => n,
        None => "backup.dop"@,
    }
}

/// The text ends with `.dop`.
pub open spec fn has_dop_extension(name: Seq<char>) -> bool {
    name.len() >= 4 && name.subrange(name.len() - 4, name.len() as int) == ".dop"@
}

/// A backup to restore must exist and be named `*.dop`; the upload name is
/// returned.
pub fn check_backup_file(path: &str, exists: bool, file_name: Option<&str>) -> (res: Result<String, String>)
    ensures
        !exists ==> (res matches Err(m) && m@ == "Backup file not found: "@ + path@),
        exists && !has_dop_extension(upload_name(
            match file_name {
                Some(n) => Some(n@),
                None => None,
            },
        )) ==> (res matches Err(m) && m@ == "Invalid backup file: must have a .dop extension"@),
        exists && has_dop_extension(upload_name(
            match file_name {
                Some(n) => Some(n@),
                None => None,
            },
        )) ==> (res matches Ok(n) && n@ == upload_name(
            match file_name {
                Some(n) => Some(n@),
                None => None,
            },
        )),
{
    proof {
        reveal_strlit(".dop");
        reveal_strlit("backup.dop");
    }
    if !exists {
        let mut m = "Backup file not found: ".to_owned();
        m.append(path);
        return Err(m);
    }
    let name = match file_name {
        Some(n) => n.to_owned(),
        None => "backup.dop".to_owned(),
    };
    let n = name.as_str().unicode_len();
    let ok = if n >= 4 {
        crate::text::same_text(name.as_str().substring_char(n - 4, n), ".dop")
    } else {
        false
    };
    if !ok {
        return Err("Invalid backup file: must have a .dop extension".to_owned());
    }
    Ok(name)
}

/// The message for restoring onto an uninitialized server without its
/// setup token.
pub open spec fn setup_token_required_message() -> Seq<char> {
    "--setup-token is required when restoring an uninitialized server"@
}

/// An uninitialized server (state `setupRequired`) is restored through its
/// bootstrap endpoint, which needs the setup token; any other state is
/// restored by an authenticated administrator.
pub fn bootstrap_restore(state: &str, setup_token: Option<&str>) -> (res: Result<Option<String>, String>)
    ensures
        state@ != "setupRequired"@ ==> res == Ok::<Option<String>, String>(None),
        state@ == "setupRequired"@ ==> match setup_token {
            Some(t) => res matches Ok(Some(u)) && u@ == t@,
            None => res matches Err(m) && m@ == setup_token_required_message(),
        },
{
    if !crate::text::same_text(state, "setupRequired") {
        return Ok(None);
    }
    match setup_token {
        Some(t) => Ok(Some(t.to_owned())),
        None => Err("--setup-token is required when restoring an uninitialized server".to_owned()),
    }
}

/// The confirmation asked before a restore.
pub fn restore_prompt(path: &str) -> (res: String)
    ensures
        res@ == "Proceed with restoring from \""@ + path@ + "\"?"@,
{
    let mut res = "Proceed with restoring from \"".to_owned();
    res.append(path);
    res.append("\"?");
    res
}


/// The counts reported after an import: mode, added, updated, unchanged
/// and deleted keys.
pub fn import_fields_text(mode: &str, added: usize, updated: usize, unchanged: usize, deleted: usize) -> (res:
    String)
    ensures
        exists|fields: Seq<(&str, String)>|
            crate::commands::client::field_views(fields) == seq![
                ("Mode:"@, mode@),
                ("Added:"@, decimal(added as nat)),
                ("Updated:"@, decimal(updated as nat)),
                ("Unchanged:"@, decimal(unchanged as nat)),
                ("Deleted:"@, decimal(deleted as nat)),
            ] && res@ == crate::commands::output::fields_text(fields),
{
    let fields: Vec<(&str, String)> = vec![
        ("Mode:", mode.to_owned()),
        ("Added:", u64_to_string(added as u64)),
        ("Updated:", u64_to_string(updated as u64)),
        ("Unchanged:", u64_to_string(unchanged as u64)),
        ("Deleted:", u64_to_string(deleted as u64)),
    ];
    assert(crate::commands::client::field_views(fields@) =~= seq![
        ("Mode:"@, mode@),
        ("Added:"@, decimal(added as nat)),
        ("Updated:"@, decimal(updated as nat)),
        ("Unchanged:"@, decimal(unchanged as nat)),
        ("Deleted:"@, decimal(deleted as nat)),
    ]);
    crate::commands::output::render_fields(fields.as_slice())
}

} // verus!
