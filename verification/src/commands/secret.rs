//! `dopbase secret`: where a new value is read from, and what the secret
//! commands show.

use crate::commands::output::{
    headers_view, lengths_below, listing_text, rows_view, rows_within_headers, table_listing,
};
use crate::text::{decimal, u64_to_string};
use vstd::prelude::*;
use vstd::string::*;

verus! {

/// Where `dopbase secret set` reads the value from.
#[derive(Clone, Copy, Debug, PartialEq, Eq, Structural)]
pub enum ValueSource {
    /// Standard input, until end of file.
    Stdin,
    /// A masked prompt.
    Prompt,
}

/// The message when a value is to be typed without a terminal.
pub open spec fn stdin_required_message() -> Seq<char> {
    "use --stdin when setting a secret non-interactively"@
}

/// `--stdin` reads standard input; otherwise the value is typed at a
/// masked prompt, which needs a terminal.
pub fn value_source(stdin: bool, interactive: bool) -> (res: Result<ValueSource, String>)
    ensures
        stdin ==> res == Ok::<ValueSource, String>(ValueSource::Stdin),
        !stdin && interactive ==> res == Ok::<ValueSource, String>(ValueSource::Prompt),
        !stdin && !interactive ==> (res matches Err(m) && m@ == stdin_required_message()),
{
    if stdin {
        Ok(ValueSource::Stdin)
    } else if interactive {
        Ok(ValueSource::Prompt)
    } else {
        Err("use --stdin when setting a secret non-interactively".to_owned())
    }
}

/// The headers of a secret listing.
pub open spec fn secret_headers() -> Seq<Seq<char>> {
    seq!["KEY"@, "VERSION"@, "UPDATED"@]
}

/// The rows hold three cells each, every one shorter than the table can pad.
pub open spec fn secret_rows_fit(rows: Seq<Seq<Seq<char>>>) -> bool {
    forall|j: int|
        0 <= j < rows.len() ==> (#[trigger] rows[j]).len() == 3 && forall|k: int|
            0 <= k < 3 ==> (#[trigger] rows[j][k]).len() < usize::MAX - 3
}

/// The listing of an environment's secrets (key, version, update time per
/// row), with `N secret(s)` under it.
pub fn secret_listing(rows: &Vec<Vec<String>>, environment: &str) -> (res: String)
    requires
        secret_rows_fit(rows_view(rows@)),
    ensures
        res@ == listing_text(
            secret_headers(),
            rows_view(rows@),
            "No secrets found in "@ + environment@ + "."@,
            decimal(rows@.len() as nat) + " secret(s)"@,
        ),
{
    let headers: Vec<&str> = vec!["KEY", "VERSION", "UPDATED"];
    let mut empty = "No secrets found in ".to_owned();
    empty.append(environment);
    empty.append(".");
    let mut summary = u64_to_string(rows.len() as u64);
    summary.append(" secret(s)");
    proof {
        reveal_strlit("KEY");
        reveal_strlit("VERSION");
        reveal_strlit("UPDATED");
        let hv = headers_view(headers@);
        let rv = rows_view(rows@);
        assert(hv =~= secret_headers());
        assert forall|j: int, k: int| 0 <= j < rv.len() && 0 <= k < rv[j].len() implies #[trigger] rv[j][k].len()
            < (usize::MAX - 3) as nat by {
            assert(rv[j].len() == 3);
        }
        assert(lengths_below(hv, rv, (usize::MAX - 3) as nat));
        assert forall|j: int, k: int|
            0 <= j < rv.len() && hv.len() <= k < rv[j].len() - 1 implies #[trigger] rv[j][k].len() == 0 by {
            assert(rv[j].len() == 3);
        }
        assert(rows_within_headers(hv, rv));
    }
    table_listing(headers.as_slice(), rows.as_slice(), empty.as_str(), summary.as_str())
}

/// `Saved KEY in ENVIRONMENT.` or `Deleted KEY from ENVIRONMENT.`
pub fn secret_changed_message(deleted: bool, key: &str, environment: &str) -> (res: String)
    ensures
        res@ == (if deleted {
            "Deleted "@
        } else {
            "Saved "@
        }) + key@ + (if deleted {
            " from "@
        } else {
            " in "@
        }) + environment@ + "."@,
{
    let mut res = if deleted {
        "Deleted ".to_owned()
    } else {
        "Saved ".to_owned()
    };
    res.append(key);
    if deleted {
        res.append(" from ");
    } else {
        res.append(" in ");
    }
    res.append(environment);
    res.append(".");
    res
}

/// The confirmation asked before deleting a secret.
pub fn delete_secret_prompt(key: &str, environment: &str) -> (res: String)
    ensures
        res@ == "Delete secret "@ + key@ + " from "@ + environment@ + "?"@,
{
    let mut res = "Delete secret ".to_owned();
    res.append(key);
    res.append(" from ");
    res.append(environment);
    res.append("?");
    res
}


/// The metadata shown for one secret (its value is never shown here).
pub fn secret_fields_text(key: &str, version: i64, created: &str, updated: &str) -> (res: String)
    ensures
        exists|fields: Seq<(&str, String)>|
            crate::commands::client::field_views(fields) == seq![
                ("Key:"@, key@),
                ("Version:"@, crate::text::signed_decimal(version as int)),
                ("Created:"@, created@),
                ("Updated:"@, updated@),
            ] && res@ == crate::commands::output::fields_text(fields),
{
    let fields: Vec<(&str, String)> = vec![
        ("Key:", key.to_owned()),
        ("Version:", crate::text::i64_to_string(version)),
        ("Created:", created.to_owned()),
        ("Updated:", updated.to_owned()),
    ];
    assert(crate::commands::client::field_views(fields@) =~= seq![
        ("Key:"@, key@),
        ("Version:"@, crate::text::signed_decimal(version as int)),
        ("Created:"@, created@),
        ("Updated:"@, updated@),
    ]);
    crate::commands::output::render_fields(fields.as_slice())
}

} // verus!
