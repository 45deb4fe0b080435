use crate::commands::cache::args::CacheAge;
use crate::commands::cache::store::{entry_row, metadata_views, CacheMetadata, MetadataView};
use crate::commands::output::{
    headers_view, lengths_below, listing_text, rows_view, rows_within_headers, table_listing,
};
use crate::models::{whole_seconds_between, Timestamp};
use crate::text::{counted, counted_text, texts};
use vstd::prelude::*;
use vstd::string::*;

verus! {

/// `1 cached environment`, `3 cached environments`.
pub fn cached_environment_count(count: usize) -> (res: String)
    ensures
        res@ == counted(count as nat, " cached environment"@, " cached environments"@),
{
    counted_text(count, " cached environment", " cached environments")
}

/// `1 entry remains.`, `3 entries remain.`.
pub fn remaining_count_label(count: usize) -> (res: String)
    ensures
        res@ == counted(count as nat, " entry remains."@, " entries remain."@),
{
    counted_text(count, " entry remains.", " entries remain.")
}

/// `1 encrypted runtime cache entry`, `3 encrypted runtime cache entries`.
pub fn entry_count(count: usize) -> (res: String)
    ensures
        res@ == counted(
            count as nat,
            " encrypted runtime cache entry"@,
            " encrypted runtime cache entries"@,
        ),
{
    counted_text(count, " encrypted runtime cache entry", " encrypted runtime cache entries")
}

/// The column headers of a cache listing.
pub open spec fn cache_headers() -> Seq<Seq<char>> {
    seq![
        "SERVER"@,
        "PROJECT"@,
        "ENVIRONMENT"@,
        "ID"@,
        "FETCHED"@,
        "AGE"@,
        "ALIASES"@,
    ]
}

/// The rows of a cache listing.
pub open spec fn cache_rows(server_url: Seq<char>, entries: Seq<MetadataView>) -> Seq<
    Seq<Seq<char>>,
> {
    entries.map_values(|m: MetadataView| entry_row(server_url, m))
}

/// Every cell of the listing is shorter than the table can pad.
pub open spec fn cache_rows_fit(server_url: Seq<char>, entries: Seq<MetadataView>) -> bool {
    forall|j: int, k: int|
        0 <= j < entries.len() && 0 <= k < 7 ==> (#[trigger] entry_row(server_url, entries[j])[k]).len()
            < usize::MAX - 3
}

/// The text of a cache listing with the given empty message and summary.
pub open spec fn cache_listing_text(
    server_url: Seq<char>,
    entries: Seq<MetadataView>,
    empty_message: Seq<char>,
    summary: Seq<char>,
) -> Seq<char> {
    listing_text(cache_headers(), cache_rows(server_url, entries), empty_message, summary)
}

/// The table of cached environments, or `empty_message` when there is none.
pub fn print_entries(
    server_url: &str,
    entries: &Vec<CacheMetadata>,
    empty_message: &str,
    summary: &str,
) -> (res: String)
    requires
        cache_rows_fit(server_url@, metadata_views(entries@)),
    ensures
        res@ == cache_listing_text(server_url@, metadata_views(entries@), empty_message@, summary@),
{
    let ghost views = metadata_views(entries@);
    let mut rows: Vec<Vec<String>> = Vec::new();
    let mut i: usize = 0;
    while i < entries.len()
        invariant
            i <= entries@.len(),
            views == metadata_views(entries@),
            rows@.len() == i,
            forall|j: int| 0 <= j < i ==> texts(#[trigger] rows@[j]@) == entry_row(server_url@, views[j]),
        decreases entries@.len() - i,
    {
        let row = entries[i].table_row(server_url);
        rows.push(row);
        i = i + 1;
    }
    let headers: Vec<&str> = vec!["SERVER", "PROJECT", "ENVIRONMENT", "ID", "FETCHED", "AGE", "ALIASES"];
    proof {
        reveal_strlit("SERVER");
        reveal_strlit("PROJECT");
        reveal_strlit("ENVIRONMENT");
        reveal_strlit("ID");
        reveal_strlit("FETCHED");
        reveal_strlit("AGE");
        reveal_strlit("ALIASES");
        let hv = headers_view(headers@);
        let rv = rows_view(rows@);
        assert(hv =~= cache_headers());
        assert forall|j: int| 0 <= j < rv.len() implies #[trigger] rv[j] == entry_row(server_url@, views[j]) by {
            assert(rv[j] == texts(rows@[j]@));
        }
        assert(rv =~= cache_rows(server_url@, views));
        assert forall|j: int, k: int| 0 <= j < rv.len() && 0 <= k < rv[j].len() implies #[trigger] rv[j][k].len()
            < (usize::MAX - 3) as nat by {
            assert(rv[j] == entry_row(server_url@, views[j]));
        }
        assert(lengths_below(hv, rv, (usize::MAX - 3) as nat));
        assert forall|j: int, k: int|
            0 <= j < rv.len() && hv.len() <= k < rv[j].len() - 1 implies #[trigger] rv[j][k].len() == 0 by {
            assert(rv[j] == entry_row(server_url@, views[j]));
        }
        assert(rows_within_headers(hv, rv));
    }
    table_listing(headers.as_slice(), rows.as_slice(), empty_message, summary)
}

/// What `dopbase cache list` prints for the entries of `server_url`.
pub fn list_text(server_url: &str, entries: &Vec<CacheMetadata>) -> (res: String)
    requires
        cache_rows_fit(server_url@, metadata_views(entries@)),
    ensures
        res@ == cache_listing_text(
            server_url@,
            metadata_views(entries@),
            "No encrypted runtime cache entries found for "@ + server_url@ + "."@,
            counted(entries@.len(), " cached environment"@, " cached environments"@),
        ),
{
    let mut empty_message = "No encrypted runtime cache entries found for ".to_owned();
    empty_message.append(server_url);
    empty_message.append(".");
    let summary = cached_environment_count(entries.len());
    print_entries(server_url, entries, empty_message.as_str(), summary.as_str())
}

/// `dopbase cache clean` picks an entry when `all` is set, or when more than
/// `max_age` whole seconds have passed since its fetch at time `now`.
pub open spec fn clean_picks(m: MetadataView, all: bool, now: Timestamp, max_age: int) -> bool {
    all || whole_seconds_between(now, m.fetched_at_value) > max_age
}

/// The entries `dopbase cache clean` picks, in their listing order.
pub open spec fn clean_selection(
    entries: Seq<MetadataView>,
    all: bool,
    now: Timestamp,
    max_age: int,
) -> Seq<MetadataView>
    decreases entries.len(),
{
    if entries.len() == 0 {
        seq![]
    } else {
        let rest = clean_selection(entries.drop_last(), all, now, max_age);
        if clean_picks(entries.last(), all, now, max_age) {
            rest.push(entries.last())
        } else {
            rest
        }
    }
}

/// The entries to remove: all of them with `all`, otherwise those older than
/// `max_age`, in their listing order.
pub fn select_for_clean(
    entries: Vec<CacheMetadata>,
    all: bool,
    now: &Timestamp,
    max_age: &CacheAge,
) -> (res: Vec<CacheMetadata>)
    requires
        now.valid(),
        forall|i: int| 0 <= i < entries@.len() ==> (#[trigger] entries@[i])@.fetched_at_value.valid(),
    ensures
        metadata_views(res@) == clean_selection(
            metadata_views(entries@),
            all,
            *now,
            max_age@.seconds as int,
        ),
{
    let ghost all_views = metadata_views(entries@);
    let max_age_seconds = max_age.seconds();
    let mut source = entries;
    let mut res: Vec<CacheMetadata> = Vec::new();
    let ghost mut k: int = 0;
    while source.len() > 0
        invariant
            0 <= k <= all_views.len(),
            k + source@.len() == all_views.len(),
            metadata_views(source@) == all_views.subrange(k, all_views.len() as int),
            forall|i: int| 0 <= i < source@.len() ==> (#[trigger] source@[i])@.fetched_at_value.valid(),
            now.valid(),
            max_age_seconds == max_age@.seconds,
            metadata_views(res@) == clean_selection(all_views.take(k), all, *now, max_age_seconds as int),
        decreases source@.len(),
    {
        let ghost before = source@;
        let entry = source.remove(0);
        proof {
            assert(entry@ == metadata_views(before)[0]);
            assert(metadata_views(source@) =~= metadata_views(before).subrange(1, before.len() as int));
            assert forall|i: int| 0 <= i < source@.len() implies (#[trigger] source@[i])@.fetched_at_value.valid() by {
                assert(source@[i] == before[i + 1]);
            }
            assert(all_views.take(k + 1).drop_last() =~= all_views.take(k));
            assert(all_views.take(k + 1).last() == entry@);
        }
        let picked = all || entry.is_older_than(now, max_age_seconds);
        if picked {
            res.push(entry);
            assert(metadata_views(res@) =~= clean_selection(all_views.take(k), all, *now, max_age_seconds as int).push(entry@));
        }
        proof {
            k = k + 1;
        }
    }
    assert(all_views.take(k) =~= all_views);
    res
}

/// `dopbase cache clean --all` picks every entry, in listing order.
pub proof fn law_clean_all_picks_everything(entries: Seq<MetadataView>, now: Timestamp, max_age: int)
    ensures
        clean_selection(entries, true, now, max_age) == entries,
    decreases entries.len(),
{
    if entries.len() > 0 {
        law_clean_all_picks_everything(entries.drop_last(), now, max_age);
        assert(entries.drop_last().push(entries.last()) =~= entries);
    }
}

/// Without `--all`, every listed entry whose whole seconds since its fetch
/// exceed the age limit is picked, whatever the limit (an entry fetched
/// three days ago goes with `--older-than 1d`).
pub proof fn law_clean_picks_old_entries(
    entries: Seq<MetadataView>,
    now: Timestamp,
    max_age: int,
    m: MetadataView,
)
    requires
        entries.contains(m),
        whole_seconds_between(now, m.fetched_at_value) > max_age,
    ensures
        clean_selection(entries, false, now, max_age).contains(m),
    decreases entries.len(),
{
    let last = entries.last();
    let rest = clean_selection(entries.drop_last(), false, now, max_age);
    if last == m {
        assert(clean_selection(entries, false, now, max_age) == rest.push(m));
        assert(rest.push(m)[rest.len() as int] == m);
    } else {
        let k = choose|k: int| 0 <= k < entries.len() && entries[k] == m;
        assert(k < entries.len() - 1);
        assert(entries.drop_last()[k] == m);
        law_clean_picks_old_entries(entries.drop_last(), now, max_age, m);
        let j = choose|j: int| 0 <= j < rest.len() && rest[j] == m;
        let sel = clean_selection(entries, false, now, max_age);
        if clean_picks(last, false, now, max_age) {
            assert(sel == rest.push(last));
            assert(sel[j] == m);
        } else {
            assert(sel == rest);
        }
    }
}

/// Without `--all`, an entry no older than the age limit is never picked,
/// and every picked entry is one of the listed entries.
pub proof fn law_clean_keeps_recent_entries(
    entries: Seq<MetadataView>,
    now: Timestamp,
    max_age: int,
    m: MetadataView,
)
    requires
        clean_selection(entries, false, now, max_age).contains(m),
    ensures
        whole_seconds_between(now, m.fetched_at_value) > max_age,
        entries.contains(m),
    decreases entries.len(),
{
    let rest = clean_selection(entries.drop_last(), false, now, max_age);
    if rest.contains(m) {
        law_clean_keeps_recent_entries(entries.drop_last(), now, max_age, m);
        let k = choose|k: int| 0 <= k < entries.drop_last().len() && entries.drop_last()[k] == m;
        assert(entries[k] == m);
    } else {
        assert(clean_picks(entries.last(), false, now, max_age));
        let sel = clean_selection(entries, false, now, max_age);
        assert(sel == rest.push(entries.last()));
        let k = choose|k: int| 0 <= k < sel.len() && sel[k] == m;
        assert(k == rest.len());
        assert(entries[entries.len() - 1] == m);
    }
}

/// What `dopbase cache clean` does once it knows how many entries match.
#[derive(Clone, Copy, Debug, PartialEq, Eq, Structural)]
pub enum CleanStep {
    /// Show what would be removed and stop.
    ReportDryRun,
    /// Nothing matches: report that and stop.
    ReportNothing,
    /// Ask for confirmation, then remove the matching entries.
    ConfirmRemoval,
}

/// A dry run only reports; with no match there is nothing to do; otherwise
/// the removal is confirmed and made.
pub fn clean_step(dry_run: bool, matched: usize) -> (res: CleanStep)
    ensures
        dry_run ==> res == CleanStep::ReportDryRun,
        !dry_run && matched == 0 ==> res == CleanStep::ReportNothing,
        !dry_run && matched > 0 ==> res == CleanStep::ConfirmRemoval,
{
    if dry_run {
        CleanStep::ReportDryRun
    } else if matched == 0 {
        CleanStep::ReportNothing
    } else {
        CleanStep::ConfirmRemoval
    }
}

/// The confirmation asked before a removal: `Remove 2 encrypted runtime cache entries?`.
pub fn removal_prompt(count: usize) -> (res: String)
    ensures
        res@ == "Remove "@ + counted(
            count as nat,
            " encrypted runtime cache entry"@,
            " encrypted runtime cache entries"@,
        ) + "?"@,
{
    let mut res = "Remove ".to_owned();
    let count_text = entry_count(count);
    res.append(count_text.as_str());
    res.append("?");
    res
}

/// What `dopbase cache clean` prints, when not asked for JSON, after a dry run
/// (`entries` are the matches) or a removal (`entries` are the removed ones).
pub open spec fn clean_result(
    server_url: Seq<char>,
    dry_run: bool,
    entries: Seq<MetadataView>,
    removed_count: nat,
    remaining_count: nat,
) -> Seq<char> {
    if dry_run {
        cache_listing_text(
            server_url,
            entries,
            "No encrypted runtime cache entries would be removed."@,
            "Dry run: "@ + counted(
                entries.len(),
                " encrypted runtime cache entry"@,
                " encrypted runtime cache entries"@,
            ) + " would be removed."@,
        )
    } else if removed_count == 0 {
        "No encrypted runtime cache entries were removed."@
    } else {
        cache_listing_text(
            server_url,
            entries,
            "No encrypted runtime cache entries were removed."@,
            "Removed "@ + counted(
                removed_count,
                " encrypted runtime cache entry"@,
                " encrypted runtime cache entries"@,
            ) + ". "@ + counted(remaining_count, " entry remains."@, " entries remain."@),
        )
    }
}

/// The human-readable result of `dopbase cache clean`.
pub fn clean_result_text(
    server_url: &str,
    dry_run: bool,
    entries: &Vec<CacheMetadata>,
    removed_count: usize,
    remaining_count: usize,
) -> (res: String)
    requires
        cache_rows_fit(server_url@, metadata_views(entries@)),
    ensures
        res@ == clean_result(
            server_url@,
            dry_run,
            metadata_views(entries@),
            removed_count as nat,
            remaining_count as nat,
        ),
{
    if dry_run {
        let mut summary = "Dry run: ".to_owned();
        let count_text = entry_count(entries.len());
        summary.append(count_text.as_str());
        summary.append(" would be removed.");
        print_entries(
            server_url,
            entries,
            "No encrypted runtime cache entries would be removed.",
            summary.as_str(),
        )
    } else if removed_count == 0 {
        "No encrypted runtime cache entries were removed.".to_owned()
    } else {
        let mut summary = "Removed ".to_owned();
        let count_text = entry_count(removed_count);
        summary.append(count_text.as_str());
        summary.append(". ");
        let remaining = remaining_count_label(remaining_count);
        summary.append(remaining.as_str());
        print_entries(
            server_url,
            entries,
            "No encrypted runtime cache entries were removed.",
            summary.as_str(),
        )
    }
}

} // verus!
