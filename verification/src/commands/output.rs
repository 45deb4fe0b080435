use crate::text::push_char;
use vstd::prelude::*;
use vstd::string::*;

verus! {

/// `n` space characters.
pub open spec fn spaces(n: nat) -> Seq<char> {
    Seq::new(n, |i: int| ' ')
}

/// Lines joined by single newline characters.
pub open spec fn join_lines(lines: Seq<Seq<char>>) -> Seq<char>
    decreases lines.len(),
{
    if lines.len() == 0 {
        seq![]
    } else if lines.len() == 1 {
        lines[0]
    } else {
        join_lines(lines.drop_last()) + seq!['\n'] + lines.last()
    }
}

/// `s` padded on the right with spaces up to `width` characters.
pub open spec fn pad_right(s: Seq<char>, width: nat) -> Seq<char> {
    if s.len() < width {
        s + spaces((width - s.len()) as nat)
    } else {
        s
    }
}

/// The longest label, in characters (0 when there is none).
pub open spec fn label_width(labels: Seq<Seq<char>>) -> nat
    decreases labels.len(),
{
    if labels.len() == 0 {
        0
    } else {
        let rest = label_width(labels.drop_last());
        if labels.last().len() > rest {
            labels.last().len()
        } else {
            rest
        }
    }
}

/// The labels of a field list.
pub open spec fn field_labels(fields: Seq<(&str, String)>) -> Seq<Seq<char>> {
    fields.map_values(|f: (&str, String)| f.0@)
}

/// One rendered field: the label padded to `width`, two spaces, the value.
pub open spec fn field_line(label: Seq<char>, value: Seq<char>, width: nat) -> Seq<char> {
    pad_right(label, width) + seq![' ', ' '] + value
}

/// A field list rendered as aligned `label  value` lines.
pub open spec fn fields_text(fields: Seq<(&str, String)>) -> Seq<char> {
    let width = label_width(field_labels(fields));
    join_lines(Seq::new(fields.len(), |i: int| field_line(fields[i].0@, fields[i].1@, width)))
}

/// The character views of the cells of each row.
pub open spec fn rows_view(rows: Seq<Vec<String>>) -> Seq<Seq<Seq<char>>> {
    rows.map_values(|r: Vec<String>| r@.map_values(|s: String| s@))
}

/// The character views of the headers.
pub open spec fn headers_view(headers: Seq<&str>) -> Seq<Seq<char>> {
    headers.map_values(|h: &str| h@)
}

/// The width of column `i`: its header's length or the longest cell of the
/// rows that have a cell in that column, whichever is larger.
pub open spec fn column_width(header: Seq<char>, rows: Seq<Seq<Seq<char>>>, i: int) -> nat
    decreases rows.len(),
{
    if rows.len() == 0 {
        header.len()
    } else {
        let w = column_width(header, rows.drop_last(), i);
        let r = rows.last();
        if 0 <= i < r.len() && r[i].len() > w {
            r[i].len()
        } else {
            w
        }
    }
}

/// The width of every column named by a header.
pub open spec fn column_widths_spec(headers: Seq<Seq<char>>, rows: Seq<Seq<Seq<char>>>) -> Seq<
    nat,
> {
    Seq::new(headers.len(), |i: int| column_width(headers[i], rows, i))
}

/// The width that applies to column `k` (0 past the known columns).
pub open spec fn width_at(widths: Seq<nat>, k: int) -> nat {
    if 0 <= k < widths.len() {
        widths[k]
    } else {
        0
    }
}

/// One cell of a rendered row: the last cell as is, any other cell padded
/// to its column width plus three spaces.
pub open spec fn cell_text(row: Seq<Seq<char>>, widths: Seq<nat>, k: int) -> Seq<char> {
    if k + 1 == row.len() {
        row[k]
    } else {
        row[k] + spaces((width_at(widths, k) - row[k].len() + 3) as nat)
    }
}

/// The first `n` cells of a row, rendered and concatenated.
pub open spec fn cells_text(row: Seq<Seq<char>>, widths: Seq<nat>, n: nat) -> Seq<char>
    decreases n,
{
    if n == 0 {
        seq![]
    } else {
        cells_text(row, widths, (n - 1) as nat) + cell_text(row, widths, n - 1)
    }
}

/// A whole row rendered against the column widths.
pub open spec fn row_text(row: Seq<Seq<char>>, widths: Seq<nat>) -> Seq<char> {
    cells_text(row, widths, row.len())
}

/// Every padded cell fits its column, so no padding is negative.
pub open spec fn row_fits(row: Seq<Seq<char>>, widths: Seq<nat>) -> bool {
    forall|k: int| 0 <= k < row.len() - 1 ==> #[trigger] row[k].len() <= width_at(widths, k)
}

/// The table: the header row, then each data row, one per line.
pub open spec fn table_text(headers: Seq<Seq<char>>, rows: Seq<Seq<Seq<char>>>) -> Seq<char> {
    let widths = column_widths_spec(headers, rows);
    join_lines(
        seq![row_text(headers, widths)] + rows.map_values(|r: Seq<Seq<char>>| row_text(r, widths)),
    )
}

/// Every header and every cell has fewer than `bound` characters.
pub open spec fn lengths_below(headers: Seq<Seq<char>>, rows: Seq<Seq<Seq<char>>>, bound: nat) -> bool {
    &&& forall|k: int| 0 <= k < headers.len() ==> #[trigger] headers[k].len() < bound
    &&& forall|j: int, k: int|
        0 <= j < rows.len() && 0 <= k < rows[j].len() ==> #[trigger] rows[j][k].len() < bound
}

proof fn lemma_column_width_below(
    header: Seq<char>,
    rows: Seq<Seq<Seq<char>>>,
    i: int,
    bound: nat,
)
    requires
        header.len() < bound,
        forall|j: int, k: int|
            0 <= j < rows.len() && 0 <= k < rows[j].len() ==> #[trigger] rows[j][k].len() < bound,
    ensures
        column_width(header, rows, i) < bound,
    decreases rows.len(),
{
    if rows.len() > 0 {
        lemma_column_width_below(header, rows.drop_last(), i, bound);
    }
}

/// No row holds a non-empty cell, other than its last, in a column that has
/// no header: such a cell has no width to be padded to.
pub open spec fn rows_within_headers(headers: Seq<Seq<char>>, rows: Seq<Seq<Seq<char>>>) -> bool {
    forall|j: int, k: int|
        0 <= j < rows.len() && headers.len() <= k < rows[j].len() - 1 ==> #[trigger] rows[j][k].len()
            == 0
}

fn push_spaces(s: &mut String, n: usize)
    ensures
        final(s)@ == old(s)@ + spaces(n as nat),
{
    let mut i: usize = 0;
    while i < n
        invariant
            i <= n,
            s@ == old(s)@ + spaces(i as nat),
        decreases n - i,
    {
        push_char(s, ' ');
        i = i + 1;
        assert(s@ =~= old(s)@ + spaces(i as nat));
    }
}

proof fn lemma_join_push(lines: Seq<Seq<char>>, line: Seq<char>)
    requires
        lines.len() > 0,
    ensures
        join_lines(lines.push(line)) == join_lines(lines) + seq!['\n'] + line,
{
    assert(lines.push(line).drop_last() =~= lines);
}

proof fn lemma_label_width_bound(labels: Seq<Seq<char>>, i: int)
    requires
        0 <= i < labels.len(),
    ensures
        labels[i].len() <= label_width(labels),
    decreases labels.len(),
{
    if i < labels.len() - 1 {
        lemma_label_width_bound(labels.drop_last(), i);
    }
}

/// Aligned `label  value` lines: each label is padded to the longest one.
pub fn render_fields(fields: &[(&str, String)]) -> (res: String)
    ensures
        res@ == fields_text(fields@),
{
    let n = fields.len();
    let mut width: usize = 0;
    let mut i: usize = 0;
    while i < n
        invariant
            n == fields@.len(),
            i <= n,
            width as nat == label_width(field_labels(fields@).take(i as int)),
        decreases n - i,
    {
        let len = fields[i].0.unicode_len();
        assert(field_labels(fields@).take(i + 1).drop_last() =~= field_labels(fields@).take(
            i as int,
        ));
        if len > width {
            width = len;
        }
        i = i + 1;
    }
    assert(field_labels(fields@).take(n as int) =~= field_labels(fields@));
    let ghost lines = Seq::new(
        fields@.len(),
        |k: int| field_line(fields@[k].0@, fields@[k].1@, width as nat),
    );
    let mut res = String::new();
    let mut j: usize = 0;
    while j < n
        invariant
            n == fields@.len(),
            j <= n,
            lines.len() == n,
            forall|k: int|
                0 <= k < n ==> #[trigger] lines[k] == field_line(
                    fields@[k].0@,
                    fields@[k].1@,
                    width as nat,
                ),
            res@ == join_lines(lines.take(j as int)),
        decreases n - j,
    {
        let ghost before = res@;
        if j > 0 {
            push_char(&mut res, '\n');
        }
        let label = fields[j].0;
        let len = label.unicode_len();
        res.append(label);
        if len < width {
            push_spaces(&mut res, width - len);
        }
        push_char(&mut res, ' ');
        push_char(&mut res, ' ');
        res.append(fields[j].1.as_str());
        proof {
            let line = lines[j as int];
            if j == 0 {
                assert(lines.take(1) =~= seq![line]);
            } else {
                assert(lines.take(j + 1) =~= lines.take(j as int).push(line));
                lemma_join_push(lines.take(j as int), line);
            }
            assert(res@ =~= join_lines(lines.take(j + 1)));
        }
        j = j + 1;
    }
    assert(lines.take(n as int) =~= lines);
    res
}


/// The widths as natural numbers.
pub open spec fn widths_view(widths: Seq<usize>) -> Seq<nat> {
    widths.map_values(|w: usize| w as nat)
}

proof fn lemma_column_width_bound(header: Seq<char>, rows: Seq<Seq<Seq<char>>>, i: int, j: int)
    requires
        0 <= j < rows.len(),
        0 <= i < rows[j].len(),
    ensures
        rows[j][i].len() <= column_width(header, rows, i),
    decreases rows.len(),
{
    if j < rows.len() - 1 {
        lemma_column_width_bound(header, rows.drop_last(), i, j);
    }
}

proof fn lemma_column_width_header(header: Seq<char>, rows: Seq<Seq<Seq<char>>>, i: int)
    ensures
        header.len() <= column_width(header, rows, i),
    decreases rows.len(),
{
    if rows.len() > 0 {
        lemma_column_width_header(header, rows.drop_last(), i);
    }
}

/// The width of each column named by a header.
pub fn column_widths(headers: &[&str], rows: &[Vec<String>]) -> (res: Vec<usize>)
    ensures
        widths_view(res@) == column_widths_spec(headers_view(headers@), rows_view(rows@)),
{
    let ghost rv = rows_view(rows@);
    let mut res: Vec<usize> = Vec::new();
    let mut i: usize = 0;
    while i < headers.len()
        invariant
            i <= headers@.len(),
            rv == rows_view(rows@),
            res@.len() == i,
            forall|k: int|
                0 <= k < i ==> #[trigger] res@[k] as nat == column_width(
                    headers@[k]@,
                    rv,
                    k,
                ),
        decreases headers@.len() - i,
    {
        let mut w: usize = headers[i].unicode_len();
        let mut j: usize = 0;
        while j < rows.len()
            invariant
                i < headers@.len(),
                j <= rows@.len(),
                rv == rows_view(rows@),
                w as nat == column_width(headers@[i as int]@, rv.take(j as int), i as int),
            decreases rows@.len() - j,
        {
            assert(rv.take(j + 1).drop_last() =~= rv.take(j as int));
            if i < rows[j].len() {
                let len = rows[j][i].as_str().unicode_len();
                if len > w {
                    w = len;
                }
            }
            j = j + 1;
        }
        assert(rv.take(rows@.len() as int) =~= rv);
        res.push(w);
        i = i + 1;
    }
    assert(widths_view(res@) =~= column_widths_spec(headers_view(headers@), rv));
    res
}

/// One row rendered against the column widths: every cell but the last is
/// padded to its column's width plus three spaces.
pub fn render_row(row: &[String], widths: &[usize]) -> (res: String)
    requires
        row_fits(row@.map_values(|s: String| s@), widths_view(widths@)),
        forall|k: int| 0 <= k < widths@.len() ==> #[trigger] widths@[k] <= usize::MAX - 3,
    ensures
        res@ == row_text(row@.map_values(|s: String| s@), widths_view(widths@)),
{
    let ghost cells = row@.map_values(|s: String| s@);
    let ghost wv = widths_view(widths@);
    let n = row.len();
    let mut res = String::new();
    let mut k: usize = 0;
    while k < n
        invariant
            n == row@.len(),
            cells == row@.map_values(|s: String| s@),
            wv == widths_view(widths@),
            row_fits(cells, wv),
            forall|q: int| 0 <= q < widths@.len() ==> #[trigger] widths@[q] <= usize::MAX - 3,
            k <= n,
            res@ == cells_text(cells, wv, k as nat),
        decreases n - k,
    {
        let value = row[k].as_str();
        res.append(value);
        if k + 1 != n {
            let width: usize = if k < widths.len() {
                widths[k]
            } else {
                0
            };
            let len = value.unicode_len();
            assert(cells[k as int].len() <= width_at(wv, k as int));
            push_spaces(&mut res, width - len + 3);
        }
        assert(res@ =~= cells_text(cells, wv, (k + 1) as nat));
        k = k + 1;
    }
    res
}

/// A table: the header row and then one line per data row, with every
/// column padded to its widest entry.
pub fn render_table(headers: &[&str], rows: &[Vec<String>]) -> (res: String)
    requires
        rows_within_headers(headers_view(headers@), rows_view(rows@)),
        lengths_below(headers_view(headers@), rows_view(rows@), (usize::MAX - 3) as nat),
    ensures
        res@ == table_text(headers_view(headers@), rows_view(rows@)),
{
    let ghost hv = headers_view(headers@);
    let ghost rv = rows_view(rows@);
    let widths = column_widths(headers, rows);
    let ghost wv = widths_view(widths@);
    let ghost lines = seq![row_text(hv, wv)] + rv.map_values(|r: Seq<Seq<char>>| row_text(r, wv));
    let mut header_cells: Vec<String> = Vec::new();
    let mut i: usize = 0;
    while i < headers.len()
        invariant
            i <= headers@.len(),
            hv == headers_view(headers@),
            header_cells@.len() == i,
            forall|k: int| 0 <= k < i ==> #[trigger] header_cells@[k]@ == headers@[k]@,
        decreases headers@.len() - i,
    {
        header_cells.push(String::from_str(headers[i]));
        i = i + 1;
    }
    proof {
        assert(header_cells@.map_values(|s: String| s@) =~= hv);
        assert forall|k: int| 0 <= k < widths@.len() implies #[trigger] widths@[k] <= usize::MAX
            - 3 by {
            assert(wv.len() == widths@.len());
            assert(wv[k] == widths@[k] as nat);
            assert(wv[k] == column_width(hv[k], rv, k));
            assert(hv[k].len() < (usize::MAX - 3) as nat);
            lemma_column_width_below(hv[k], rv, k, (usize::MAX - 3) as nat);
        };
        assert forall|k: int| 0 <= k < hv.len() - 1 implies #[trigger] hv[k].len() <= width_at(
            wv,
            k,
        ) by {
            lemma_column_width_header(hv[k], rv, k);
        };
    }
    let mut res = render_row(header_cells.as_slice(), widths.as_slice());
    let mut j: usize = 0;
    while j < rows.len()
        invariant
            j <= rows@.len(),
            rv == rows_view(rows@),
            wv == widths_view(widths@),
            lines.len() == rows@.len() + 1,
            forall|k: int| 0 <= k < rows@.len() ==> #[trigger] lines[k + 1] == row_text(rv[k], wv),
            lines[0] == row_text(hv, wv),
            res@ == join_lines(lines.take(j + 1)),
            rows_within_headers(hv, rv),
            hv == headers_view(headers@),
            wv == column_widths_spec(hv, rv),
            forall|k: int| 0 <= k < widths@.len() ==> #[trigger] widths@[k] <= usize::MAX - 3,
        decreases rows@.len() - j,
    {
        proof {
            let r = rv[j as int];
            assert(rows@[j as int]@.map_values(|s: String| s@) =~= r);
            assert forall|k: int| 0 <= k < r.len() - 1 implies #[trigger] r[k].len() <= width_at(
                wv,
                k,
            ) by {
                if k < hv.len() {
                    lemma_column_width_bound(hv[k], rv, k, j as int);
                }
            };
        }
        let line = render_row(rows[j].as_slice(), widths.as_slice());
        push_char(&mut res, '\n');
        res.append(line.as_str());
        proof {
            assert(lines.take(j + 2) =~= lines.take(j + 1).push(lines[j + 1]));
            lemma_join_push(lines.take(j + 1), lines[j + 1]);
        }
        j = j + 1;
    }
    assert(lines.take(rows@.len() as int + 1) =~= lines);
    res
}

} // verus!

verus! {

/// What a listing shows: the message when there are no rows, otherwise the
/// table, then a blank line and the summary when there is one.
pub open spec fn listing_text(
    headers: Seq<Seq<char>>,
    rows: Seq<Seq<Seq<char>>>,
    empty_message: Seq<char>,
    summary: Seq<char>,
) -> Seq<char> {
    if rows.len() == 0 {
        empty_message
    } else if summary.len() == 0 {
        table_text(headers, rows)
    } else {
        table_text(headers, rows) + seq!['\n', '\n'] + summary
    }
}

/// The text of a listing: the table of `rows` under `headers` followed by
/// the summary, or `empty_message` when there are no rows.
pub fn table_listing(
    headers: &[&str],
    rows: &[Vec<String>],
    empty_message: &str,
    summary: &str,
) -> (res: String)
    requires
        rows_within_headers(headers_view(headers@), rows_view(rows@)),
        lengths_below(headers_view(headers@), rows_view(rows@), (usize::MAX - 3) as nat),
    ensures
        res@ == listing_text(headers_view(headers@), rows_view(rows@), empty_message@, summary@),
{
    if rows.len() == 0 {
        return empty_message.to_owned();
    }
    let mut res = render_table(headers, rows);
    if summary.unicode_len() > 0 {
        push_char(&mut res, '\n');
        push_char(&mut res, '\n');
        res.append(summary);
        assert(res@ =~= table_text(headers_view(headers@), rows_view(rows@)) + seq!['\n', '\n']
            + summary@);
    }
    res
}

} // verus!
