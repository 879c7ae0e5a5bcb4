//! Tabular writer: computes a stable column header as the ordered union of
//! all paths across the given rows (first-seen order) and emits CSV text.
//!
//! Quoting follows RFC 4180: a field is quoted when it contains a comma, a
//! quote or a line break, and embedded quotes are doubled. A row's missing
//! columns render as empty cells. An empty row sequence produces empty
//! output (no header line); otherwise every line, the header included,
//! ends with a newline.

use vstd::prelude::*;

use crate::flatten::FlatRow;

verus! {

/// One row as the writer sees it: ordered path/value pairs.
pub type RowV = Seq<(Seq<char>, Seq<char>)>;

pub open spec fn rows_view(rows: Seq<FlatRow>) -> Seq<RowV> {
    rows.map_values(|r: FlatRow| r@)
}

// ---------------------------------------------------------------------------
// RFC 4180 field escaping
// ---------------------------------------------------------------------------
pub open spec fn needs_quote(f: Seq<char>) -> bool {
    exists|i: int|
        0 <= i < f.len() && ((#[trigger] f[i]) == ',' || f[i] == '"' || f[i] == '\n' || f[i]
            == '\r')
}

/// The field with every quote doubled.
pub open spec fn doubled(f: Seq<char>) -> Seq<char>
    decreases f.len(),
{
    if f.len() == 0 {
        Seq::empty()
    } else {
        doubled(f.drop_last()) + (if f.last() == '"' {
            seq!['"', '"']
        } else {
            seq![f.last()]
        })
    }
}

/// A rendered CSV field: quoted with doubled quotes when it contains a
/// comma, a quote or a line break, otherwise unchanged.
pub open spec fn esc_field(f: Seq<char>) -> Seq<char> {
    if needs_quote(f) {
        seq!['"'] + doubled(f) + seq!['"']
    } else {
        f
    }
}

fn needs_quote_exec(f: &String) -> (r: bool)
    ensures
        r == needs_quote(f@),
{
    let s = f.as_str();
    let n = s.unicode_len();
    let mut i: usize = 0;
    while i < n
        invariant
            i <= n,
            n == f@.len(),
            s@ == f@,
            forall|j: int|
                0 <= j < i ==> !((#[trigger] f@[j]) == ',' || f@[j] == '"' || f@[j] == '\n'
                    || f@[j] == '\r'),
        decreases n - i,
    {
        let c = s.get_char(i);
        if c == ',' || c == '"' || c == '\n' || c == '\r' {
            return true;
        }
        i = i + 1;
    }
    false
}

/// Renders one CSV field per RFC 4180.
pub fn esc_field_exec(f: &String) -> (r: String)
    ensures
        r@ == esc_field(f@),
{
    if !needs_quote_exec(f) {
        return f.clone();
    }
    proof {
        reveal_strlit("\"");
        reveal_strlit("\"\"");
    }
    let s = f.as_str();
    let n = s.unicode_len();
    let mut out: String = "\"".to_owned();
    let mut i: usize = 0;
    while i < n
        invariant
            i <= n,
            n == f@.len(),
            s@ == f@,
            out@ == seq!['"'] + doubled(f@.take(i as int)),
            "\""@ == seq!['"'],
            "\"\""@ == seq!['"', '"'],
        decreases n - i,
    {
        let c = s.get_char(i);
        if c == '"' {
            out.append("\"\"");
        } else {
            out.append(s.substring_char(i, i + 1));
        }
        proof {
            assert(f@.take(i + 1).drop_last() =~= f@.take(i as int));
            assert(f@.take(i + 1).last() == f@[i as int]);
            assert(out@ =~= seq!['"'] + doubled(f@.take(i + 1)));
        }
        i = i + 1;
    }
    out.append("\"");
    proof {
        assert(f@.take(n as int) =~= f@);
        assert(out@ =~= esc_field(f@));
    }
    out
}

// ---------------------------------------------------------------------------
// The header: ordered union of all paths, first-seen order
// ---------------------------------------------------------------------------
/// Adds the paths of `row` from entry `j` on to `acc`, keeping first-seen
/// order and skipping paths already present.
pub open spec fn add_new(acc: Seq<Seq<char>>, row: RowV, j: int) -> Seq<Seq<char>>
    decreases row.len() - j,
    when 0 <= j <= row.len()
{
    if j >= row.len() {
        acc
    } else {
        add_new(
            if acc.contains(row[j].0) {
                acc
            } else {
                acc.push(row[j].0)
            },
            row,
            j + 1,
        )
    }
}

pub open spec fn header_from(rows: Seq<RowV>, i: int, acc: Seq<Seq<char>>) -> Seq<Seq<char>>
    decreases rows.len() - i,
    when 0 <= i <= rows.len()
{
    if i >= rows.len() {
        acc
    } else {
        header_from(rows, i + 1, add_new(acc, rows[i], 0))
    }
}

/// The column header of a row set: all distinct paths, in first-seen
/// order.
pub open spec fn header_of(rows: Seq<RowV>) -> Seq<Seq<char>> {
    header_from(rows, 0, Seq::empty())
}

fn contains_path(acc: &Vec<String>, p: &String) -> (r: bool)
    ensures
        r == acc@.map_values(|s: String| s@).contains(p@),
{
    let ghost accv = acc@.map_values(|s: String| s@);
    let mut i: usize = 0;
    while i < acc.len()
        invariant
            i <= acc@.len(),
            accv == acc@.map_values(|s: String| s@),
            forall|j: int| 0 <= j < i ==> accv[j] != p@,
        decreases acc@.len() - i,
    {
        if acc[i].eq(p) {
            assert(accv[i as int] == p@);
            return true;
        }
        i = i + 1;
    }
    assert(!accv.contains(p@));
    false
}

/// Computes the header of a row set.
pub fn compute_header(rows: &Vec<FlatRow>) -> (r: Vec<String>)
    ensures
        r@.map_values(|s: String| s@) == header_of(rows_view(rows@)),
{
    let ghost rowsv = rows_view(rows@);
    let mut header: Vec<String> = Vec::new();
    let mut i: usize = 0;
    proof {
        assert(header@.map_values(|s: String| s@) =~= Seq::<Seq<char>>::empty());
    }
    while i < rows.len()
        invariant
            i <= rows@.len(),
            rowsv == rows_view(rows@),
            header_of(rowsv) == header_from(
                rowsv,
                i as int,
                header@.map_values(|s: String| s@),
            ),
        decreases rows@.len() - i,
    {
        let row = &rows[i];
        let ghost rv = rowsv[i as int];
        assert(rv == row@);
        let mut j: usize = 0;
        let ghost hv0 = header@.map_values(|s: String| s@);
        while j < row.entries.len()
            invariant
                j <= row@.len(),
                rv == row@,
                row@.len() == row.entries@.len(),
                add_new(hv0, rv, 0) == add_new(header@.map_values(|s: String| s@), rv, j as int),
            decreases row@.len() - j,
        {
            assert(rv[j as int].0 == row.entries@[j as int].0@);
            let ghost hcur = header@.map_values(|s: String| s@);
            if !contains_path(&header, &row.entries[j].0) {
                let p = row.entries[j].0.clone();
                header.push(p);
                proof {
                    assert(header@.map_values(|s: String| s@) =~= hcur.push(rv[j as int].0));
                }
            }
            j = j + 1;
        }
        i = i + 1;
    }
    header
}

// ---------------------------------------------------------------------------
// Cell lookup and line rendering
// ---------------------------------------------------------------------------
/// The value of the first entry of `row` whose path is `path`, or the
/// empty string if the row has no such column.
pub open spec fn lookup(row: RowV, path: Seq<char>) -> Seq<char>
    decreases row.len(),
{
    if row.len() == 0 {
        Seq::empty()
    } else if row.first().0 == path {
        row.first().1
    } else {
        lookup(row.drop_first(), path)
    }
}

fn lookup_exec(row: &FlatRow, path: &String) -> (r: String)
    ensures
        r@ == lookup(row@, path@),
{
    proof {
        assert(row@.skip(0) =~= row@);
    }
    let mut i: usize = 0;
    while i < row.entries.len()
        invariant
            i <= row@.len(),
            row@.len() == row.entries@.len(),
            lookup(row@, path@) == lookup(row@.skip(i as int), path@),
        decreases row@.len() - i,
    {
        proof {
            assert(row@.skip(i as int).first() == row@[i as int]);
            assert(row@[i as int] == (row.entries@[i as int].0@, row.entries@[i as int].1@));
            assert(row@.skip(i as int).drop_first() =~= row@.skip(i + 1));
        }
        if row.entries[i].0.eq(path) {
            return row.entries[i].1.clone();
        }
        i = i + 1;
    }
    proof {
        assert(row@.skip(row@.len() as int) =~= Seq::<(Seq<char>, Seq<char>)>::empty());
    }
    String::new()
}

/// Cells joined with commas.
pub open spec fn join_comma(cells: Seq<Seq<char>>) -> Seq<char>
    decreases cells.len(),
{
    if cells.len() == 0 {
        Seq::empty()
    } else if cells.len() == 1 {
        cells[0]
    } else {
        join_comma(cells.drop_last()) + seq![','] + cells.last()
    }
}

fn join_exec(cells: &Vec<String>) -> (r: String)
    ensures
        r@ == join_comma(cells@.map_values(|s: String| s@)),
{
    let ghost cv = cells@.map_values(|s: String| s@);
    let mut out = String::new();
    let mut i: usize = 0;
    while i < cells.len()
        invariant
            i <= cells@.len(),
            cv == cells@.map_values(|s: String| s@),
            out@ == join_comma(cv.take(i as int)),
        decreases cells@.len() - i,
    {
        if i > 0 {
            proof {
                reveal_strlit(",");
            }
            out.append(",");
        }
        out.append(cells[i].as_str());
        proof {
            assert(cv.take(i + 1).drop_last() =~= cv.take(i as int));
            assert(cv.take(i + 1).last() == cv[i as int]);
            if i == 0 {
                assert(out@ =~= join_comma(cv.take(1)));
            } else {
                assert(out@ =~= join_comma(cv.take(i + 1)));
            }
        }
        i = i + 1;
    }
    proof {
        assert(cv.take(cells@.len() as int) =~= cv);
    }
    out
}

/// The rendered cells of one row under a header.
pub open spec fn row_cells(row: RowV, header: Seq<Seq<char>>) -> Seq<Seq<char>> {
    header.map_values(|p: Seq<char>| esc_field(lookup(row, p)))
}

/// The body lines from row `i` on, each followed by a newline.
pub open spec fn body_lines(rows: Seq<RowV>, header: Seq<Seq<char>>, i: int) -> Seq<char>
    decreases rows.len() - i,
    when 0 <= i <= rows.len()
{
    if i >= rows.len() {
        Seq::empty()
    } else {
        join_comma(row_cells(rows[i], header)) + seq!['\n'] + body_lines(rows, header, i + 1)
    }
}

/// The CSV text of a row set: empty for no rows, otherwise the escaped
/// header line and one line per row, each ending with a newline.
pub open spec fn spec_write_csv(rows: Seq<RowV>) -> Seq<char> {
    if rows.len() == 0 {
        Seq::empty()
    } else {
        let header = header_of(rows);
        join_comma(header.map_values(|p: Seq<char>| esc_field(p))) + seq!['\n'] + body_lines(
            rows,
            header,
            0,
        )
    }
}

fn render_row(row: &FlatRow, header: &Vec<String>) -> (r: String)
    ensures
        r@ == join_comma(row_cells(row@, header@.map_values(|s: String| s@))),
{
    let ghost hv = header@.map_values(|s: String| s@);
    let mut cells: Vec<String> = Vec::new();
    let mut k: usize = 0;
    while k < header.len()
        invariant
            k <= header@.len(),
            hv == header@.map_values(|s: String| s@),
            cells@.map_values(|s: String| s@) == row_cells(row@, hv).take(k as int),
        decreases header@.len() - k,
    {
        proof {
            assert(hv[k as int] == header@[k as int]@);
        }
        let cell = esc_field_exec(&lookup_exec(row, &header[k]));
        let ghost old_cells = cells@.map_values(|s: String| s@);
        cells.push(cell);
        proof {
            assert(cells@.map_values(|s: String| s@) =~= old_cells.push(cell@));
            assert(row_cells(row@, hv)[k as int] == esc_field(lookup(row@, hv[k as int])));
            assert(cells@.map_values(|s: String| s@) =~= row_cells(row@, hv).take(k + 1));
        }
        k = k + 1;
    }
    proof {
        assert(row_cells(row@, hv).take(header@.len() as int) =~= row_cells(row@, hv));
    }
    join_exec(&cells)
}

/// Writes a row set as CSV text.
pub fn write_csv(rows: &Vec<FlatRow>) -> (r: String)
    ensures
        r@ == spec_write_csv(rows_view(rows@)),
{
    let ghost rowsv = rows_view(rows@);
    if rows.len() == 0 {
        return String::new();
    }
    proof {
        reveal_strlit("\n");
    }
    let header = compute_header(rows);
    let ghost hv = header@.map_values(|s: String| s@);
    let mut hcells: Vec<String> = Vec::new();
    let mut k: usize = 0;
    while k < header.len()
        invariant
            k <= header@.len(),
            hv == header@.map_values(|s: String| s@),
            hcells@.map_values(|s: String| s@) == hv.map_values(
                |p: Seq<char>| esc_field(p),
            ).take(k as int),
        decreases header@.len() - k,
    {
        proof {
            assert(hv[k as int] == header@[k as int]@);
            assert(hv.map_values(|p: Seq<char>| esc_field(p))[k as int] == esc_field(
                hv[k as int],
            ));
        }
        let ghost before = hcells@.map_values(|s: String| s@);
        let cell = esc_field_exec(&header[k]);
        hcells.push(cell);
        proof {
            assert(hcells@.map_values(|s: String| s@) =~= before.push(cell@));
            assert(hcells@.map_values(|s: String| s@) =~= hv.map_values(
                |p: Seq<char>| esc_field(p),
            ).take(k + 1));
        }
        k = k + 1;
    }
    proof {
        assert(hv.map_values(|p: Seq<char>| esc_field(p)).take(header@.len() as int) =~= hv
            .map_values(|p: Seq<char>| esc_field(p)));
    }
    let mut out = join_exec(&hcells);
    out.append("\n");
    let mut i: usize = 0;
    while i < rows.len()
        invariant
            i <= rows@.len(),
            rowsv == rows_view(rows@),
            rowsv.len() == rows@.len(),
            rowsv.len() > 0,
            hv == header_of(rowsv),
            hv == header@.map_values(|s: String| s@),
            "\n"@ == seq!['\n'],
            spec_write_csv(rowsv) == out@ + body_lines(rowsv, hv, i as int),
        decreases rows@.len() - i,
    {
        assert(rowsv[i as int] == rows@[i as int]@);
        let line = render_row(&rows[i], &header);
        let ghost out0 = out@;
        out.append(line.as_str());
        out.append("\n");
        proof {
            assert(body_lines(rowsv, hv, i as int) == join_comma(
                row_cells(rowsv[i as int], hv),
            ) + seq!['\n'] + body_lines(rowsv, hv, i as int + 1));
            assert(line@ == join_comma(row_cells(rowsv[i as int], hv)));
            assert(out0 + body_lines(rowsv, hv, i as int) =~= out@ + body_lines(
                rowsv,
                hv,
                i as int + 1,
            ));
        }
        i = i + 1;
    }
    proof {
        assert(out@ =~= spec_write_csv(rowsv));
    }
    out
}

} // verus!
