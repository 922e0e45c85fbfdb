//! Printing the rows of a query result in the shell's output formats.
//!
//! CSV is written here; tables go through `tabled` and JSON through
//! `serde_json`, each behind a trusted wrapper whose result is named.

use vstd::prelude::*;
use crate::parser::OutputFormat;
use crate::text::{join, join_strings, lines_text, string_views};

verus! {

#[verifier::external_type_specification]
#[verifier::external_body]
pub struct ExJsonError(serde_json::Error);

/// The rows of `v` as character sequences.
pub open spec fn grid_views(v: Seq<Vec<String>>) -> Seq<Seq<Seq<char>>> {
    v.map_values(|row: Vec<String>| string_views(row@))
}

/// The (key, value) pairs of `rec` as character sequences.
pub open spec fn pair_views(rec: Seq<(String, String)>) -> Seq<(Seq<char>, Seq<char>)> {
    rec.map_values(|p: (String, String)| (p.0@, p.1@))
}

/// The records of `v` as character sequences.
pub open spec fn record_views(v: Seq<Vec<(String, String)>>) -> Seq<Seq<(Seq<char>, Seq<char>)>> {
    v.map_values(|rec: Vec<(String, String)>| pair_views(rec@))
}

/// What `tabled` prints for a table of `rows` (the first row is the header)
/// in its `sharp` style.
pub uninterp spec fn sharp_table(rows: Seq<Seq<Seq<char>>>) -> Seq<char>;

/// What `tabled` prints for a table of `rows` in its `psql` style.
pub uninterp spec fn psql_table(rows: Seq<Seq<Seq<char>>>) -> Seq<char>;

/// What `tabled` prints for a table of `rows` in its `markdown` style.
pub uninterp spec fn markdown_table(rows: Seq<Seq<Seq<char>>>) -> Seq<char>;

/// The pretty-printed JSON text that `serde_json::to_string_pretty` writes for an
/// array holding, for each record, an object of its (key, string value) pairs.
pub uninterp spec fn pretty_json_records(records: Seq<Seq<(Seq<char>, Seq<char>)>>) -> Seq<char>;

/// Builds a `tabled::Table` from `rows` (`Table::from_iter`), applies
/// `Style::sharp()` and writes it with `Display`. The text is claimed to be
/// `sharp_table` of the rows; nothing about its layout is stated.
#[verifier::external_body]
fn tabled_sharp(rows: Vec<Vec<String>>) -> (r: String)
    ensures
        r@ == sharp_table(grid_views(rows@)),
{
    let mut table = tabled::Table::from_iter(rows);
    table.with(tabled::settings::Style::sharp());
    table.to_string()
}

/// As `tabled_sharp`, with `Style::psql()`; claimed to be `psql_table` of the rows.
#[verifier::external_body]
fn tabled_psql(rows: Vec<Vec<String>>) -> (r: String)
    ensures
        r@ == psql_table(grid_views(rows@)),
{
    let mut table = tabled::Table::from_iter(rows);
    table.with(tabled::settings::Style::psql());
    table.to_string()
}

/// As `tabled_sharp`, with `Style::markdown()`; claimed to be `markdown_table` of the rows.
#[verifier::external_body]
fn tabled_markdown(rows: Vec<Vec<String>>) -> (r: String)
    ensures
        r@ == markdown_table(grid_views(rows@)),
{
    let mut table = tabled::Table::from_iter(rows);
    table.with(tabled::settings::Style::markdown());
    table.to_string()
}

/// Turns each record into a `serde_json::Value::Object` of string values (a
/// `serde_json::Map`, keyed in its own order, a later pair replacing an earlier
/// one of the same key), wraps them in a `Value::Array` and calls
/// `serde_json::to_string_pretty`. The call is claimed to succeed: its
/// documentation names only a failing `Serialize` impl and non-string map keys
/// as causes of failure, `Value` serialises strings, arrays and string-keyed
/// objects without failing, and the text is written into a `Vec`. The text is
/// claimed to be `pretty_json_records` of the records.
#[verifier::external_body]
fn json_pretty(records: Vec<Vec<(String, String)>>) -> (r: Result<String, serde_json::Error>)
    ensures
        r is Ok,
        r matches Ok(s) ==> s@ == pretty_json_records(record_views(records@)),
{
    let array: Vec<serde_json::Value> = records.into_iter().map(
        |rec| serde_json::Value::Object(
            rec.into_iter().map(|(k, v)| (k, serde_json::Value::String(v))).collect(),
        ),
    ).collect();
    serde_json::to_string_pretty(&serde_json::Value::Array(array))
}

/// The header row followed by the data rows.
pub open spec fn grid(headers: Seq<Seq<char>>, rows: Seq<Seq<Seq<char>>>) -> Seq<Seq<Seq<char>>> {
    seq![headers] + rows
}

/// A row as (header, value) pairs, one per header, in header order.
pub open spec fn record(headers: Seq<Seq<char>>, row: Seq<Seq<char>>) -> Seq<(Seq<char>, Seq<char>)> {
    Seq::new(headers.len(), |i: int| (headers[i], row[i]))
}

/// The CSV text: the headers, then each row, fields joined by `,`, one line each.
pub open spec fn csv_text(headers: Seq<Seq<char>>, rows: Seq<Seq<Seq<char>>>) -> Seq<char> {
    lines_text(
        seq![join(headers, seq![','])] + rows.map_values(|row: Seq<Seq<char>>| join(row, seq![','])),
    )
}

/// The text printed for a non-empty result in a format other than JSON.
pub open spec fn spec_plain_output(
    format: OutputFormat,
    headers: Seq<Seq<char>>,
    rows: Seq<Seq<Seq<char>>>,
) -> Seq<char> {
    match format {
        OutputFormat::Csv => csv_text(headers, rows),
        OutputFormat::Table => sharp_table(grid(headers, rows)) + seq!['\n'],
        OutputFormat::Ascii => psql_table(grid(headers, rows)) + seq!['\n'],
        OutputFormat::Markdown => markdown_table(grid(headers, rows)) + seq!['\n'],
        OutputFormat::Json => pretty_json_records(rows.map_values(|row: Seq<Seq<char>>| record(headers, row)))
            + seq!['\n'],
    }
}

/// A table shows the header row and then every data row, in order; each
/// table format prints the whole grid in its style, and JSON holds one record
/// per data row pairing every header with the row's value in that column.
pub proof fn law_every_row_is_printed(h: Seq<Seq<char>>, rs: Seq<Seq<Seq<char>>>)
    ensures
        grid(h, rs).len() == rs.len() + 1,
        grid(h, rs)[0] == h,
        forall|k: int| 0 <= k < rs.len() ==> #[trigger] grid(h, rs)[k + 1] == rs[k],
        spec_plain_output(OutputFormat::Table, h, rs) == sharp_table(seq![h] + rs) + seq!['\n'],
        spec_plain_output(OutputFormat::Ascii, h, rs) == psql_table(seq![h] + rs) + seq!['\n'],
        spec_plain_output(OutputFormat::Markdown, h, rs) == markdown_table(seq![h] + rs) + seq!['\n'],
        spec_plain_output(OutputFormat::Json, h, rs) == pretty_json_records(
            Seq::new(rs.len(), |k: int| Seq::new(h.len(), |i: int| (h[i], rs[k][i]))),
        ) + seq!['\n'],
{
    assert(rs.map_values(|row: Seq<Seq<char>>| record(h, row)) =~= Seq::new(
        rs.len(),
        |k: int| Seq::new(h.len(), |i: int| (h[i], rs[k][i])),
    ));
}

/// CSV output is one line per row, the header line first, each line the
/// row's fields separated by commas.
pub proof fn law_csv_lines(h: Seq<Seq<char>>, rs: Seq<Seq<Seq<char>>>)
    ensures
        csv_text(h, rs) == lines_text(
            Seq::new(rs.len() + 1, |k: int| if k == 0 { join(h, seq![',']) } else { join(rs[k - 1], seq![',']) }),
        ),
{
    assert(seq![join(h, seq![','])] + rs.map_values(|row: Seq<Seq<char>>| join(row, seq![','])) =~= Seq::new(
        rs.len() + 1,
        |k: int| if k == 0 { join(h, seq![',']) } else { join(rs[k - 1], seq![',']) },
    ));
}

fn clone_strings(v: &Vec<String>) -> (r: Vec<String>)
    ensures
        string_views(r@) == string_views(v@),
{
    let mut r: Vec<String> = Vec::new();
    let mut i: usize = 0;
    while i < v.len()
        invariant
            i <= v.len(),
            string_views(r@) == string_views(v@).take(i as int),
        decreases v.len() - i,
    {
        let ghost old_r = r@;
        let c = v[i].clone();
        assert(c@ == v@[i as int]@);
        r.push(c);
        assert(r@ == old_r.push(c));
        assert(string_views(r@) =~= string_views(old_r).push(c@));
        assert(string_views(r@) =~= string_views(v@).take(i + 1));
        i = i + 1;
    }
    assert(string_views(v@).take(v.len() as int) =~= string_views(v@));
    r
}

fn build_grid(headers: &Vec<String>, rows: &Vec<Vec<String>>) -> (r: Vec<Vec<String>>)
    ensures
        grid_views(r@) == grid(string_views(headers@), grid_views(rows@)),
{
    let mut r: Vec<Vec<String>> = Vec::new();
    r.push(clone_strings(headers));
    let mut i: usize = 0;
    while i < rows.len()
        invariant
            i <= rows.len(),
            grid_views(r@) == grid(string_views(headers@), grid_views(rows@).take(i as int)),
        decreases rows.len() - i,
    {
        let ghost old_r = r@;
        let row = clone_strings(&rows[i]);
        r.push(row);
        assert(r@ == old_r.push(row));
        assert(grid_views(r@) =~= grid_views(old_r).push(string_views(row@)));
        assert(grid(string_views(headers@), grid_views(rows@).take(i + 1)) =~= grid(
            string_views(headers@),
            grid_views(rows@).take(i as int),
        ).push(grid_views(rows@)[i as int]));
        i = i + 1;
    }
    assert(grid_views(rows@).take(rows.len() as int) =~= grid_views(rows@));
    r
}

fn build_record(headers: &Vec<String>, row: &Vec<String>) -> (r: Vec<(String, String)>)
    requires
        row.len() >= headers.len(),
    ensures
        pair_views(r@) == record(string_views(headers@), string_views(row@)),
{
    let mut r: Vec<(String, String)> = Vec::new();
    let mut i: usize = 0;
    while i < headers.len()
        invariant
            i <= headers.len() <= row.len(),
            pair_views(r@) == record(
                string_views(headers@),
                string_views(row@),
            ).take(i as int),
        decreases headers.len() - i,
    {
        let ghost old_r = r@;
        let p = (headers[i].clone(), row[i].clone());
        r.push(p);
        assert(r@ == old_r.push(p));
        assert(pair_views(r@) =~= pair_views(old_r).push((p.0@, p.1@)));
        assert(record(string_views(headers@), string_views(row@)).take(i + 1) =~= record(
            string_views(headers@),
            string_views(row@),
        ).take(i as int).push((headers@[i as int]@, row@[i as int]@)));
        assert(pair_views(r@) =~= record(
            string_views(headers@),
            string_views(row@),
        ).take(i + 1));
        i = i + 1;
    }
    assert(record(string_views(headers@), string_views(row@)).take(headers.len() as int) =~= record(
        string_views(headers@),
        string_views(row@),
    ));
    r
}

fn build_records(headers: &Vec<String>, rows: &Vec<Vec<String>>) -> (r: Vec<Vec<(String, String)>>)
    requires
        forall|k: int| 0 <= k < rows.len() ==> #[trigger] rows@[k].len() >= headers.len(),
    ensures
        record_views(r@) == grid_views(rows@).map_values(
            |row: Seq<Seq<char>>| record(string_views(headers@), row),
        ),
{
    let ghost target = grid_views(rows@).map_values(
        |row: Seq<Seq<char>>| record(string_views(headers@), row),
    );
    let mut r: Vec<Vec<(String, String)>> = Vec::new();
    let mut i: usize = 0;
    while i < rows.len()
        invariant
            i <= rows.len(),
            forall|k: int| 0 <= k < rows.len() ==> #[trigger] rows@[k].len() >= headers.len(),
            target == grid_views(rows@).map_values(
                |row: Seq<Seq<char>>| record(string_views(headers@), row),
            ),
            record_views(r@) == target.take(i as int),
        decreases rows.len() - i,
    {
        let ghost old_r = r@;
        let rec = build_record(headers, &rows[i]);
        r.push(rec);
        assert(r@ == old_r.push(rec));
        assert(record_views(r@) =~= record_views(old_r).push(record_views(r@)[i as int]));
        assert(record_views(r@) =~= target.take(i + 1));
        i = i + 1;
    }
    assert(target.take(rows.len() as int) =~= target);
    r
}

fn csv_output(headers: &Vec<String>, rows: &Vec<Vec<String>>) -> (r: String)
    ensures
        r@ == csv_text(string_views(headers@), grid_views(rows@)),
{
    proof {
        reveal_strlit(",");
        reveal_strlit("\n");
    }
    let ghost lines = seq![join(string_views(headers@), seq![','])] + grid_views(rows@).map_values(
        |row: Seq<Seq<char>>| join(row, seq![',']),
    );
    let mut out = join_strings(headers, ",");
    assert(","@ =~= seq![',']);
    out.append("\n");
    assert(lines.take(1).last() == lines[0]);
    assert(lines.take(1).drop_last() =~= Seq::<Seq<char>>::empty());
    assert(lines_text(Seq::<Seq<char>>::empty()) == Seq::<char>::empty());
    assert(out@ =~= lines_text(lines.take(1)));
    let mut i: usize = 0;
    while i < rows.len()
        invariant
            i <= rows.len(),
            lines == seq![join(string_views(headers@), seq![','])] + grid_views(rows@).map_values(
                |row: Seq<Seq<char>>| join(row, seq![',']),
            ),
            out@ == lines_text(lines.take(i + 1)),
        decreases rows.len() - i,
    {
        proof {
            reveal_strlit(",");
            reveal_strlit("\n");
        }
        let line = join_strings(&rows[i], ",");
        assert(","@ =~= seq![',']);
        assert(string_views(rows@[i as int]@) == grid_views(rows@)[i as int]);
        assert(lines.take(i + 2).last() == lines[i + 1]);
        out.append(line.as_str());
        out.append("\n");
        assert(lines.take(i + 2).drop_last() =~= lines.take(i + 1));
        assert(out@ =~= lines_text(lines.take(i + 2)));
        i = i + 1;
    }
    assert(lines.take(rows.len() + 1) =~= lines);
    out
}

/// The text that a query result prints in `format`: nothing for no rows;
/// CSV lines; a `tabled` table in the style of the format; or pretty JSON, an
/// array with one object per row mapping each header to the row's value in
/// that column.
pub fn render_rows(format: OutputFormat, headers: &Vec<String>, rows: &Vec<Vec<String>>) -> (r: Option<String>)
    requires
        format == OutputFormat::Json ==> forall|k: int|
            0 <= k < rows.len() ==> #[trigger] rows@[k].len() >= headers.len(),
    ensures
        rows.len() == 0 ==> r is None,
        rows.len() > 0 ==> (r matches Some(text) && text@ == spec_plain_output(
            format,
            string_views(headers@),
            grid_views(rows@),
        )),
{
    if rows.len() == 0 {
        return None;
    }
    proof {
        reveal_strlit("\n");
    }
    match format {
        OutputFormat::Csv => Some(csv_output(headers, rows)),
        OutputFormat::Table => Some(tabled_sharp(build_grid(headers, rows)).concat("\n")),
        OutputFormat::Ascii => Some(tabled_psql(build_grid(headers, rows)).concat("\n")),
        OutputFormat::Markdown => Some(tabled_markdown(build_grid(headers, rows)).concat("\n")),
        OutputFormat::Json => match json_pretty(build_records(headers, rows)) {
            Ok(text) => Some(text.concat("\n")),
            Err(_) => None,
        },
    }
}

} // verus!
