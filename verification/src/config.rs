//! Spreadsheet configuration: `config.csv` settings, dining areas from
//! `table.csv` / `areas.csv`, menu and offer rows, and CSV export.
use vstd::prelude::*;

use crate::models::{Area, MenuItem};
use crate::text::{
    ascii_lower_chars, ascii_lower_seq, chars_contains, chars_eq, chars_of, contains_seq,
    is_white_space, lemma_parse_decimal, occurs_at, parse_usize, parse_usize_seq, string_of, trim_chars,
    trim_end_seq, trim_seq, trim_start_seq,
};

verus! {

/// The built-in menu: empty, so that the menu comes from menu.csv or the
/// database.
pub fn default_menu<M>() -> (r: Vec<MenuItem<M>>)
    ensures
        r@.len() == 0,
{
    Vec::new()
}

// ---------------------------------------------------------------------------
// CSV documents
// ---------------------------------------------------------------------------

/// What the `csv` crate reads from a document whose first record is a header:
/// the header fields and the records, or `None` when the document is malformed.
pub uninterp spec fn csv_document(data: Seq<u8>) -> Option<(Seq<Seq<char>>, Seq<Seq<Seq<char>>>)>;

/// What the `csv` crate writes for a list of records.
pub uninterp spec fn csv_encoding(rows: Seq<Seq<Seq<char>>>) -> Seq<u8>;

/// The records of a well-formed CSV document (empty when it is malformed).
pub open spec fn csv_records_of(data: Seq<u8>) -> Seq<Seq<Seq<char>>> {
    match csv_document(data) {
        Some(t) => t.1,
        None => Seq::empty(),
    }
}

/// The header fields of a well-formed CSV document (empty when it is malformed).
pub open spec fn csv_header_of(data: Seq<u8>) -> Seq<Seq<char>> {
    match csv_document(data) {
        Some(t) => t.0,
        None => Seq::empty(),
    }
}

/// Reads a CSV document with `csv::ReaderBuilder` (first record taken as
/// header); returns the header fields and the records, or the reader's error
/// text. The result is named `csv_document`.
#[verifier::external_body]
pub(crate) fn csv_read(data: &[u8]) -> (r: Result<(Vec<String>, Vec<Vec<String>>), String>)
    ensures
        r is Ok <==> csv_document(data@) is Some,
        r matches Ok(t) ==> csv_document(data@) == Some((t.0.deep_view(), t.1.deep_view())),
{
    let mut rdr = csv::ReaderBuilder::new().has_headers(true).from_reader(data);
    let header = rdr.headers().map_err(|e| e.to_string())?;
    let headers: Vec<String> = header.iter().map(|h| h.to_string()).collect();
    let mut rows: Vec<Vec<String>> = Vec::new();
    for rec in rdr.records() {
        rows.push(rec.map_err(|e| e.to_string())?.iter().map(|f| f.to_string()).collect());
    }
    Ok((headers, rows))
}

/// Records that the `csv` writer writes so that the reader gives them back:
/// at least one record, every record as long as the first and not empty, and
/// the first field not starting with a byte-order mark (which the reader
/// strips from the start of a document).
pub open spec fn csv_round_trips(rows: Seq<Seq<Seq<char>>>) -> bool {
    &&& rows.len() >= 1
    &&& rows[0].len() >= 1
    &&& forall|i: int| 0 <= i < rows.len() ==> #[trigger] rows[i].len() == rows[0].len()
    &&& !(rows[0][0].len() > 0 && rows[0][0][0] == '\u{feff}')
}

/// Writes records with `csv::Writer` into bytes; on success the bytes are
/// named `csv_encoding` of the records. As the crate's source shows, the
/// writer (not flexible) fails only on an error of the underlying writer or on
/// a record whose field count differs from the first record's; writing into a
/// `Vec<u8>` never fails, so records of equal length are always written.
/// The writer quotes every field that holds the delimiter, the quote, a
/// carriage return or a line feed, doubles quotes inside quoted fields, and
/// quotes a lone empty field; so the reader (first record as header, same
/// defaults) reads back the header and the other records unchanged, which
/// the third clause states for records of `csv_round_trips`.
#[verifier::external_body]
pub(crate) fn csv_write(rows: &Vec<Vec<String>>) -> (r: Result<Vec<u8>, String>)
    ensures
        r matches Ok(b) ==> b@ == csv_encoding(rows.deep_view()),
        (forall|i: int|
            0 <= i < rows.deep_view().len() ==> #[trigger] rows.deep_view()[i].len() == rows.deep_view()[0].len())
            ==> r is Ok,
        r matches Ok(b) ==> (csv_round_trips(rows.deep_view()) ==> csv_document(b@) == Some(
            (rows.deep_view()[0], rows.deep_view().drop_first()),
        )),
{
    let mut wtr = csv::Writer::from_writer(Vec::new());
    for row in rows {
        wtr.write_record(row).map_err(|e| e.to_string())?;
    }
    wtr.into_inner().map_err(|e| e.to_string())
}

/// Field `i` of a record, trimmed; empty when the record is shorter.
pub open spec fn field(rec: Seq<Seq<char>>, i: int) -> Seq<char> {
    if 0 <= i < rec.len() {
        trim_seq(rec[i])
    } else {
        Seq::empty()
    }
}

/// Trimmed field `i` of a record.
pub fn get_field(rec: &Vec<String>, i: usize) -> (r: String)
    ensures
        r@ == field(rec.deep_view(), i as int),
{
    if i < rec.len() {
        let v = chars_of(rec[i].as_str());
        let t = trim_chars(&v);
        string_of(&t)
    } else {
        String::new()
    }
}

/// A yes-like flag: "yes", "y", "1" or "true" (lowercased).
pub open spec fn yes_word(s: Seq<char>) -> bool {
    s == "yes"@ || s == "y"@ || s == "1"@ || s == "true"@
}

/// Whether `s` (already lowercased) is a yes-like flag.
pub fn is_yes_word(s: &Vec<char>) -> (r: bool)
    ensures
        r == yes_word(s@),
{
    let yes = chars_of("yes");
    let y = chars_of("y");
    let one = chars_of("1");
    let t = chars_of("true");
    chars_eq(s, &yes) || chars_eq(s, &y) || chars_eq(s, &one) || chars_eq(s, &t)
}

/// A table count read from text: the number, or 1 when it does not parse, never below 1.
pub open spec fn table_count_of(s: Seq<char>) -> nat {
    match parse_usize_seq(s) {
        Some(n) => if n >= 1 {
            n
        } else {
            1
        },
        None => 1,
    }
}

/// Reads a table count.
pub fn parse_table_count(s: &str) -> (r: usize)
    ensures
        r as nat == table_count_of(s@),
{
    match parse_usize(s) {
        Some(n) => if n >= 1 {
            n
        } else {
            1
        },
        None => 1,
    }
}

// ---------------------------------------------------------------------------
// table.csv
// ---------------------------------------------------------------------------

/// Which columns of `table.csv` hold the name, the count and the AC flag,
/// found from the header: later columns win.
pub open spec fn table_columns(headers: Seq<Seq<char>>) -> (nat, nat, Option<nat>)
    decreases headers.len(),
{
    if headers.len() == 0 {
        (0, 1, None)
    } else {
        let (n, c, a) = table_columns(headers.drop_last());
        let i = (headers.len() - 1) as nat;
        let norm = ascii_lower_seq(trim_seq(headers.last()));
        if contains_seq(norm, "type"@) || contains_seq(norm, "area"@) || contains_seq(
            norm,
            "section"@,
        ) {
            (i, c, a)
        } else if contains_seq(norm, "count"@) || contains_seq(norm, "tables"@) || contains_seq(
            norm,
            "qty"@,
        ) {
            (n, i, a)
        } else if contains_seq(norm, "ac"@) {
            (n, c, Some(i))
        } else {
            (n, c, a)
        }
    }
}

/// The area a `table.csv` record describes, when its name is not blank.
pub open spec fn table_row_area(rec: Seq<Seq<char>>, cols: (nat, nat, Option<nat>)) -> Option<
    (Seq<char>, bool, nat),
> {
    let name = field(rec, cols.0 as int);
    if name.len() == 0 {
        None
    } else {
        let is_ac = match cols.2 {
            Some(i) => yes_word(ascii_lower_seq(field(rec, i as int))),
            None => contains_seq(ascii_lower_seq(name), "ac"@),
        };
        Some((name, is_ac, table_count_of(field(rec, cols.1 as int))))
    }
}

/// The areas of a `table.csv` document, in record order.
pub open spec fn table_areas(rows: Seq<Seq<Seq<char>>>, cols: (nat, nat, Option<nat>)) -> Seq<
    (Seq<char>, bool, nat),
>
    decreases rows.len(),
{
    if rows.len() == 0 {
        Seq::empty()
    } else {
        let rest = table_areas(rows.drop_last(), cols);
        match table_row_area(rows.last(), cols) {
            Some(a) => rest.push(a),
            None => rest,
        }
    }
}

/// The (name, is_ac, table_count) of each area.
pub open spec fn area_keys(areas: Seq<Area>) -> Seq<(Seq<char>, bool, nat)> {
    areas.map_values(|a: Area| a.spec_key())
}

/// Finds the name, count and AC columns of `table.csv` from its header.
pub fn table_csv_columns(headers: &Vec<String>) -> (r: (usize, usize, Option<usize>))
    ensures
        (r.0 as nat, r.1 as nat, match r.2 {
            Some(i) => Some(i as nat),
            None => None,
        }) == table_columns(headers.deep_view()),
{
    let mut name_idx: usize = 0;
    let mut count_idx: usize = 1;
    let mut ac_idx: Option<usize> = None;
    let w_type = chars_of("type");
    let w_area = chars_of("area");
    let w_section = chars_of("section");
    let w_count = chars_of("count");
    let w_tables = chars_of("tables");
    let w_qty = chars_of("qty");
    let w_ac = chars_of("ac");
    let mut i: usize = 0;
    while i < headers.len()
        invariant
            i <= headers.len(),
            w_type@ == "type"@,
            w_area@ == "area"@,
            w_section@ == "section"@,
            w_count@ == "count"@,
            w_tables@ == "tables"@,
            w_qty@ == "qty"@,
            w_ac@ == "ac"@,
            (name_idx as nat, count_idx as nat, match ac_idx {
                Some(k) => Some(k as nat),
                None => None,
            }) == table_columns(headers.deep_view().subrange(0, i as int)),
        decreases headers.len() - i,
    {
        proof {
            assert(headers.deep_view().subrange(0, i + 1).drop_last() =~= headers.deep_view().subrange(
                0,
                i as int,
            ));
        }
        let v = chars_of(headers[i].as_str());
        let t = trim_chars(&v);
        let norm = ascii_lower_chars(&t);
        if chars_contains(&norm, &w_type) || chars_contains(&norm, &w_area) || chars_contains(
            &norm,
            &w_section,
        ) {
            name_idx = i;
        } else if chars_contains(&norm, &w_count) || chars_contains(&norm, &w_tables)
            || chars_contains(&norm, &w_qty) {
            count_idx = i;
        } else if chars_contains(&norm, &w_ac) {
            ac_idx = Some(i);
        }
        i = i + 1;
    }
    assert(headers.deep_view().subrange(0, headers.deep_view().len() as int) =~= headers.deep_view());
    (name_idx, count_idx, ac_idx)
}

/// The area a record describes, when its name is not blank.
pub fn table_row(rec: &Vec<String>, cols: (usize, usize, Option<usize>)) -> (r: Option<Area>)
    ensures
        match r {
            Some(a) => table_row_area(rec.deep_view(), (cols.0 as nat, cols.1 as nat, match cols.2 {
                Some(i) => Some(i as nat),
                None => None,
            })) == Some(a.spec_key()),
            None => table_row_area(rec.deep_view(), (cols.0 as nat, cols.1 as nat, match cols.2 {
                Some(i) => Some(i as nat),
                None => None,
            })) is None,
        },
{
    let name = get_field(rec, cols.0);
    if name.unicode_len() == 0 {
        return None;
    }
    let is_ac = match cols.2 {
        Some(i) => {
            let f = get_field(rec, i);
            let fv = chars_of(f.as_str());
            let lower = ascii_lower_chars(&fv);
            is_yes_word(&lower)
        },
        None => {
            let nv = chars_of(name.as_str());
            let lower = ascii_lower_chars(&nv);
            let ac = chars_of("ac");
            chars_contains(&lower, &ac)
        },
    };
    let count_text = get_field(rec, cols.1);
    let table_count = parse_table_count(count_text.as_str());
    Some(Area { name, is_ac, table_count })
}

/// Reads dining areas from the bytes of `table.csv`. Column headers are
/// matched loosely ("Table Type"/"Area"/"Section", "Count"/"Tables"/"Qty",
/// "IsAC"/"AC"); records with a blank name are skipped; a count that does not
/// parse counts as 1 and counts never go below 1; without an AC column an
/// area is AC when its name contains "ac".
pub fn load_table_csv(data: &[u8]) -> (r: Result<Vec<Area>, String>)
    ensures
        r is Ok <==> csv_document(data@) is Some,
        r matches Ok(areas) ==> area_keys(areas@) == table_areas(
            csv_records_of(data@),
            table_columns(csv_header_of(data@)),
        ),
{
    let (headers, rows) = csv_read(data)?;
    let cols = table_csv_columns(&headers);
    let ghost scols = table_columns(headers.deep_view());
    let mut areas: Vec<Area> = Vec::new();
    let mut i: usize = 0;
    while i < rows.len()
        invariant
            i <= rows.len(),
            scols == (cols.0 as nat, cols.1 as nat, match cols.2 {
                Some(k) => Some(k as nat),
                None => None,
            }),
            area_keys(areas@) == table_areas(rows.deep_view().subrange(0, i as int), scols),
        decreases rows.len() - i,
    {
        proof {
            assert(rows.deep_view().subrange(0, i + 1).drop_last() =~= rows.deep_view().subrange(
                0,
                i as int,
            ));
            assert(rows.deep_view()[i as int] == rows[i as int].deep_view());
        }
        match table_row(&rows[i], cols) {
            Some(a) => {
                areas.push(a);
            },
            None => {},
        }
        i = i + 1;
        assert(area_keys(areas@) =~= table_areas(rows.deep_view().subrange(0, i as int), scols));
    }
    assert(rows.deep_view().subrange(0, rows.deep_view().len() as int) =~= rows.deep_view());
    Ok(areas)
}

// ---------------------------------------------------------------------------
// areas.csv
// ---------------------------------------------------------------------------

/// The area an `areas.csv` record (name, AC flag, count) describes.
pub open spec fn areas_row_area(rec: Seq<Seq<char>>) -> Option<(Seq<char>, bool, nat)> {
    let name = field(rec, 0);
    if name.len() == 0 {
        None
    } else {
        Some((name, yes_word(ascii_lower_seq(field(rec, 1))), table_count_of(field(rec, 2))))
    }
}

/// The areas of an `areas.csv` document, in record order.
pub open spec fn areas_of_rows(rows: Seq<Seq<Seq<char>>>) -> Seq<(Seq<char>, bool, nat)>
    decreases rows.len(),
{
    if rows.len() == 0 {
        Seq::empty()
    } else {
        let rest = areas_of_rows(rows.drop_last());
        match areas_row_area(rows.last()) {
            Some(a) => rest.push(a),
            None => rest,
        }
    }
}

/// Reads dining areas from the bytes of `areas.csv` (columns: name, AC flag,
/// table count); blank names are skipped, counts default to and never go below 1.
pub fn load_areas_csv(data: &[u8]) -> (r: Result<Vec<Area>, String>)
    ensures
        r is Ok <==> csv_document(data@) is Some,
        r matches Ok(areas) ==> area_keys(areas@) == areas_of_rows(csv_records_of(data@)),
{
    let (_headers, rows) = csv_read(data)?;
    let mut areas: Vec<Area> = Vec::new();
    let mut i: usize = 0;
    while i < rows.len()
        invariant
            i <= rows.len(),
            area_keys(areas@) == areas_of_rows(rows.deep_view().subrange(0, i as int)),
        decreases rows.len() - i,
    {
        proof {
            assert(rows.deep_view().subrange(0, i + 1).drop_last() =~= rows.deep_view().subrange(
                0,
                i as int,
            ));
            assert(rows.deep_view()[i as int] == rows[i as int].deep_view());
        }
        let name = get_field(&rows[i], 0);
        if name.unicode_len() > 0 {
            let f = get_field(&rows[i], 1);
            let fv = chars_of(f.as_str());
            let lower = ascii_lower_chars(&fv);
            let is_ac = is_yes_word(&lower);
            let c = get_field(&rows[i], 2);
            let table_count = parse_table_count(c.as_str());
            areas.push(Area { name, is_ac, table_count });
        }
        i = i + 1;
        assert(area_keys(areas@) =~= areas_of_rows(rows.deep_view().subrange(0, i as int)));
    }
    assert(rows.deep_view().subrange(0, rows.deep_view().len() as int) =~= rows.deep_view());
    Ok(areas)
}

/// The records of `table.csv` for a list of areas (header first).
pub open spec fn table_csv_records(areas: Seq<Area>) -> Seq<Seq<Seq<char>>> {
    seq![seq!["Table Type"@, "Count"@, "IsAC"@]] + areas.map_values(
        |a: Area|
            seq![a.name@, crate::text::decimal_seq(a.table_count as nat), if a.is_ac {
                "yes"@
            } else {
                "no"@
            }],
    )
}

/// The records of `areas.csv` for a list of areas (header first).
pub open spec fn areas_csv_records(areas: Seq<Area>) -> Seq<Seq<Seq<char>>> {
    seq![seq!["Area"@, "IsAC"@, "TableCount"@]] + areas.map_values(
        |a: Area|
            seq![a.name@, if a.is_ac {
                "yes"@
            } else {
                "no"@
            }, crate::text::decimal_seq(a.table_count as nat)],
    )
}

/// A record of three fields.
fn record3(a: String, b: String, c: String) -> (r: Vec<String>)
    ensures
        r.deep_view() == seq![a@, b@, c@],
{
    let mut r: Vec<String> = Vec::new();
    r.push(a);
    r.push(b);
    r.push(c);
    assert(r.deep_view() =~= seq![a@, b@, c@]);
    r
}

/// The CSV bytes of `table.csv` for the given areas, and the number of areas
/// written; reading the bytes back gives the header and one record per area.
pub fn export_table_csv(areas: &[Area]) -> (r: Result<(Vec<u8>, usize), String>)
    ensures
        r matches Ok(t) && t.0@ == csv_encoding(table_csv_records(areas@)) && t.1 == areas@.len()
            && csv_document(t.0@) == Some(
            (table_csv_records(areas@)[0], table_csv_records(areas@).drop_first()),
        ),
{
    let mut rows: Vec<Vec<String>> = Vec::new();
    rows.push(record3(
        String::from_str("Table Type"),
        String::from_str("Count"),
        String::from_str("IsAC"),
    ));
    let mut i: usize = 0;
    while i < areas.len()
        invariant
            i <= areas.len(),
            rows.deep_view() == table_csv_records(areas@.subrange(0, i as int)),
        decreases areas.len() - i,
    {
        let flag = if areas[i].is_ac {
            String::from_str("yes")
        } else {
            String::from_str("no")
        };
        let ghost prev = rows.deep_view();
        rows.push(record3(areas[i].name.clone(), crate::text::decimal(areas[i].table_count as u64), flag));
        proof {
            assert(rows.deep_view() =~= prev.push(rows.deep_view().last()));
            assert(areas@.subrange(0, i + 1) =~= areas@.subrange(0, i as int).push(areas@[i as int]));
        }
        i = i + 1;
        assert(rows.deep_view() =~= table_csv_records(areas@.subrange(0, i as int)));
    }
    assert(areas@.subrange(0, areas@.len() as int) =~= areas@);
    assert forall|k: int| 0 <= k < rows.deep_view().len() implies #[trigger] rows.deep_view()[k].len()
        == rows.deep_view()[0].len() by {
        assert(rows.deep_view()[k].len() == 3);
        assert(rows.deep_view()[0].len() == 3);
    }
    proof {
        reveal_strlit("Table Type");
        assert(csv_round_trips(rows.deep_view()));
    }
    let bytes = csv_write(&rows)?;
    Ok((bytes, areas.len()))
}

/// An area that `table.csv` and `areas.csv` carry unchanged: a name that is not blank and
/// has no White_Space around it, and at least one table.
pub open spec fn area_keeps_in_csv(a: Area) -> bool {
    a.name@.len() > 0 && trim_seq(a.name@) == a.name@ && a.table_count >= 1
}

/// The record of `table.csv` for one area.
pub open spec fn table_csv_row(a: Area) -> Seq<Seq<char>> {
    seq![a.name@, crate::text::decimal_seq(a.table_count as nat), if a.is_ac {
        "yes"@
    } else {
        "no"@
    }]
}

proof fn lemma_trim_unchanged(s: Seq<char>)
    requires
        s.len() > 0,
        !is_white_space(s[0]),
        !is_white_space(s.last()),
    ensures
        trim_seq(s) == s,
{
    assert(trim_start_seq(s) == s);
    assert(trim_end_seq(s) == s);
}

proof fn lemma_absent(h: Seq<char>, n: Seq<char>)
    requires
        n.len() > 0,
        forall|i: int| 0 <= i && i + n.len() <= h.len() ==> #[trigger] h[i] != n[0],
    ensures
        !contains_seq(h, n),
{
    assert forall|i: int| !occurs_at(h, n, i) by {
        if occurs_at(h, n, i) {
            assert(h.subrange(i, i + n.len())[0] == n[0]);
            assert(h[i] == n[0]);
        }
    }
}

/// The columns that `table_columns` finds in the header `export_table_csv` writes.
proof fn lemma_table_header_columns()
    ensures
        table_columns(table_csv_records(Seq::<Area>::empty())[0]) == (0nat, 1nat, Some(2nat)),
{
    reveal_strlit("Table Type");
    reveal_strlit("Count");
    reveal_strlit("IsAC");
    reveal_strlit("type");
    reveal_strlit("area");
    reveal_strlit("section");
    reveal_strlit("count");
    reveal_strlit("tables");
    reveal_strlit("qty");
    reveal_strlit("ac");
    let h = table_csv_records(Seq::<Area>::empty())[0];
    assert(h == seq!["Table Type"@, "Count"@, "IsAC"@]);
    lemma_trim_unchanged("Table Type"@);
    lemma_trim_unchanged("Count"@);
    lemma_trim_unchanged("IsAC"@);
    let n0 = ascii_lower_seq(trim_seq(h[0]));
    let n1 = ascii_lower_seq(trim_seq(h[1]));
    let n2 = ascii_lower_seq(trim_seq(h[2]));
    assert(n0 =~= seq!['t', 'a', 'b', 'l', 'e', ' ', 't', 'y', 'p', 'e']);
    assert(n1 =~= seq!['c', 'o', 'u', 'n', 't']);
    assert(n2 =~= seq!['i', 's', 'a', 'c']);
    assert(occurs_at(n0, "type"@, 6)) by {
        assert(n0.subrange(6, 10) =~= "type"@);
    }
    assert(occurs_at(n1, "count"@, 0)) by {
        assert(n1.subrange(0, 5) =~= "count"@);
    }
    assert(occurs_at(n2, "ac"@, 2)) by {
        assert(n2.subrange(2, 4) =~= "ac"@);
    }
    lemma_absent(n1, "type"@);
    lemma_absent(n1, "area"@);
    lemma_absent(n1, "section"@);
    lemma_absent(n2, "type"@);
    lemma_absent(n2, "area"@);
    lemma_absent(n2, "section"@);
    lemma_absent(n2, "count"@);
    lemma_absent(n2, "tables"@);
    lemma_absent(n2, "qty"@);
    let h1 = seq![h[0]];
    let h2 = seq![h[0], h[1]];
    assert(h1.drop_last() =~= Seq::<Seq<char>>::empty());
    assert(h2.drop_last() =~= h1);
    assert(h.drop_last() =~= h2);
    assert(table_columns(Seq::<Seq<char>>::empty()) == (0nat, 1nat, None::<nat>));
    assert(table_columns(h1) == (0nat, 1nat, None::<nat>));
    assert(table_columns(h2) == (0nat, 1nat, None::<nat>));
}

/// The record `export_table_csv` writes for an area that `table.csv` carries
/// unchanged reads back as that area.
proof fn lemma_table_row_reads_back(a: Area)
    requires
        area_keeps_in_csv(a),
    ensures
        table_row_area(table_csv_row(a), (0nat, 1nat, Some(2nat))) == Some(a.spec_key()),
{
    reveal_strlit("yes");
    reveal_strlit("no");
    reveal_strlit("y");
    reveal_strlit("1");
    reveal_strlit("true");
    let rec = table_csv_row(a);
    lemma_parse_decimal(a.table_count);
    lemma_trim_unchanged("yes"@);
    lemma_trim_unchanged("no"@);
    assert(ascii_lower_seq("yes"@) =~= "yes"@);
    assert(ascii_lower_seq("no"@) =~= "no"@);
    assert(field(rec, 0) == a.name@);
    assert(field(rec, 1) == crate::text::decimal_seq(a.table_count as nat));
    assert(table_count_of(field(rec, 1)) == a.table_count as nat);
    if a.is_ac {
        assert(field(rec, 2) == "yes"@);
        assert(yes_word(ascii_lower_seq(field(rec, 2))));
    } else {
        assert(field(rec, 2) == "no"@);
        assert(!yes_word(ascii_lower_seq(field(rec, 2))));
    }
}

proof fn lemma_table_rows_read_back(areas: Seq<Area>)
    requires
        forall|k: int| 0 <= k < areas.len() ==> area_keeps_in_csv(#[trigger] areas[k]),
    ensures
        table_areas(areas.map_values(|a: Area| table_csv_row(a)), (0nat, 1nat, Some(2nat))) == area_keys(
            areas,
        ),
    decreases areas.len(),
{
    if areas.len() > 0 {
        let rows = areas.map_values(|a: Area| table_csv_row(a));
        assert(rows.drop_last() =~= areas.drop_last().map_values(|a: Area| table_csv_row(a)));
        lemma_table_rows_read_back(areas.drop_last());
        lemma_table_row_reads_back(areas.last());
        assert(area_keys(areas) =~= area_keys(areas.drop_last()).push(areas.last().spec_key()));
    } else {
        assert(area_keys(areas) =~= Seq::<(Seq<char>, bool, nat)>::empty());
    }
}

/// Reading back what `export_table_csv` writes gives the same areas in the
/// same order, each with its name, table count and AC flag, provided every
/// area has a name that is not blank and has no White_Space around it, and at
/// least one table.
pub proof fn lemma_table_csv_round_trip(data: Seq<u8>, areas: Seq<Area>)
    requires
        csv_document(data) == Some((table_csv_records(areas)[0], table_csv_records(areas).drop_first())),
        forall|k: int| 0 <= k < areas.len() ==> area_keeps_in_csv(#[trigger] areas[k]),
    ensures
        table_areas(csv_records_of(data), table_columns(csv_header_of(data))) == area_keys(areas),
{
    lemma_table_header_columns();
    assert(table_csv_records(areas)[0] == table_csv_records(Seq::<Area>::empty())[0]);
    assert(table_csv_records(areas).drop_first() =~= areas.map_values(|a: Area| table_csv_row(a)));
    lemma_table_rows_read_back(areas);
}

/// The CSV bytes of `areas.csv` for the given areas, and the number of areas written.
pub fn export_areas_csv(areas: &[Area]) -> (r: Result<(Vec<u8>, usize), String>)
    ensures
        r matches Ok(t) && t.0@ == csv_encoding(areas_csv_records(areas@)) && t.1 == areas@.len()
            && csv_document(t.0@) == Some(
            (areas_csv_records(areas@)[0], areas_csv_records(areas@).drop_first()),
        ),
{
    let mut rows: Vec<Vec<String>> = Vec::new();
    rows.push(record3(
        String::from_str("Area"),
        String::from_str("IsAC"),
        String::from_str("TableCount"),
    ));
    let mut i: usize = 0;
    while i < areas.len()
        invariant
            i <= areas.len(),
            rows.deep_view() == areas_csv_records(areas@.subrange(0, i as int)),
        decreases areas.len() - i,
    {
        let flag = if areas[i].is_ac {
            String::from_str("yes")
        } else {
            String::from_str("no")
        };
        let ghost prev = rows.deep_view();
        rows.push(record3(areas[i].name.clone(), flag, crate::text::decimal(areas[i].table_count as u64)));
        proof {
            assert(rows.deep_view() =~= prev.push(rows.deep_view().last()));
            assert(areas@.subrange(0, i + 1) =~= areas@.subrange(0, i as int).push(areas@[i as int]));
        }
        i = i + 1;
        assert(rows.deep_view() =~= areas_csv_records(areas@.subrange(0, i as int)));
    }
    assert(areas@.subrange(0, areas@.len() as int) =~= areas@);
    assert forall|k: int| 0 <= k < rows.deep_view().len() implies #[trigger] rows.deep_view()[k].len()
        == rows.deep_view()[0].len() by {
        assert(rows.deep_view()[k].len() == 3);
        assert(rows.deep_view()[0].len() == 3);
    }
    proof {
        reveal_strlit("Area");
        assert(csv_round_trips(rows.deep_view()));
    }
    let bytes = csv_write(&rows)?;
    Ok((bytes, areas.len()))
}

/// The record of `areas.csv` for one area.
pub open spec fn areas_csv_row(a: Area) -> Seq<Seq<char>> {
    seq![a.name@, if a.is_ac {
        "yes"@
    } else {
        "no"@
    }, crate::text::decimal_seq(a.table_count as nat)]
}

proof fn lemma_areas_rows_read_back(areas: Seq<Area>)
    requires
        forall|k: int| 0 <= k < areas.len() ==> area_keeps_in_csv(#[trigger] areas[k]),
    ensures
        areas_of_rows(areas.map_values(|a: Area| areas_csv_row(a))) == area_keys(areas),
    decreases areas.len(),
{
    reveal_strlit("yes");
    reveal_strlit("no");
    reveal_strlit("y");
    reveal_strlit("1");
    reveal_strlit("true");
    if areas.len() > 0 {
        let rows = areas.map_values(|a: Area| areas_csv_row(a));
        assert(rows.drop_last() =~= areas.drop_last().map_values(|a: Area| areas_csv_row(a)));
        lemma_areas_rows_read_back(areas.drop_last());
        let a = areas.last();
        let rec = areas_csv_row(a);
        lemma_parse_decimal(a.table_count);
        lemma_trim_unchanged("yes"@);
        lemma_trim_unchanged("no"@);
        assert(ascii_lower_seq("yes"@) =~= "yes"@);
        assert(ascii_lower_seq("no"@) =~= "no"@);
        assert(field(rec, 0) == a.name@);
        assert(table_count_of(field(rec, 2)) == a.table_count as nat);
        if a.is_ac {
            assert(yes_word(ascii_lower_seq(field(rec, 1))));
        } else {
            assert(!yes_word(ascii_lower_seq(field(rec, 1))));
        }
        assert(areas_row_area(rec) == Some(a.spec_key()));
        assert(area_keys(areas) =~= area_keys(areas.drop_last()).push(a.spec_key()));
    } else {
        assert(area_keys(areas) =~= Seq::<(Seq<char>, bool, nat)>::empty());
    }
}

/// Reading back what `export_areas_csv` writes gives the same areas in the
/// same order, each with its name, AC flag and table count, provided every
/// area has a name that is not blank and has no White_Space around it, and at
/// least one table.
pub proof fn lemma_areas_csv_round_trip(data: Seq<u8>, areas: Seq<Area>)
    requires
        csv_document(data) == Some((areas_csv_records(areas)[0], areas_csv_records(areas).drop_first())),
        forall|k: int| 0 <= k < areas.len() ==> area_keeps_in_csv(#[trigger] areas[k]),
    ensures
        areas_of_rows(csv_records_of(data)) == area_keys(areas),
{
    assert(areas_csv_records(areas).drop_first() =~= areas.map_values(|a: Area| areas_csv_row(a)));
    lemma_areas_rows_read_back(areas);
}

/// A record of two fields.
fn record2(a: String, b: String) -> (r: Vec<String>)
    ensures
        r.deep_view() == seq![a@, b@],
{
    let mut r: Vec<String> = Vec::new();
    r.push(a);
    r.push(b);
    assert(r.deep_view() =~= seq![a@, b@]);
    r
}

/// The records of `menu.csv` (header first) for rows of category, name, unit
/// and price text.
pub open spec fn menu_csv_records(rows: Seq<(String, String, String, String)>) -> Seq<Seq<Seq<char>>> {
    seq![seq!["Category"@, "Item Name"@, "Unit"@, "Price"@]] + rows.map_values(
        |r: (String, String, String, String)| seq![r.0@, r.1@, r.2@, r.3@],
    )
}

/// The CSV bytes of `menu.csv` for rows of category, name, unit and price
/// text, and the number of rows written.
pub fn export_menu_csv(rows: &[(String, String, String, String)]) -> (r: Result<(Vec<u8>, usize), String>)
    ensures
        r matches Ok(t) && t.0@ == csv_encoding(menu_csv_records(rows@)) && t.1 == rows@.len(),
{
    let mut recs: Vec<Vec<String>> = Vec::new();
    let mut head: Vec<String> = Vec::new();
    head.push(String::from_str("Category"));
    head.push(String::from_str("Item Name"));
    head.push(String::from_str("Unit"));
    head.push(String::from_str("Price"));
    assert(head.deep_view() =~= seq!["Category"@, "Item Name"@, "Unit"@, "Price"@]);
    recs.push(head);
    let mut i: usize = 0;
    while i < rows.len()
        invariant
            i <= rows.len(),
            recs.deep_view() == menu_csv_records(rows@.subrange(0, i as int)),
        decreases rows.len() - i,
    {
        let mut rec: Vec<String> = Vec::new();
        rec.push(rows[i].0.clone());
        rec.push(rows[i].1.clone());
        rec.push(rows[i].2.clone());
        rec.push(rows[i].3.clone());
        let ghost prev = recs.deep_view();
        proof {
            let r = rows@[i as int];
            assert(rec.deep_view() =~= seq![r.0@, r.1@, r.2@, r.3@]);
        }
        recs.push(rec);
        proof {
            assert(recs.deep_view() =~= prev.push(recs.deep_view().last()));
            assert(rows@.subrange(0, i + 1) =~= rows@.subrange(0, i as int).push(rows@[i as int]));
        }
        i = i + 1;
        assert(recs.deep_view() =~= menu_csv_records(rows@.subrange(0, i as int)));
    }
    assert(rows@.subrange(0, rows@.len() as int) =~= rows@);
    assert forall|k: int| 0 <= k < recs.deep_view().len() implies #[trigger] recs.deep_view()[k].len()
        == recs.deep_view()[0].len() by {
        assert(recs.deep_view()[k].len() == 4);
        assert(recs.deep_view()[0].len() == 4);
    }
    let bytes = csv_write(&recs)?;
    Ok((bytes, rows.len()))
}

/// The records of `offers.csv` (header first) for rows of name and
/// percentage text.
pub open spec fn offers_csv_records(rows: Seq<(String, String)>) -> Seq<Seq<Seq<char>>> {
    seq![seq!["Name"@, "DiscountPercent"@]] + rows.map_values(|r: (String, String)| seq![r.0@, r.1@])
}

/// The CSV bytes of `offers.csv` for rows of name and percentage text, and
/// the number of rows written.
pub fn export_offers_csv(rows: &[(String, String)]) -> (r: Result<(Vec<u8>, usize), String>)
    ensures
        r matches Ok(t) && t.0@ == csv_encoding(offers_csv_records(rows@)) && t.1 == rows@.len(),
{
    let mut recs: Vec<Vec<String>> = Vec::new();
    recs.push(record2(String::from_str("Name"), String::from_str("DiscountPercent")));
    let mut i: usize = 0;
    while i < rows.len()
        invariant
            i <= rows.len(),
            recs.deep_view() == offers_csv_records(rows@.subrange(0, i as int)),
        decreases rows.len() - i,
    {
        let ghost prev = recs.deep_view();
        recs.push(record2(rows[i].0.clone(), rows[i].1.clone()));
        proof {
            assert(recs.deep_view() =~= prev.push(recs.deep_view().last()));
            assert(rows@.subrange(0, i + 1) =~= rows@.subrange(0, i as int).push(rows@[i as int]));
        }
        i = i + 1;
        assert(recs.deep_view() =~= offers_csv_records(rows@.subrange(0, i as int)));
    }
    assert(rows@.subrange(0, rows@.len() as int) =~= rows@);
    assert forall|k: int| 0 <= k < recs.deep_view().len() implies #[trigger] recs.deep_view()[k].len()
        == recs.deep_view()[0].len() by {
        assert(recs.deep_view()[k].len() == 2);
        assert(recs.deep_view()[0].len() == 2);
    }
    let bytes = csv_write(&recs)?;
    Ok((bytes, rows.len()))
}

/// The records of `config.csv`: a Key/Value header, then the restaurant
/// name, address, contact, GST number, AC rate text and UPI id.
pub open spec fn config_csv_records(
    name: Seq<char>,
    address: Seq<char>,
    contact: Seq<char>,
    gst: Seq<char>,
    ac_rate_text: Seq<char>,
    upi: Seq<char>,
) -> Seq<Seq<Seq<char>>> {
    seq![
        seq!["Key"@, "Value"@],
        seq!["RestaurantName"@, name],
        seq!["Address"@, address],
        seq!["Contact"@, contact],
        seq!["GSTNumber"@, gst],
        seq!["AcRate"@, ac_rate_text],
        seq!["UpiId"@, upi],
    ]
}

/// The CSV bytes of `config.csv` for the given settings (the AC rate already
/// written as text).
pub fn export_config_csv(
    name: &str,
    address: &str,
    contact: &str,
    gst: &str,
    ac_rate_text: &str,
    upi: &str,
) -> (r: Result<Vec<u8>, String>)
    ensures
        r matches Ok(b) && b@ == csv_encoding(config_csv_records(name@, address@, contact@, gst@, ac_rate_text@, upi@))
            && csv_document(b@) == Some(
            (
                config_csv_records(name@, address@, contact@, gst@, ac_rate_text@, upi@)[0],
                config_csv_records(name@, address@, contact@, gst@, ac_rate_text@, upi@).drop_first(),
            ),
        ),
{
    let mut recs: Vec<Vec<String>> = Vec::new();
    recs.push(record2(String::from_str("Key"), String::from_str("Value")));
    recs.push(record2(String::from_str("RestaurantName"), String::from_str(name)));
    recs.push(record2(String::from_str("Address"), String::from_str(address)));
    recs.push(record2(String::from_str("Contact"), String::from_str(contact)));
    recs.push(record2(String::from_str("GSTNumber"), String::from_str(gst)));
    recs.push(record2(String::from_str("AcRate"), String::from_str(ac_rate_text)));
    recs.push(record2(String::from_str("UpiId"), String::from_str(upi)));
    assert(recs.deep_view() =~= config_csv_records(name@, address@, contact@, gst@, ac_rate_text@, upi@));
    assert forall|k: int| 0 <= k < recs.deep_view().len() implies #[trigger] recs.deep_view()[k].len()
        == recs.deep_view()[0].len() by {
        assert(recs.deep_view()[k].len() == 2);
    }
    proof {
        reveal_strlit("Key");
        assert(csv_round_trips(recs.deep_view()));
    }
    csv_write(&recs)
}

/// Reading back the settings of a `config.csv` that `export_config_csv`
/// wrote gives each setting under its key, with the White_Space around it
/// trimmed.
pub proof fn lemma_config_csv_round_trip(
    data: Seq<u8>,
    name: Seq<char>,
    address: Seq<char>,
    contact: Seq<char>,
    gst: Seq<char>,
    ac_rate_text: Seq<char>,
    upi: Seq<char>,
)
    requires
        csv_document(data) == Some(
            (
                config_csv_records(name, address, contact, gst, ac_rate_text, upi)[0],
                config_csv_records(name, address, contact, gst, ac_rate_text, upi).drop_first(),
            ),
        ),
    ensures
        config_lookup(csv_records_of(data), "RestaurantName"@) == Some(trim_seq(name)),
        config_lookup(csv_records_of(data), "Address"@) == Some(trim_seq(address)),
        config_lookup(csv_records_of(data), "Contact"@) == Some(trim_seq(contact)),
        config_lookup(csv_records_of(data), "GSTNumber"@) == Some(trim_seq(gst)),
        config_lookup(csv_records_of(data), "AcRate"@) == Some(trim_seq(ac_rate_text)),
        config_lookup(csv_records_of(data), "UpiId"@) == Some(trim_seq(upi)),
        forall|k: Seq<char>|
            !config_csv_keys().contains(k) ==> #[trigger] config_lookup(csv_records_of(data), k) is None,
{
    reveal_strlit("RestaurantName");
    reveal_strlit("Address");
    reveal_strlit("Contact");
    reveal_strlit("GSTNumber");
    reveal_strlit("AcRate");
    reveal_strlit("UpiId");
    lemma_trim_unchanged("RestaurantName"@);
    lemma_trim_unchanged("Address"@);
    lemma_trim_unchanged("Contact"@);
    lemma_trim_unchanged("GSTNumber"@);
    lemma_trim_unchanged("AcRate"@);
    lemma_trim_unchanged("UpiId"@);
    let rows = csv_records_of(data);
    assert(rows =~= seq![
        seq!["RestaurantName"@, name],
        seq!["Address"@, address],
        seq!["Contact"@, contact],
        seq!["GSTNumber"@, gst],
        seq!["AcRate"@, ac_rate_text],
        seq!["UpiId"@, upi],
    ]);
    assert("Address"@ != "Contact"@) by {
        assert("Address"@[0] != "Contact"@[0]);
    }
    let r5 = rows.drop_last();
    let r4 = r5.drop_last();
    let r3 = r4.drop_last();
    let r2 = r3.drop_last();
    let r1 = r2.drop_last();
    assert(r1.drop_last() =~= Seq::<Seq<Seq<char>>>::empty());
    assert(r1.last() == seq!["RestaurantName"@, name]);
    assert(r2.last() == seq!["Address"@, address]);
    assert(r3.last() == seq!["Contact"@, contact]);
    assert(r4.last() == seq!["GSTNumber"@, gst]);
    assert(r5.last() == seq!["AcRate"@, ac_rate_text]);
    assert(rows.last() == seq!["UpiId"@, upi]);
    reveal_with_fuel(config_lookup, 7);
    assert forall|k: Seq<char>| !config_csv_keys().contains(k) implies #[trigger] config_lookup(
        csv_records_of(data),
        k,
    ) is None by {
        assert(config_csv_keys()[0] == "RestaurantName"@);
        assert(config_csv_keys()[1] == "Address"@);
        assert(config_csv_keys()[2] == "Contact"@);
        assert(config_csv_keys()[3] == "GSTNumber"@);
        assert(config_csv_keys()[4] == "AcRate"@);
        assert(config_csv_keys()[5] == "UpiId"@);
    }
}

/// The six keys of the settings that `export_config_csv` writes.
pub open spec fn config_csv_keys() -> Seq<Seq<char>> {
    seq!["RestaurantName"@, "Address"@, "Contact"@, "GSTNumber"@, "AcRate"@, "UpiId"@]
}

/// A settings map with distinct keys holds as many entries as there are
/// keys under which it has a value.
pub proof fn lemma_config_map_len(m: ConfigMap, keys: Seq<Seq<char>>)
    requires
        m.keys_distinct(),
        keys.no_duplicates(),
        forall|k: Seq<char>| (#[trigger] m.lookup(k) is Some) <==> keys.contains(k),
    ensures
        m.entries@.len() == keys.len(),
{
    let ev = entries_view(m.entries@);
    let ek = ev.map_values(|p: (Seq<char>, Seq<char>)| p.0);
    assert(ek.no_duplicates()) by {
        assert forall|i: int, j: int| 0 <= i < ek.len() && 0 <= j < ek.len() && i != j implies ek[i] != ek[j] by {
            if i < j {
                assert(m.entries@[i].0@ != m.entries@[j].0@);
            } else {
                assert(m.entries@[j].0@ != m.entries@[i].0@);
            }
        }
    }
    assert forall|k: Seq<char>| ek.contains(k) <==> keys.contains(k) by {
        lemma_key_index(ev, k);
        if ek.contains(k) {
            let i = choose|i: int| 0 <= i < ek.len() && ek[i] == k;
            assert(ev[i].0 == k);
            assert(m.lookup(k) is Some);
        }
        if m.lookup(k) is Some {
            let i = key_index(ev, k)->0;
            assert(ek[i] == k);
        }
    }
    assert(ek.to_set() =~= keys.to_set());
    ek.unique_seq_to_set();
    keys.unique_seq_to_set();
}

/// Reading back a `config.csv` that `export_config_csv` wrote with
/// `load_config_csv` gives a map of exactly six settings, each under its key
/// with the White_Space around it trimmed.
pub proof fn lemma_config_csv_map(
    m: ConfigMap,
    data: Seq<u8>,
    name: Seq<char>,
    address: Seq<char>,
    contact: Seq<char>,
    gst: Seq<char>,
    ac_rate_text: Seq<char>,
    upi: Seq<char>,
)
    requires
        csv_document(data) == Some(
            (
                config_csv_records(name, address, contact, gst, ac_rate_text, upi)[0],
                config_csv_records(name, address, contact, gst, ac_rate_text, upi).drop_first(),
            ),
        ),
        m.keys_distinct(),
        forall|k: Seq<char>| #[trigger] m.lookup(k) == config_lookup(csv_records_of(data), k),
    ensures
        m.entries@.len() == 6,
        m.lookup("RestaurantName"@) == Some(trim_seq(name)),
        m.lookup("Address"@) == Some(trim_seq(address)),
        m.lookup("Contact"@) == Some(trim_seq(contact)),
        m.lookup("GSTNumber"@) == Some(trim_seq(gst)),
        m.lookup("AcRate"@) == Some(trim_seq(ac_rate_text)),
        m.lookup("UpiId"@) == Some(trim_seq(upi)),
{
    lemma_config_csv_round_trip(data, name, address, contact, gst, ac_rate_text, upi);
    reveal_strlit("RestaurantName");
    reveal_strlit("Address");
    reveal_strlit("Contact");
    reveal_strlit("GSTNumber");
    reveal_strlit("AcRate");
    reveal_strlit("UpiId");
    let keys = config_csv_keys();
    assert(keys.no_duplicates()) by {
        assert(keys[0].len() == 14 && keys[1].len() == 7 && keys[2].len() == 7 && keys[3].len() == 9
            && keys[4].len() == 6 && keys[5].len() == 5);
        assert(keys[1][0] != keys[2][0]);
        assert forall|i: int, j: int| 0 <= i < keys.len() && 0 <= j < keys.len() && i != j implies keys[i]
            != keys[j] by {
            if keys[i] == keys[j] {
                assert(keys[i].len() == keys[j].len());
                assert(keys[i][0] == keys[j][0]);
            }
        }
    }
    assert forall|k: Seq<char>| (#[trigger] m.lookup(k) is Some) <==> keys.contains(k) by {
        if keys.contains(k) {
            let i = choose|i: int| 0 <= i < keys.len() && keys[i] == k;
            assert(i == 0 || i == 1 || i == 2 || i == 3 || i == 4 || i == 5);
        }
    }
    lemma_config_map_len(m, keys);
}

// ---------------------------------------------------------------------------
// menu.csv and offers.csv rows
// ---------------------------------------------------------------------------

/// A record of `menu.csv` with a name; the price is left as text for the
/// caller's number type.
#[derive(Clone, Debug)]
pub struct MenuRow {
    pub category: String,
    pub name: String,
    pub unit: String,
    pub price_text: String,
    pub is_available: bool,
}

/// A menu item is available unless its fifth column says "no", "false", "0"
/// or "out" (in any ASCII case); without a fifth column it is available.
pub open spec fn availability_of(rec: Seq<Seq<char>>) -> bool {
    if rec.len() > 4 {
        let v = ascii_lower_seq(trim_seq(rec[4]));
        !(v == "no"@ || v == "false"@ || v == "0"@ || v == "out"@)
    } else {
        true
    }
}

/// Reads the availability column of a menu record.
pub fn menu_availability(rec: &Vec<String>) -> (r: bool)
    ensures
        r == availability_of(rec.deep_view()),
{
    if rec.len() > 4 {
        let v = chars_of(rec[4].as_str());
        let t = trim_chars(&v);
        let l = ascii_lower_chars(&t);
        let no = chars_of("no");
        let f = chars_of("false");
        let z = chars_of("0");
        let out = chars_of("out");
        !(chars_eq(&l, &no) || chars_eq(&l, &f) || chars_eq(&l, &z) || chars_eq(&l, &out))
    } else {
        true
    }
}

/// The named records of `menu.csv` (category, name, unit, price text,
/// availability), in record order.
pub open spec fn menu_rows_of(rows: Seq<Seq<Seq<char>>>) -> Seq<(Seq<char>, Seq<char>, Seq<char>, Seq<char>, bool)>
    decreases rows.len(),
{
    if rows.len() == 0 {
        Seq::empty()
    } else {
        let rest = menu_rows_of(rows.drop_last());
        let r = rows.last();
        if field(r, 1).len() == 0 {
            rest
        } else {
            rest.push((field(r, 0), field(r, 1), field(r, 2), field(r, 3), availability_of(r)))
        }
    }
}

/// The view of a menu row.
pub open spec fn menu_row_key(m: MenuRow) -> (Seq<char>, Seq<char>, Seq<char>, Seq<char>, bool) {
    (m.category@, m.name@, m.unit@, m.price_text@, m.is_available)
}

/// Reads the named records of `menu.csv`; rows without a name are skipped.
pub fn load_menu_rows(data: &[u8]) -> (r: Result<Vec<MenuRow>, String>)
    ensures
        r is Ok <==> csv_document(data@) is Some,
        r matches Ok(items) ==> items@.map_values(|m: MenuRow| menu_row_key(m)) == menu_rows_of(
            csv_records_of(data@),
        ),
{
    let (_headers, rows) = csv_read(data)?;
    let mut items: Vec<MenuRow> = Vec::new();
    let mut i: usize = 0;
    while i < rows.len()
        invariant
            i <= rows.len(),
            items@.map_values(|m: MenuRow| menu_row_key(m)) == menu_rows_of(
                rows.deep_view().subrange(0, i as int),
            ),
        decreases rows.len() - i,
    {
        proof {
            assert(rows.deep_view().subrange(0, i + 1).drop_last() =~= rows.deep_view().subrange(
                0,
                i as int,
            ));
            assert(rows.deep_view()[i as int] == rows[i as int].deep_view());
        }
        let name = get_field(&rows[i], 1);
        if name.unicode_len() > 0 {
            let category = get_field(&rows[i], 0);
            let unit = get_field(&rows[i], 2);
            let price_text = get_field(&rows[i], 3);
            let is_available = menu_availability(&rows[i]);
            items.push(MenuRow { category, name, unit, price_text, is_available });
        }
        i = i + 1;
        assert(items@.map_values(|m: MenuRow| menu_row_key(m)) =~= menu_rows_of(
            rows.deep_view().subrange(0, i as int),
        ));
    }
    assert(rows.deep_view().subrange(0, rows.deep_view().len() as int) =~= rows.deep_view());
    Ok(items)
}

/// The named records of `offers.csv` (name, percentage text).
pub open spec fn offer_rows_of(rows: Seq<Seq<Seq<char>>>) -> Seq<(Seq<char>, Seq<char>)>
    decreases rows.len(),
{
    if rows.len() == 0 {
        Seq::empty()
    } else {
        let rest = offer_rows_of(rows.drop_last());
        let r = rows.last();
        if field(r, 0).len() == 0 {
            rest
        } else {
            rest.push((field(r, 0), field(r, 1)))
        }
    }
}

/// Reads the named records of `offers.csv` as (name, percentage text).
pub fn load_offer_rows(data: &[u8]) -> (r: Result<Vec<(String, String)>, String>)
    ensures
        r is Ok <==> csv_document(data@) is Some,
        r matches Ok(items) ==> items@.map_values(|p: (String, String)| (p.0@, p.1@))
            == offer_rows_of(csv_records_of(data@)),
{
    let (_headers, rows) = csv_read(data)?;
    let mut items: Vec<(String, String)> = Vec::new();
    let mut i: usize = 0;
    while i < rows.len()
        invariant
            i <= rows.len(),
            items@.map_values(|p: (String, String)| (p.0@, p.1@)) == offer_rows_of(
                rows.deep_view().subrange(0, i as int),
            ),
        decreases rows.len() - i,
    {
        proof {
            assert(rows.deep_view().subrange(0, i + 1).drop_last() =~= rows.deep_view().subrange(
                0,
                i as int,
            ));
            assert(rows.deep_view()[i as int] == rows[i as int].deep_view());
        }
        let name = get_field(&rows[i], 0);
        if name.unicode_len() > 0 {
            let pct = get_field(&rows[i], 1);
            items.push((name, pct));
        }
        i = i + 1;
        assert(items@.map_values(|p: (String, String)| (p.0@, p.1@)) =~= offer_rows_of(
            rows.deep_view().subrange(0, i as int),
        ));
    }
    assert(rows.deep_view().subrange(0, rows.deep_view().len() as int) =~= rows.deep_view());
    Ok(items)
}

// ---------------------------------------------------------------------------
// config.csv
// ---------------------------------------------------------------------------

/// Key/value settings, in the order the keys were first inserted; inserting an
/// existing key replaces its value.
#[derive(Clone, Debug)]
pub struct ConfigMap {
    pub entries: Vec<(String, String)>,
}

/// The (key, value) views of the entries.
pub open spec fn entries_view(e: Seq<(String, String)>) -> Seq<(Seq<char>, Seq<char>)> {
    e.map_values(|p: (String, String)| (p.0@, p.1@))
}

/// Index of the first entry with key `k`.
pub open spec fn key_index(e: Seq<(Seq<char>, Seq<char>)>, k: Seq<char>) -> Option<int>
    decreases e.len(),
{
    if e.len() == 0 {
        None
    } else if e.last().0 == k && key_index(e.drop_last(), k) is None {
        Some(e.len() - 1)
    } else {
        key_index(e.drop_last(), k)
    }
}

pub proof fn lemma_key_index(e: Seq<(Seq<char>, Seq<char>)>, k: Seq<char>)
    ensures
        key_index(e, k) matches Some(i) ==> 0 <= i < e.len() && e[i].0 == k && forall|j: int|
            0 <= j < i ==> e[j].0 != k,
        key_index(e, k) is None ==> forall|j: int| 0 <= j < e.len() ==> e[j].0 != k,
    decreases e.len(),
{
    if e.len() > 0 {
        let d = e.drop_last();
        lemma_key_index(d, k);
        assert(forall|j: int| 0 <= j < d.len() ==> d[j] == e[j]);
    }
}

pub proof fn lemma_key_index_is(e: Seq<(Seq<char>, Seq<char>)>, k: Seq<char>, i: int)
    requires
        0 <= i < e.len(),
        e[i].0 == k,
        forall|j: int| 0 <= j < i ==> e[j].0 != k,
    ensures
        key_index(e, k) == Some(i),
    decreases e.len(),
{
    lemma_key_index(e, k);
    let d = e.drop_last();
    assert(forall|j: int| 0 <= j < d.len() ==> d[j] == e[j]);
    if i < e.len() - 1 {
        lemma_key_index_is(d, k, i);
    } else {
        lemma_key_index(d, k);
    }
}

impl ConfigMap {
    /// The value stored under `k`.
    pub open spec fn lookup(self, k: Seq<char>) -> Option<Seq<char>> {
        match key_index(entries_view(self.entries@), k) {
            Some(i) => Some(entries_view(self.entries@)[i].1),
            None => None,
        }
    }

    /// No key occurs twice.
    pub open spec fn keys_distinct(self) -> bool {
        forall|i: int, j: int|
            0 <= i < j < self.entries@.len() ==> self.entries@[i].0@ != self.entries@[j].0@
    }

    pub fn new() -> (m: ConfigMap)
        ensures
            m.entries@.len() == 0,
            m.keys_distinct(),
    {
        ConfigMap { entries: Vec::new() }
    }

    /// Index of the entry with key `k`.
    pub fn find(&self, k: &str) -> (r: Option<usize>)
        ensures
            r matches Some(i) ==> key_index(entries_view(self.entries@), k@) == Some(i as int),
            r is None ==> key_index(entries_view(self.entries@), k@) is None,
    {
        let kv = chars_of(k);
        let mut i: usize = 0;
        while i < self.entries.len()
            invariant
                i <= self.entries@.len(),
                kv@ == k@,
                forall|j: int| 0 <= j < i ==> entries_view(self.entries@)[j].0 != k@,
            decreases self.entries.len() - i,
        {
            let ev = chars_of(self.entries[i].0.as_str());
            if chars_eq(&ev, &kv) {
                proof {
                    lemma_key_index_is(entries_view(self.entries@), k@, i as int);
                }
                return Some(i);
            }
            i = i + 1;
        }
        proof {
            lemma_key_index(entries_view(self.entries@), k@);
            if key_index(entries_view(self.entries@), k@) is Some {
                let q = key_index(entries_view(self.entries@), k@)->0;
                assert(entries_view(self.entries@)[q].0 != k@);
            }
        }
        None
    }

    /// The value stored under `k`.
    pub fn get(&self, k: &str) -> (r: Option<String>)
        ensures
            match r {
                Some(v) => self.lookup(k@) == Some(v@),
                None => self.lookup(k@) is None,
            },
    {
        match self.find(k) {
            Some(i) => {
                proof {
                    lemma_key_index(entries_view(self.entries@), k@);
                }
                Some(self.entries[i].1.clone())
            },
            None => None,
        }
    }

    /// Stores `v` under `k`, replacing an earlier value.
    pub fn insert(&mut self, k: String, v: String)
        requires
            old(self).keys_distinct(),
        ensures
            final(self).keys_distinct(),
            final(self).lookup(k@) == Some(v@),
            forall|q: Seq<char>| q != k@ ==> #[trigger] final(self).lookup(q) == old(self).lookup(q),
    {
        let ghost kv = k@;
        match self.find(k.as_str()) {
            Some(i) => {
                proof {
                    lemma_key_index(entries_view(self.entries@), kv);
                }
                let ghost pre = self.entries@;
                self.entries.set(i, (k, v));
                proof {
                    assert(entries_view(self.entries@) =~= entries_view(pre).update(i as int, (kv, v@)));
                    lemma_key_index_is(entries_view(self.entries@), kv, i as int);
                    assert forall|q: Seq<char>| q != kv implies #[trigger] self.lookup(q) == old(self).lookup(q) by {
                        lemma_key_index(entries_view(pre), q);
                        lemma_key_index(entries_view(self.entries@), q);
                        match key_index(entries_view(pre), q) {
                            Some(w) => {
                                lemma_key_index_is(entries_view(self.entries@), q, w);
                            },
                            None => {
                                if key_index(entries_view(self.entries@), q) is Some {
                                    let w = key_index(entries_view(self.entries@), q)->0;
                                    assert(entries_view(pre)[w].0 != q);
                                }
                            },
                        }
                    }
                }
            },
            None => {
                proof {
                    lemma_key_index(entries_view(self.entries@), kv);
                }
                let ghost pre = self.entries@;
                self.entries.push((k, v));
                proof {
                    assert(entries_view(self.entries@) =~= entries_view(pre).push((kv, v@)));
                    lemma_key_index_is(entries_view(self.entries@), kv, pre.len() as int);
                    assert forall|q: Seq<char>| q != kv implies #[trigger] self.lookup(q) == old(self).lookup(q) by {
                        lemma_key_index(entries_view(pre), q);
                        lemma_key_index(entries_view(self.entries@), q);
                        match key_index(entries_view(pre), q) {
                            Some(w) => {
                                lemma_key_index_is(entries_view(self.entries@), q, w);
                            },
                            None => {
                                if key_index(entries_view(self.entries@), q) is Some {
                                    let w = key_index(entries_view(self.entries@), q)->0;
                                    if w < pre.len() {
                                        assert(entries_view(pre)[w].0 != q);
                                    }
                                }
                            },
                        }
                    }
                    assert forall|i: int, j: int| 0 <= i < j < self.entries@.len()
                        implies self.entries@[i].0@ != self.entries@[j].0@ by {
                        if j == pre.len() {
                            assert(entries_view(pre)[i].0 != kv);
                        }
                    }
                }
            },
        }
    }
}

/// The settings of `config.csv`: each record's trimmed first field is a key,
/// its trimmed second field the value; blank keys are skipped and later
/// records replace earlier ones.
pub open spec fn config_lookup(rows: Seq<Seq<Seq<char>>>, k: Seq<char>) -> Option<Seq<char>>
    decreases rows.len(),
{
    if rows.len() == 0 {
        None
    } else if field(rows.last(), 0).len() > 0 && field(rows.last(), 0) == k {
        Some(field(rows.last(), 1))
    } else {
        config_lookup(rows.drop_last(), k)
    }
}

/// Reads the settings of `config.csv` from its bytes.
pub fn load_config_csv(data: &[u8]) -> (r: Result<ConfigMap, String>)
    ensures
        r is Ok <==> csv_document(data@) is Some,
        r matches Ok(m) ==> m.keys_distinct() && forall|k: Seq<char>|
            #[trigger] m.lookup(k) == config_lookup(csv_records_of(data@), k),
{
    let (_headers, rows) = csv_read(data)?;
    let mut map = ConfigMap::new();
    let mut i: usize = 0;
    while i < rows.len()
        invariant
            i <= rows.len(),
            map.keys_distinct(),
            forall|k: Seq<char>|
                #[trigger] map.lookup(k) == config_lookup(rows.deep_view().subrange(0, i as int), k),
        decreases rows.len() - i,
    {
        proof {
            assert(rows.deep_view().subrange(0, i + 1).drop_last() =~= rows.deep_view().subrange(
                0,
                i as int,
            ));
            assert(rows.deep_view()[i as int] == rows[i as int].deep_view());
        }
        let key = get_field(&rows[i], 0);
        let value = get_field(&rows[i], 1);
        if key.unicode_len() > 0 {
            map.insert(key, value);
        }
        i = i + 1;
        assert forall|k: Seq<char>| #[trigger] map.lookup(k) == config_lookup(
            rows.deep_view().subrange(0, i as int),
            k,
        ) by {
            assert(rows.deep_view().subrange(0, i as int).last() == rows.deep_view()[i - 1]);
        }
    }
    assert(rows.deep_view().subrange(0, rows.deep_view().len() as int) =~= rows.deep_view());
    Ok(map)
}

} // verus!
