//! Delimited text tables: the framing of the data file and of the result
//! file.
//!
//! The `csv` crate splits bytes into records and joins fields into a line.
//! What it returns is named, not described, by `csv_header`, `csv_records`
//! and `csv_line`. The rules on top of it are proved here: a table is a
//! header and rows of the header's width, the first row of another width is
//! reported by its position, and so is the first field that is not a number.

use vstd::prelude::*;
use crate::text::{text_rows, texts};

verus! {

/// The header record that `csv` reads from `bytes`, field by field, or
/// `None` where it reports an error.
pub uninterp spec fn csv_header(bytes: Seq<u8>, delimiter: u8) -> Option<Seq<Seq<char>>>;

/// The records after the header that `csv` reads from `bytes`, or `None`
/// where it reports an error on one of them.
pub uninterp spec fn csv_records(bytes: Seq<u8>, delimiter: u8) -> Option<Seq<Seq<Seq<char>>>>;

/// The bytes that `csv` writes for one record, terminator included, or
/// `None` where it reports an error.
pub uninterp spec fn csv_line(fields: Seq<Seq<char>>, delimiter: u8) -> Option<Seq<u8>>;

/// `csv::Reader::headers` on a reader over `bytes` with the given delimiter,
/// a header row, and records of any length allowed: the fields of the first
/// record.
#[verifier::external_body]
fn read_header(bytes: &Vec<u8>, delimiter: u8) -> (r: Option<Vec<String>>)
    ensures
        r matches Some(h) ==> csv_header(bytes@, delimiter) == Some(texts(h@)),
        r is None ==> csv_header(bytes@, delimiter) is None,
{
    let mut reader = csv::ReaderBuilder::new()
        .has_headers(true)
        .flexible(true)
        .delimiter(delimiter)
        .from_reader(bytes.as_slice());
    match reader.headers() {
        Ok(header) => Some(header.iter().map(String::from).collect()),
        Err(_) => None,
    }
}

/// `csv::Reader::records` on a reader over `bytes` with the given delimiter,
/// a header row, and records of any length allowed: every record after the
/// header, in order.
#[verifier::external_body]
fn read_records(bytes: &Vec<u8>, delimiter: u8) -> (r: Option<Vec<Vec<String>>>)
    ensures
        r matches Some(rows) ==> csv_records(bytes@, delimiter) == Some(text_rows(rows@)),
        r is None ==> csv_records(bytes@, delimiter) is None,
{
    let mut reader = csv::ReaderBuilder::new()
        .has_headers(true)
        .flexible(true)
        .delimiter(delimiter)
        .from_reader(bytes.as_slice());
    let mut rows = Vec::new();
    for record in reader.records() {
        match record {
            Ok(record) => rows.push(record.iter().map(String::from).collect()),
            Err(_) => return None,
        }
    }
    Some(rows)
}

/// `csv::Writer::write_record` on a fresh writer with the given delimiter:
/// the bytes of one record.
#[verifier::external_body]
fn write_line(fields: &Vec<String>, delimiter: u8) -> (r: Option<Vec<u8>>)
    ensures
        r matches Some(line) ==> csv_line(texts(fields@), delimiter) == Some(line@),
        r is None ==> csv_line(texts(fields@), delimiter) is None,
{
    let mut writer = csv::WriterBuilder::new().delimiter(delimiter).from_writer(Vec::new());
    match writer.write_record(fields.iter()) {
        Ok(()) => writer.into_inner().ok(),
        Err(_) => None,
    }
}

/// Why a table was refused.
#[derive(Clone, Copy, Debug, PartialEq, Eq)]
pub enum TableError {
    /// The bytes are not delimited text that `csv` accepts.
    Malformed,
    /// Row `row` (counted from zero, the header not counted) has `found`
    /// fields where `expected` are due.
    Ragged { row: usize, expected: usize, found: usize },
    /// The field in row `row` and column `col`, both counted from zero, is
    /// not a number.
    NotNumeric { row: usize, col: usize },
}

/// A header and the rows below it.
#[derive(Debug)]
pub struct Table {
    pub header: Vec<String>,
    pub rows: Vec<Vec<String>>,
}

impl Table {
    /// Every row has one field per header field.
    pub open spec fn wf(&self) -> bool {
        forall|i: int| 0 <= i < self.rows.len() ==> (#[trigger] self.rows[i]).len() == self.header.len()
    }
}

/// `i` is the first row whose length is not `width`.
pub open spec fn is_first_ragged<T>(rows: Seq<Seq<T>>, width: nat, i: int) -> bool {
    &&& 0 <= i < rows.len()
    &&& rows[i].len() != width
    &&& forall|l: int| 0 <= l < i ==> (#[trigger] rows[l]).len() == width
}

/// What becomes of a header `h` and rows `rs`: a table of exactly these
/// texts where every row is as wide as the header, and otherwise the
/// position and the length of the first row that is not.
pub open spec fn is_table_result(
    h: Seq<Seq<char>>,
    rs: Seq<Seq<Seq<char>>>,
    r: Result<Table, TableError>,
) -> bool {
    match r {
        Ok(t) => {
            &&& texts(t.header@) == h
            &&& text_rows(t.rows@) == rs
            &&& t.wf()
        },
        Err(TableError::Ragged { row, expected, found }) => {
            &&& is_first_ragged(rs, h.len(), row as int)
            &&& expected == h.len()
            &&& found == rs[row as int].len()
        },
        Err(_) => false,
    }
}

/// Makes a table of a header and rows, or reports the first row that is not
/// as wide as the header.
pub fn check_shape(header: Vec<String>, rows: Vec<Vec<String>>) -> (r: Result<Table, TableError>)
    ensures
        is_table_result(texts(header@), text_rows(rows@), r),
        r matches Ok(t) ==> t.header == header && t.rows == rows,
{
    let width = header.len();
    let n = rows.len();
    let mut i: usize = 0;
    while i < n
        invariant
            i <= n,
            n == rows.len(),
            width == header.len(),
            forall|l: int| 0 <= l < i ==> (#[trigger] rows[l]).len() == width,
        decreases n - i,
    {
        if rows[i].len() != width {
            let found = rows[i].len();
            return Err(TableError::Ragged { row: i, expected: width, found });
        }
        i = i + 1;
    }
    Ok(Table { header, rows })
}

/// Reads delimited text with a header row.
///
/// The bytes are split by `csv`; where it reports an error the result is
/// `Malformed`. Otherwise the result is the table of the header and the
/// records it found, or `Ragged` for the first record that is not as wide as
/// the header.
pub fn read_csv(bytes: &Vec<u8>, delimiter: u8) -> (r: Result<Table, TableError>)
    ensures
        match (csv_header(bytes@, delimiter), csv_records(bytes@, delimiter)) {
            (Some(h), Some(rs)) => is_table_result(h, rs, r),
            _ => r matches Err(e) && e == TableError::Malformed,
        },
{
    let header = match read_header(bytes, delimiter) {
        Some(header) => header,
        None => {
            return Err(TableError::Malformed);
        },
    };
    let rows = match read_records(bytes, delimiter) {
        Some(rows) => rows,
        None => {
            return Err(TableError::Malformed);
        },
    };
    check_shape(header, rows)
}

/// `(row, col)` is the first cell, row by row and left to right, that holds
/// no number.
pub open spec fn is_first_gap(cells: Seq<Vec<Option<u64>>>, row: int, col: int) -> bool {
    &&& 0 <= row < cells.len()
    &&& 0 <= col < cells[row].len()
    &&& cells[row][col] is None
    &&& forall|c: int| 0 <= c < col ==> #[trigger] cells[row][c] is Some
    &&& forall|r: int, c: int|
        0 <= r < row && 0 <= c < cells[r].len() ==> #[trigger] cells[r][c] is Some
}

/// Takes the numbers out of a table of parsed fields, where `None` stands
/// for a field that did not parse.
///
/// Returns the numbers, cell for cell, when every field parsed. Otherwise
/// reports `NotNumeric` with the row and column of the first field, row by
/// row and left to right, that did not.
pub fn require_numeric(cells: &Vec<Vec<Option<u64>>>) -> (r: Result<Vec<Vec<u64>>, TableError>)
    ensures
        match r {
            Ok(values) => {
                &&& values.len() == cells.len()
                &&& forall|i: int|
                    0 <= i < cells.len() ==> (#[trigger] values[i]).len() == cells[i].len()
                &&& forall|i: int, j: int|
                    0 <= i < cells.len() && 0 <= j < cells[i].len() ==> cells[i][j] == Some(
                        #[trigger] values[i][j],
                    )
            },
            Err(TableError::NotNumeric { row, col }) => is_first_gap(cells@, row as int, col as int),
            Err(_) => false,
        },
{
    let n = cells.len();
    let mut values: Vec<Vec<u64>> = Vec::new();
    let mut i: usize = 0;
    while i < n
        invariant
            i <= n,
            n == cells.len(),
            values.len() == i,
            forall|r: int| 0 <= r < i ==> (#[trigger] values[r]).len() == cells[r].len(),
            forall|r: int, c: int|
                0 <= r < i && 0 <= c < cells[r].len() ==> cells[r][c] == Some(
                    #[trigger] values[r][c],
                ),
        decreases n - i,
    {
        let width = cells[i].len();
        let mut line: Vec<u64> = Vec::new();
        let mut j: usize = 0;
        while j < width
            invariant
                i < n,
                n == cells.len(),
                j <= width,
                width == cells[i as int].len(),
                line.len() == j,
                values.len() == i,
                forall|c: int| 0 <= c < j ==> cells[i as int][c] == Some(#[trigger] line[c]),
                forall|r: int, c: int|
                    0 <= r < i && 0 <= c < cells[r].len() ==> cells[r][c] == Some(
                        #[trigger] values[r][c],
                    ),
            decreases width - j,
        {
            match cells[i][j] {
                Some(v) => {
                    line.push(v);
                },
                None => {
                    proof {
                        assert forall|c: int| 0 <= c < j implies #[trigger] cells[i as int][c] is Some by {
                            assert(cells[i as int][c] == Some(line[c]));
                        }
                        assert forall|r: int, c: int|
                            0 <= r < i && 0 <= c < cells[r].len() implies #[trigger] cells[r][c] is Some by {
                            assert(cells[r][c] == Some(values[r][c]));
                        }
                    }
                    return Err(TableError::NotNumeric { row: i, col: j });
                },
            }
            j = j + 1;
        }
        values.push(line);
        i = i + 1;
    }
    Ok(values)
}

/// All lines one after another.
pub open spec fn joined(lines: Seq<Seq<u8>>) -> Seq<u8>
    decreases lines.len(),
{
    if lines.len() == 0 {
        Seq::empty()
    } else {
        joined(lines.drop_last()) + lines.last()
    }
}

/// The bytes of each line of a vector.
pub open spec fn line_bytes(v: Seq<Vec<u8>>) -> Seq<Seq<u8>> {
    Seq::new(v.len(), |i: int| v[i]@)
}

/// Concatenates lines into one byte string.
pub fn join_lines(lines: &Vec<Vec<u8>>) -> (r: Vec<u8>)
    ensures
        r@ == joined(line_bytes(lines@)),
{
    let n = lines.len();
    let mut out: Vec<u8> = Vec::new();
    let mut i: usize = 0;
    while i < n
        invariant
            i <= n,
            n == lines.len(),
            out@ == joined(line_bytes(lines@).take(i as int)),
        decreases n - i,
    {
        let line = &lines[i];
        let ghost before = out@;
        let mut j: usize = 0;
        while j < line.len()
            invariant
                j <= line.len(),
                out@ == before + line@.take(j as int),
            decreases line.len() - j,
        {
            out.push(line[j]);
            j = j + 1;
        }
        proof {
            let all = line_bytes(lines@);
            assert(all.take(i + 1).drop_last() =~= all.take(i as int));
        }
        i = i + 1;
    }
    assert(line_bytes(lines@).take(n as int) =~= line_bytes(lines@));
    out
}

/// What becomes of the rows of a result file: `Ragged` for the first row
/// that is not as wide as the first one, else `Malformed` where `csv`
/// refuses a row, else the lines that `csv` writes for the rows, one after
/// another.
pub open spec fn is_encoding(
    rows: Seq<Seq<Seq<char>>>,
    delimiter: u8,
    r: Result<Vec<u8>, TableError>,
) -> bool {
    match r {
        Ok(bytes) => {
            &&& forall|i: int| 0 <= i < rows.len() ==> (#[trigger] rows[i]).len() == rows[0].len()
            &&& forall|i: int| 0 <= i < rows.len() ==> csv_line(#[trigger] rows[i], delimiter) is Some
            &&& bytes@ == joined(Seq::new(rows.len(), |i: int| csv_line(rows[i], delimiter).unwrap()))
        },
        Err(TableError::Ragged { row, expected, found }) => {
            &&& is_first_ragged(rows, rows[0].len(), row as int)
            &&& expected == rows[0].len()
            &&& found == rows[row as int].len()
        },
        Err(TableError::Malformed) => {
            &&& forall|i: int| 0 <= i < rows.len() ==> (#[trigger] rows[i]).len() == rows[0].len()
            &&& exists|i: int| 0 <= i < rows.len() && csv_line(#[trigger] rows[i], delimiter) is None
        },
        Err(_) => false,
    }
}

/// Writes rows of fields as delimited text, one line per row and no header.
///
/// All rows must be as wide as the first; the first that is not is reported
/// as `Ragged`. Each row is written by `csv`, and the result is the
/// concatenation of what it wrote.
pub fn to_csv(rows: &Vec<Vec<String>>, delimiter: u8) -> (r: Result<Vec<u8>, TableError>)
    ensures
        is_encoding(text_rows(rows@), delimiter, r),
{
    let n = rows.len();
    let ghost rs = text_rows(rows@);
    if n == 0 {
        let out: Vec<u8> = Vec::new();
        return Ok(out);
    }
    let width = rows[0].len();
    let mut i: usize = 0;
    while i < n
        invariant
            i <= n,
            0 < n == rows.len(),
            width == rows[0].len(),
            rs == text_rows(rows@),
            forall|l: int| 0 <= l < i ==> (#[trigger] rs[l]).len() == width,
        decreases n - i,
    {
        if rows[i].len() != width {
            let found = rows[i].len();
            return Err(TableError::Ragged { row: i, expected: width, found });
        }
        i = i + 1;
    }
    let mut lines: Vec<Vec<u8>> = Vec::new();
    let mut i: usize = 0;
    while i < n
        invariant
            i <= n,
            n == rows.len(),
            rs == text_rows(rows@),
            lines.len() == i,
            rs[0].len() == width,
            forall|l: int| 0 <= l < n ==> (#[trigger] rs[l]).len() == width,
            forall|l: int| 0 <= l < i ==> csv_line(#[trigger] rs[l], delimiter) == Some(lines[l]@),
        decreases n - i,
    {
        match write_line(&rows[i], delimiter) {
            Some(line) => {
                lines.push(line);
            },
            None => {
                assert(csv_line(rs[i as int], delimiter) is None);
                return Err(TableError::Malformed);
            },
        }
        i = i + 1;
    }
    let out = join_lines(&lines);
    assert(line_bytes(lines@) =~= Seq::new(rs.len(), |i: int| csv_line(rs[i], delimiter).unwrap()));
    Ok(out)
}

} // verus!
