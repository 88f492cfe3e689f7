//! The tabular query result and its printed form: one line per data row,
//! holding the row's first cell as a debug-quoted string.

use vstd::prelude::*;

use crate::err::QueryError;
use crate::parse::{cells_view, parse_table, rows_view, spec_parse_table};
use crate::request::check_status;

verus! {

/// The tabular result: ordered column names and ordered rows of cells,
/// each cell a byte string.
pub struct Table {
    pub columns: Vec<Vec<u8>>,
    pub data: Vec<Vec<Vec<u8>>>,
}

impl Table {
    /// The column names as a sequence of byte strings.
    pub open spec fn spec_columns(&self) -> Seq<Seq<u8>> {
        cells_view(self.columns@)
    }

    /// The data rows as a sequence of sequences of byte strings.
    pub open spec fn spec_rows(&self) -> Seq<Seq<Seq<u8>>> {
        rows_view(self.data@)
    }
}

/// Parses a response body into a table; a body the parser rejects is the
/// body error, and nothing else is.
pub fn parse_response(body: &[u8]) -> (r: Result<Table, QueryError>)
    ensures
        r is Ok <==> spec_parse_table(body@) is Some,
        r matches Ok(t) ==> Some((t.spec_columns(), t.spec_rows())) == spec_parse_table(body@),
        r matches Err(e) ==> e == QueryError::BadBody,
{
    match parse_table(body) {
        Some((c, d)) => Ok(Table { columns: c, data: d }),
        None => Err(QueryError::BadBody),
    }
}

/// The lowercase hexadecimal digit of a value below 16.
pub open spec fn spec_hex_digit(v: int) -> u8 {
    if v < 10 {
        (48 + v) as u8
    } else {
        (87 + v) as u8
    }
}

/// How one byte appears inside a debug-quoted string: quote, backslash
/// and the common control bytes get two-character escapes, the other
/// control bytes and delete a `\u{..}` escape, and everything else stands
/// as itself. Bytes above the ASCII range pass through unchanged, so a
/// character beyond ASCII that the debug form would escape (a non-printable
/// one such as U+0085) stands as its UTF-8 bytes instead.
pub open spec fn spec_escape_byte(b: u8) -> Seq<u8> {
    if b == 34 {
        seq![92u8, 34u8]
    } else if b == 92 {
        seq![92u8, 92u8]
    } else if b == 10 {
        seq![92u8, 110u8]
    } else if b == 13 {
        seq![92u8, 114u8]
    } else if b == 9 {
        seq![92u8, 116u8]
    } else if b < 32 || b == 127 {
        seq![92u8, 117u8, 123u8] + (if b < 16 {
            seq![spec_hex_digit(b as int)]
        } else {
            seq![spec_hex_digit(b as int / 16), spec_hex_digit(b as int % 16)]
        }) + seq![125u8]
    } else {
        seq![b]
    }
}

/// The escaped content of a debug-quoted string.
pub open spec fn spec_escape(s: Seq<u8>) -> Seq<u8>
    decreases s.len(),
{
    if s.len() == 0 {
        Seq::empty()
    } else {
        spec_escape(s.drop_last()) + spec_escape_byte(s.last())
    }
}

/// A cell as printed: wrapped in literal quotation marks, content escaped.
pub open spec fn spec_quote(s: Seq<u8>) -> Seq<u8> {
    seq![34u8] + spec_escape(s) + seq![34u8]
}

fn hex_digit(v: u8) -> (r: u8)
    requires
        v < 16,
    ensures
        r == spec_hex_digit(v as int),
{
    if v < 10 {
        48 + v
    } else {
        87 + v
    }
}

fn push_escape_byte(out: &mut Vec<u8>, b: u8)
    ensures
        final(out)@ == old(out)@ + spec_escape_byte(b),
{
    if b == 34 {
        out.push(92);
        out.push(34);
    } else if b == 92 {
        out.push(92);
        out.push(92);
    } else if b == 10 {
        out.push(92);
        out.push(110);
    } else if b == 13 {
        out.push(92);
        out.push(114);
    } else if b == 9 {
        out.push(92);
        out.push(116);
    } else if b < 32 || b == 127 {
        out.push(92);
        out.push(117);
        out.push(123);
        if b < 16 {
            out.push(hex_digit(b));
        } else {
            out.push(hex_digit(b / 16));
            out.push(hex_digit(b % 16));
        }
        out.push(125);
    } else {
        out.push(b);
    }
    assert(out@ =~= old(out)@ + spec_escape_byte(b));
}

/// Builds the debug-quoted form of one cell, exactly as `spec_quote`
/// states it.
pub fn quote_cell(cell: &[u8]) -> (r: Vec<u8>)
    ensures
        r@ == spec_quote(cell@),
{
    let mut out: Vec<u8> = Vec::new();
    out.push(34);
    assert(out@ =~= seq![34u8] + spec_escape(cell@.take(0)));
    let mut i: usize = 0;
    while i < cell.len()
        invariant
            0 <= i <= cell@.len(),
            out@ == seq![34u8] + spec_escape(cell@.take(i as int)),
        decreases cell@.len() - i,
    {
        push_escape_byte(&mut out, cell[i]);
        proof {
            assert(cell@.take(i as int + 1).drop_last() =~= cell@.take(i as int));
            assert(cell@.take(i as int + 1).last() == cell@[i as int]);
            assert(out@ =~= seq![34u8] + spec_escape(cell@.take(i as int + 1)));
        }
        i = i + 1;
    }
    out.push(34);
    proof {
        assert(cell@.take(cell@.len() as int) =~= cell@);
        assert(out@ =~= spec_quote(cell@));
    }
    out
}

/// Whether every row has at least one cell.
pub open spec fn all_rows_nonempty(rows: Seq<Seq<Seq<u8>>>) -> bool {
    forall|m: int| 0 <= m < rows.len() ==> rows[m].len() > 0
}

/// The printed lines of a row sequence: each row's first cell, quoted.
pub open spec fn spec_lines(rows: Seq<Seq<Seq<u8>>>) -> Seq<Seq<u8>> {
    Seq::new(rows.len(), |m: int| spec_quote(rows[m][0]))
}

/// One printed line per data row, in row order: the first cell,
/// debug-quoted. A row with no cells at all is fatal, and then nothing is
/// rendered.
pub fn render_titles(t: &Table) -> (r: Result<Vec<Vec<u8>>, QueryError>)
    ensures
        r is Ok <==> all_rows_nonempty(t.spec_rows()),
        r matches Ok(lines) ==> cells_view(lines@) == spec_lines(t.spec_rows()),
        r matches Err(e) ==> e == QueryError::EmptyRow,
{
    let mut lines: Vec<Vec<u8>> = Vec::new();
    let mut m: usize = 0;
    while m < t.data.len()
        invariant
            0 <= m <= t.data@.len(),
            lines@.len() == m,
            forall|k: int| 0 <= k < m ==> t.data@[k]@.len() > 0,
            forall|k: int| 0 <= k < m ==> lines@[k]@ == spec_quote(t.data@[k]@[0]@),
        decreases t.data@.len() - m,
    {
        let row: &Vec<Vec<u8>> = &t.data[m];
        if row.len() == 0 {
            proof {
                assert(rows_view(t.data@)[m as int].len() == 0);
                assert(!all_rows_nonempty(t.spec_rows()));
            }
            return Err(QueryError::EmptyRow);
        }
        let cell: &Vec<u8> = &row[0];
        let line = quote_cell(cell.as_slice());
        lines.push(line);
        m = m + 1;
    }
    proof {
        assert(cells_view(lines@) =~= spec_lines(t.spec_rows()));
    }
    Ok(lines)
}

/// Relies on `core::str::from_utf8`: `Ok` exactly when the bytes are
/// valid UTF-8.
#[verifier::external_body]
fn utf8_valid(b: &[u8]) -> (r: bool)
    ensures
        r == vstd::utf8::valid_utf8(b@),
{
    match core::str::from_utf8(b) {
        Ok(_) => true,
        Err(_) => false,
    }
}

/// The whole response pipeline: the status must be exactly 200, the body
/// must be valid UTF-8 and parse as a table, every data row must have a
/// first cell, and the result is the printed lines, in row order.
pub fn process_response(status: u16, body: &[u8]) -> (r: Result<Vec<Vec<u8>>, QueryError>)
    ensures
        status != 200 ==> r == Err::<Vec<Vec<u8>>, QueryError>(QueryError::BadStatus(status)),
        status == 200 && !vstd::utf8::valid_utf8(body@) ==> r == Err::<Vec<Vec<u8>>, QueryError>(
            QueryError::BadUtf8,
        ),
        status == 200 && vstd::utf8::valid_utf8(body@) && spec_parse_table(body@) is None ==> r
            == Err::<Vec<Vec<u8>>, QueryError>(QueryError::BadBody),
        status == 200 && vstd::utf8::valid_utf8(body@) && spec_parse_table(body@) is Some ==> {
            let q = spec_parse_table(body@).unwrap();
            &&& (r is Ok <==> all_rows_nonempty(q.1))
            &&& (r matches Ok(lines) ==> cells_view(lines@) == spec_lines(q.1))
            &&& (r matches Err(e) ==> e == QueryError::EmptyRow)
        },
{
    match check_status(status) {
        Ok(u) => u,
        Err(e) => {
            return Err(e);
        },
    };
    if !utf8_valid(body) {
        return Err(QueryError::BadUtf8);
    }
    let t = match parse_response(body) {
        Ok(t) => t,
        Err(e) => {
            return Err(e);
        },
    };
    proof {
        let q = spec_parse_table(body@).unwrap();
        assert(q.1 == t.spec_rows());
    }
    render_titles(&t)
}

} // verus!
