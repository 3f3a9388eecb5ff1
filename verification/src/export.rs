//! Export of the collected records to a single-sheet spreadsheet: a header
//! row, then one row per record in collection order, three text columns.
//! The worksheet is assembled here; the unverified binary pushes it into a
//! workbook and saves the file.

use vstd::prelude::*;
use crate::record::{models, Record, RecordModel};

verus! {

#[verifier::external_type_specification]
#[verifier::external_body]
pub struct ExWorksheet(rust_xlsxwriter::Worksheet);

#[verifier::external_type_specification]
#[verifier::external_body]
pub struct ExXlsxError(rust_xlsxwriter::XlsxError);

/// The cells a worksheet holds: the text of each written (row, column)
/// position.
pub uninterp spec fn sheet_cells(ws: rust_xlsxwriter::Worksheet) -> Map<(u32, u16), Seq<char>>;

/// A sheet with no cells.
pub open spec fn empty_sheet() -> Map<(u32, u16), Seq<char>> {
    Map::empty()
}

/// Relies on rust_xlsxwriter's `Worksheet::new`: a new worksheet holds no
/// cells.
#[verifier::external_body]
fn new_worksheet() -> (r: rust_xlsxwriter::Worksheet)
    ensures
        sheet_cells(r) == empty_sheet(),
{
    rust_xlsxwriter::Worksheet::new()
}

/// Relies on rust_xlsxwriter's `Worksheet::write_string`: an empty text is
/// ignored without being checked; a row at or past 1048576 or a column at or
/// past 16384 is refused, as is a text over 32767 characters; otherwise the
/// text becomes the cell's value.
#[verifier::external_body]
fn write_cell(ws: &mut rust_xlsxwriter::Worksheet, row: u32, col: u16, text: &str) -> (r: Result<
    (),
    rust_xlsxwriter::XlsxError,
>)
    ensures
        r is Ok <==> (text@.len() == 0 || (row < 1048576 && col < 16384 && text@.len() <= 32767)),
        sheet_cells(*final(ws)) == (if r is Ok && text@.len() > 0 {
            sheet_cells(*old(ws)).insert((row, col), text@)
        } else {
            sheet_cells(*old(ws))
        }),
{
    match ws.write_string(row, col, text) {
        Ok(_) => Ok(()),
        Err(e) => Err(e),
    }
}

/// Why a worksheet could not be built.
#[derive(Debug, PartialEq, Eq, Structural)]
pub enum ExportError {
    /// A record with a non-empty field landed at or past the last writable
    /// row.
    TooManyRows,
    /// A field's text is over the cell limit of 32767 characters.
    TextTooLong,
}

/// The text of the header cell in a column.
pub open spec fn header_text(col: u16) -> Seq<char>
    recommends
        col < 3,
{
    if col == 0 {
        "Title"@
    } else if col == 1 {
        "Authors"@
    } else {
        "Link"@
    }
}

/// The text of a record's field in a column.
pub open spec fn field_text(r: RecordModel, col: u16) -> Seq<char>
    recommends
        col < 3,
{
    if col == 0 {
        r.title
    } else if col == 1 {
        r.authors
    } else {
        r.link
    }
}

/// The text that belongs at a (row, column) position: the header in row 0,
/// and record `row - 1`'s field below it.
pub open spec fn cell_text(rs: Seq<RecordModel>, row: u32, col: u16) -> Seq<char>
    recommends
        row <= rs.len(),
        col < 3,
{
    if row == 0 {
        header_text(col)
    } else {
        field_text(rs[row - 1], col)
    }
}

/// The finished sheet: the header row, then one row per record in order,
/// row `i + 1` holding record `i`'s texts. Empty texts leave no cell.
pub open spec fn sheet_of(rs: Seq<RecordModel>) -> Map<(u32, u16), Seq<char>> {
    Map::new(
        |rc: (u32, u16)| rc.0 <= rs.len() && rc.1 < 3 && cell_text(rs, rc.0, rc.1).len() > 0,
        |rc: (u32, u16)| cell_text(rs, rc.0, rc.1),
    )
}

/// Whether every record's texts can be written: each non-empty field lands
/// on a writable row and stays within the cell limit.
pub open spec fn exportable(rs: Seq<RecordModel>) -> bool {
    forall|i: int, c: u16|
        0 <= i < rs.len() && c < 3 && (#[trigger] field_text(rs[i], c)).len() > 0 ==> i + 1
            < 1048576 && field_text(rs[i], c).len() <= 32767
}

/// The sheet's row 0 is exactly the header `Title`, `Authors`, `Link`,
/// whatever the records — also when there are none.
pub proof fn lemma_header_row(rs: Seq<RecordModel>)
    ensures
        sheet_of(rs).contains_pair((0u32, 0u16), "Title"@),
        sheet_of(rs).contains_pair((0u32, 1u16), "Authors"@),
        sheet_of(rs).contains_pair((0u32, 2u16), "Link"@),
{
    reveal_strlit("Title");
    reveal_strlit("Authors");
    reveal_strlit("Link");
}

/// Row order equals record order: row `i + 1` of the sheet holds exactly
/// record `i`'s texts, and an empty text leaves no cell there.
pub proof fn lemma_row_order(rs: Seq<RecordModel>, i: int, c: u16)
    requires
        0 <= i < rs.len(),
        i + 1 <= u32::MAX,
        c < 3,
    ensures
        field_text(rs[i], c).len() > 0 ==> sheet_of(rs).contains_pair(
            ((i + 1) as u32, c),
            field_text(rs[i], c),
        ),
        field_text(rs[i], c).len() == 0 ==> !sheet_of(rs).dom().contains(((i + 1) as u32, c)),
{
    assert(cell_text(rs, (i + 1) as u32, c) == field_text(rs[i], c));
}

/// Build the worksheet for the collected records: the header row
/// `Title, Authors, Link` whatever the record count, then row `i + 1` with
/// record `i`'s texts, in collection order.
pub fn build_worksheet(records: &Vec<Record>) -> (r: Result<
    rust_xlsxwriter::Worksheet,
    ExportError,
>)
    ensures
        r is Ok <==> exportable(models(records@)),
        r matches Ok(ws) ==> sheet_cells(ws) == sheet_of(models(records@)),
        r == Result::<rust_xlsxwriter::Worksheet, ExportError>::Err(ExportError::TooManyRows)
            ==> exists|i: int, c: u16|
            0 <= i < records@.len() && c < 3 && i + 1 >= 1048576 && (#[trigger] field_text(
                models(records@)[i],
                c,
            )).len() > 0,
        r == Result::<rust_xlsxwriter::Worksheet, ExportError>::Err(ExportError::TextTooLong)
            ==> exists|i: int, c: u16|
            0 <= i < records@.len() && c < 3 && (#[trigger] field_text(
                models(records@)[i],
                c,
            )).len() > 32767,
{
    let ghost rs = models(records@);
    proof {
        reveal_strlit("Title");
        reveal_strlit("Authors");
        reveal_strlit("Link");
    }
    let mut ws = new_worksheet();
    match write_cell(&mut ws, 0, 0, "Title") {
        Ok(()) => {},
        Err(_) => {
            return Err(ExportError::TextTooLong);
        },
    }
    match write_cell(&mut ws, 0, 1, "Authors") {
        Ok(()) => {},
        Err(_) => {
            return Err(ExportError::TextTooLong);
        },
    }
    match write_cell(&mut ws, 0, 2, "Link") {
        Ok(()) => {},
        Err(_) => {
            return Err(ExportError::TextTooLong);
        },
    }
    proof {
        assert(rs.take(0) =~= Seq::<RecordModel>::empty());
        assert(sheet_cells(ws) =~= sheet_of(rs.take(0)));
    }
    let mut i: usize = 0;
    while i < records.len()
        invariant
            i <= records.len(),
            rs == models(records@),
            rs.len() == records@.len(),
            forall|j: int| 0 <= j < rs.len() ==> rs[j] == (#[trigger] records@[j])@,
            sheet_cells(ws) == sheet_of(rs.take(i as int)),
            exportable(rs.take(i as int)),
        decreases records.len() - i,
    {
        let ghost prev = rs.take(i as int);
        proof {
            assert(forall|j: int| 0 <= j < i ==> rs.take(i + 1)[j] == #[trigger] prev[j]);
            assert(rs.take(i + 1)[i as int] == rs[i as int]);
        }
        let rec = &records[i];
        if i + 1 < 1048576 {
            let row = (i + 1) as u32;
            match write_cell(&mut ws, row, 0, rec.title.as_str()) {
                Ok(()) => {},
                Err(_) => {
                    proof {
                        assert(field_text(rs[i as int], 0) == rec.title@);
                        assert(field_text(rs[i as int], 0).len() > 32767);
                        assert(!exportable(rs));
                    }
                    return Err(ExportError::TextTooLong);
                },
            }
            match write_cell(&mut ws, row, 1, rec.authors.as_str()) {
                Ok(()) => {},
                Err(_) => {
                    proof {
                        assert(field_text(rs[i as int], 1) == rec.authors@);
                        assert(field_text(rs[i as int], 1).len() > 32767);
                        assert(!exportable(rs));
                    }
                    return Err(ExportError::TextTooLong);
                },
            }
            match write_cell(&mut ws, row, 2, rec.link.as_str()) {
                Ok(()) => {},
                Err(_) => {
                    proof {
                        assert(field_text(rs[i as int], 2) == rec.link@);
                        assert(field_text(rs[i as int], 2).len() > 32767);
                        assert(!exportable(rs));
                    }
                    return Err(ExportError::TextTooLong);
                },
            }
            proof {
                assert(sheet_cells(ws) =~= sheet_of(rs.take(i + 1)));
            }
        } else {
            if !rec.title.as_str().is_empty() {
                return Err(ExportError::TooManyRows);
            }
            if !rec.authors.as_str().is_empty() {
                return Err(ExportError::TooManyRows);
            }
            if !rec.link.as_str().is_empty() {
                return Err(ExportError::TooManyRows);
            }
            proof {
                assert(sheet_cells(ws) =~= sheet_of(rs.take(i + 1)));
            }
        }
        i = i + 1;
    }
    proof {
        assert(rs.take(rs.len() as int) =~= rs);
    }
    Ok(ws)
}

} // verus!
