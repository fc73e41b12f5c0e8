//! Grid coordinates and the bounds every cell address must respect.

use vstd::prelude::*;

use crate::error::{CellBound, RuntimeError};

verus! {

/// Index of a sheet inside a workbook.
pub type SheetId = u16;

/// Zero-based row index.
pub type RowId = u32;

/// Zero-based column index.
pub type ColId = u32;

/// Largest addressable row (Excel grid: 1,048,576 rows).
pub const MAX_ROW: RowId = 1_048_575;

/// Largest addressable column (Excel grid: 16,384 columns).
pub const MAX_COLUMN: ColId = 16_383;

/// A cell is inside the grid when neither coordinate exceeds its maximum.
pub open spec fn in_grid(row: int, col: int) -> bool {
    row <= MAX_ROW && col <= MAX_COLUMN
}

/// Returns `true` when `(row, col)` is an addressable cell.
pub fn cell_in_grid(row: RowId, col: ColId) -> (r: bool)
    ensures
        r == in_grid(row as int, col as int),
{
    row <= MAX_ROW && col <= MAX_COLUMN
}

/// The outcome of checking that `sheet` is below the workbook's sheet count.
pub open spec fn sheet_check(sheet_count: usize, sheet: SheetId) -> Result<(), RuntimeError> {
    if sheet as int >= sheet_count {
        Err(RuntimeError::InvalidSheet { sheet, sheet_count })
    } else {
        Ok(())
    }
}

/// The outcome of checking a cell address: the sheet first, then the row,
/// then the column.
pub open spec fn cell_check(sheet_count: usize, sheet: SheetId, row: RowId, col: ColId) -> Result<
    (),
    RuntimeError,
> {
    if sheet as int >= sheet_count {
        Err(RuntimeError::InvalidSheet { sheet, sheet_count })
    } else if row > MAX_ROW {
        Err(RuntimeError::InvalidCell { sheet, row, col, why: CellBound::RowExceedsMax })
    } else if col > MAX_COLUMN {
        Err(RuntimeError::InvalidCell { sheet, row, col, why: CellBound::ColExceedsMax })
    } else {
        Ok(())
    }
}

/// Refuses a sheet id at or past the workbook's sheet count.
pub fn validate_sheet(sheet_count: usize, sheet: SheetId) -> (r: Result<(), RuntimeError>)
    ensures
        r == sheet_check(sheet_count, sheet),
{
    if sheet as usize >= sheet_count {
        return Err(RuntimeError::InvalidSheet { sheet, sheet_count });
    }
    Ok(())
}

/// Refuses an unknown sheet, then a row past `MAX_ROW`, then a column past
/// `MAX_COLUMN`.
pub fn validate_cell(sheet_count: usize, sheet: SheetId, row: RowId, col: ColId) -> (r: Result<
    (),
    RuntimeError,
>)
    ensures
        r == cell_check(sheet_count, sheet, row, col),
{
    validate_sheet(sheet_count, sheet)?;
    if row > MAX_ROW {
        return Err(RuntimeError::InvalidCell { sheet, row, col, why: CellBound::RowExceedsMax });
    }
    if col > MAX_COLUMN {
        return Err(RuntimeError::InvalidCell { sheet, row, col, why: CellBound::ColExceedsMax });
    }
    Ok(())
}

/// Every address the grid accepts lies in the grid, and every address in
/// the grid of an existing sheet is accepted.
pub proof fn lemma_cell_check_is_in_grid(sheet_count: usize, sheet: SheetId, row: RowId, col: ColId)
    ensures
        cell_check(sheet_count, sheet, row, col) is Ok <==> ((sheet as int) < sheet_count
            && in_grid(row as int, col as int)),
{
}

} // verus!
