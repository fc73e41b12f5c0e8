//! The operations a producer-side edit records into the op log, in the order
//! the edit records them. Replaying an op against a workbook performs the
//! edit's storage mutation.

use vstd::prelude::*;

use crate::config::{Locale, ReferenceMode};
use crate::formats::FormatId;
use crate::grid::{ColId, RowId, SheetId};
use crate::styles::StyleId;

verus! {

/// The full mutable state of a chart object (everything but its id).
#[derive(Debug, Clone, PartialEq, Eq)]
pub struct ChartSpec {
    pub name: String,
    /// Wire spelling of the chart kind.
    pub chart_type: String,
    pub sheet: SheetId,
    pub anchor_row: RowId,
    pub anchor_col: ColId,
    pub width_px: u32,
    pub height_px: u32,
    pub src_sheet: SheetId,
    pub src_start_row: RowId,
    pub src_start_col: ColId,
    pub src_end_row: RowId,
    pub src_end_col: ColId,
    pub title: Option<String>,
}

/// One entry of a batch commit.
#[derive(Debug, Clone, PartialEq, Eq)]
pub enum BatchItem {
    /// Replace the formula text stored at a cell.
    PutFormula { sheet: SheetId, row: RowId, col: ColId, text: String },
    /// Re-set a defined name whose target is a formula body.
    SetNamedFormula { scope: Option<SheetId>, name: String, body: String },
    /// Rename a sheet.
    RenameSheet { id: SheetId, old_name: String, new_name: String },
}

/// A recorded operation. Payloads that only the storage layer can spell (a
/// defined name's target, a style's attributes) travel beside the op and are
/// attached by the caller that forwards it.
#[derive(Debug, Clone, PartialEq, Eq)]
pub enum Op {
    SetReferenceMode { mode: ReferenceMode },
    SetLocale { locale: Locale },
    AddChart { id: u32, chart: ChartSpec },
    UpdateChart { id: u32, chart: ChartSpec },
    RemoveChart { id: u32 },
    RegisterFormat { id: FormatId, string: String },
    SetCellFormat { sheet: SheetId, row: RowId, col: ColId, id: Option<FormatId> },
    RegisterStyle { id: StyleId },
    SetCellStyle { sheet: SheetId, row: RowId, col: ColId, id: Option<StyleId> },
    SetName { scope: Option<SheetId>, name: String },
    RemoveName { scope: Option<SheetId>, name: String },
    AddSheet { name: String, chunk_rows: u32 },
    PutFormula { sheet: SheetId, row: RowId, col: ColId, text: String },
    BatchCommit { ops: Vec<BatchItem> },
    CreateTable {
        name: String,
        sheet: SheetId,
        top_row: RowId,
        top_col: ColId,
        rows: u32,
        cols: u32,
        has_header: bool,
        has_totals: bool,
        column_names: Vec<String>,
    },
    DropTable { name: String },
    RenameTable { old_name: String, new_name: String },
    RenameColumn { table: String, old_name: String, new_name: String },
    ResizeTable {
        name: String,
        new_rows: u32,
        new_cols: u32,
        added_columns: Vec<String>,
        removed_columns: Vec<String>,
    },
    SetRowsHidden { sheet: SheetId, rows: Vec<RowId>, hidden: bool },
}

} // verus!
