//! Errors of the runtime pipeline and the aggregate outcome of a recompute pass.

use vstd::prelude::*;

use crate::formats::{FormatId, PeerId};
use crate::grid::{ColId, RowId, SheetId};
use crate::styles::StyleId;

verus! {

/// Which grid bound a cell address exceeded.
#[derive(Debug, Clone, Copy, PartialEq, Eq, Structural)]
pub enum CellBound {
    /// `row > MAX_ROW` (1,048,575).
    RowExceedsMax,
    /// `col > MAX_COLUMN` (16,383).
    ColExceedsMax,
}

/// Why a table create / rename / resize was refused.
#[derive(Debug, Clone, PartialEq, Eq)]
pub enum TableRule {
    /// `rows` or `cols` is zero.
    EmptyFootprint,
    /// The storage layer's footprint bound check refused the footprint; the
    /// payload is its reason.
    FootprintOutOfBounds(String),
    /// `column_names.len() != cols`.
    ColumnCountMismatch,
    /// A column name is the empty string.
    EmptyColumnName,
    /// Two column names are equal ignoring ASCII case.
    DuplicateColumnName,
    /// A table with the same canonical name already exists.
    TableNameTaken,
    /// A defined name with the same canonical name already exists (tables and
    /// defined names share one namespace).
    DefinedNameTaken,
    /// A rename's target names an existing table.
    TargetTableNameTaken,
    /// A rename's target names an existing defined name.
    TargetDefinedNameTaken,
    /// The footprint overlaps another table.
    OverlapsTable,
    /// The footprint contains a dynamic-array spill anchor.
    ContainsSpillAnchor,
    /// A resize removes more columns than the table has.
    TooManyRemovedColumns,
    /// A resize's `new_cols` differs from `old_cols + added - removed`.
    ColumnArithmeticMismatch,
    /// A resize's removed columns are not the table's trailing columns.
    RemovedColumnsNotTrailing,
    /// A resize's added column name is the empty string.
    EmptyAddedColumnName,
    /// A column rename target is the empty string.
    EmptyColumnRenameTarget,
    /// A column rename target already names a column of the table.
    ColumnNameTaken,
}

/// The message a table refusal carries: a fixed wording per rule (the
/// resize path words a duplicate roster, an overlap and a spill anchor in the
/// footprint its own way), or the storage bound check's own reason.
pub open spec fn rule_message(rule: TableRule, resize: bool) -> Seq<char> {
    match rule {
        TableRule::FootprintOutOfBounds(why) => why@,
        TableRule::EmptyFootprint => "table rows and cols must both be > 0"@,
        TableRule::ColumnCountMismatch => "column_names length does not match cols"@,
        TableRule::EmptyColumnName => "table column names cannot be empty"@,
        TableRule::DuplicateColumnName => if resize {
            "final column roster has duplicate canonical names"@
        } else {
            "table column names must be unique (case-insensitive)"@
        },
        TableRule::TableNameTaken => "table with this canonical name already exists"@,
        TableRule::DefinedNameTaken => "defined-name with this canonical name already exists (shared namespace)"@,
        TableRule::TargetTableNameTaken => "table with this canonical name already exists (rename target)"@,
        TableRule::TargetDefinedNameTaken => "defined-name with this canonical name already exists (rename target)"@,
        TableRule::OverlapsTable => if resize {
            "new footprint overlaps an existing table"@
        } else {
            "table footprint overlaps an existing table"@
        },
        TableRule::ContainsSpillAnchor => if resize {
            "new footprint contains a spill anchor"@
        } else {
            "table footprint contains a spill anchor"@
        },
        TableRule::TooManyRemovedColumns => "removed_columns count exceeds existing column count"@,
        TableRule::ColumnArithmeticMismatch => "new_cols does not match old_cols + added - removed"@,
        TableRule::RemovedColumnsNotTrailing => "removed_columns do not match trailing columns"@,
        TableRule::EmptyAddedColumnName => "added column names cannot be empty"@,
        TableRule::EmptyColumnRenameTarget => "column name cannot be empty"@,
        TableRule::ColumnNameTaken => "column with this canonical name already exists (rename target)"@,
    }
}

impl TableRule {
    /// The refusal's message (see [`rule_message`]); `resize` selects the
    /// resize path's wording.
    pub fn message(&self, resize: bool) -> (r: String)
        ensures
            r@ == rule_message(*self, resize),
    {
        match self {
            TableRule::FootprintOutOfBounds(why) => why.clone(),
            TableRule::EmptyFootprint => String::from_str("table rows and cols must both be > 0"),
            TableRule::ColumnCountMismatch => String::from_str("column_names length does not match cols"),
            TableRule::EmptyColumnName => String::from_str("table column names cannot be empty"),
            TableRule::DuplicateColumnName => if resize {
                String::from_str("final column roster has duplicate canonical names")
            } else {
                String::from_str("table column names must be unique (case-insensitive)")
            },
            TableRule::TableNameTaken => String::from_str("table with this canonical name already exists"),
            TableRule::DefinedNameTaken => String::from_str("defined-name with this canonical name already exists (shared namespace)"),
            TableRule::TargetTableNameTaken => String::from_str("table with this canonical name already exists (rename target)"),
            TableRule::TargetDefinedNameTaken => String::from_str("defined-name with this canonical name already exists (rename target)"),
            TableRule::OverlapsTable => if resize {
                String::from_str("new footprint overlaps an existing table")
            } else {
                String::from_str("table footprint overlaps an existing table")
            },
            TableRule::ContainsSpillAnchor => if resize {
                String::from_str("new footprint contains a spill anchor")
            } else {
                String::from_str("table footprint contains a spill anchor")
            },
            TableRule::TooManyRemovedColumns => String::from_str("removed_columns count exceeds existing column count"),
            TableRule::ColumnArithmeticMismatch => String::from_str("new_cols does not match old_cols + added - removed"),
            TableRule::RemovedColumnsNotTrailing => String::from_str("removed_columns do not match trailing columns"),
            TableRule::EmptyAddedColumnName => String::from_str("added column names cannot be empty"),
            TableRule::EmptyColumnRenameTarget => String::from_str("column name cannot be empty"),
            TableRule::ColumnNameTaken => String::from_str("column with this canonical name already exists (rename target)"),
        }
    }
}

/// The message of an out-of-grid cell.
pub open spec fn bound_message(why: CellBound) -> Seq<char> {
    match why {
        CellBound::RowExceedsMax => "row exceeds MAX_ROW (1,048,575)"@,
        CellBound::ColExceedsMax => "col exceeds MAX_COLUMN (16,383)"@,
    }
}

impl CellBound {
    /// The bound's message (see [`bound_message`]).
    pub fn message(&self) -> (r: String)
        ensures
            r@ == bound_message(*self),
    {
        match self {
            CellBound::RowExceedsMax => String::from_str("row exceeds MAX_ROW (1,048,575)"),
            CellBound::ColExceedsMax => String::from_str("col exceeds MAX_COLUMN (16,383)"),
        }
    }
}

/// A structural binding failure, as far as the recompute pass tells them apart.
#[derive(Debug, Clone, PartialEq, Eq)]
pub enum BindError {
    /// A structured reference names a table that does not exist.
    UnknownTable(String),
    /// A structured reference names a column the table does not have.
    UnknownTableColumn { table: String, column: String },
    /// A reference names a sheet that does not exist.
    UnknownSheet(String),
    /// A defined name does not resolve.
    UnresolvedName(String),
    /// Any other binding failure, carried by its message.
    Other(String),
}

/// Errors from the runtime pipeline. Stage errors produced by the formula
/// front end and the storage layer are carried by their messages.
#[derive(Debug, Clone, PartialEq, Eq)]
pub enum RuntimeError {
    /// The formula lexer refused the text.
    Lex(String),
    /// The formula parser refused the tokens.
    Parse(String),
    /// Canonical printing of a parsed formula failed.
    Print(String),
    /// Binding the parsed formula failed.
    Bind(BindError),
    /// `sheet` is not below the workbook's sheet count.
    InvalidSheet { sheet: SheetId, sheet_count: usize },
    /// The cell lies outside the grid.
    InvalidCell { sheet: SheetId, row: RowId, col: ColId, why: CellBound },
    /// A value and a formula were both buffered for the same cell.
    ConflictingOps { sheet: SheetId, row: RowId, col: ColId },
    /// Appending to the attached op log failed.
    OpLog(String),
    /// The defined-name table refused the name.
    Name(String),
    /// The sheet name was refused.
    SheetName(String),
    /// `add_sheet` was given `chunk_rows == 0`.
    InvalidChunkRows(u32),
    /// The workbook already holds the maximum number of sheets.
    TooManySheets { current: u32, max: u32 },
    /// A format id is not registered in the format table.
    UnknownFormatId(FormatId),
    /// The local peer's custom-format counter is at `u32::MAX`.
    FormatCounterExhausted { peer: PeerId },
    /// A style id is not registered in the style table.
    UnknownStyleId(StyleId),
    /// The local peer's style counter is at `u32::MAX`.
    StyleCounterExhausted { peer: PeerId },
    /// The incremental recompute hit its iteration cap with cells still dirty.
    RecomputeIterationCap,
    /// `create_table` / `rename_table` was refused.
    TableCreateRejected { name: String, reason: TableRule },
    /// No table has this name.
    TableNotFound(String),
    /// The table has no such column.
    TableColumnNotFound { table: String, column: String },
    /// A column rename was refused.
    TableColumnRejected { table: String, column: String, reason: TableRule },
    /// `resize_table` was refused.
    TableResizeRejected { name: String, reason: TableRule },
    /// No chart has this id.
    ChartNotFound(u32),
    /// No defined name with this (upper-cased) name exists in the scope.
    NameNotFound { name: String, scope: Option<SheetId> },
    /// A number-format code could not be nudged.
    InvalidFormat(String),
}

/// One formula cell that failed structurally during a recompute pass.
#[derive(Debug, Clone)]
pub struct RecomputeFailure {
    pub sheet: SheetId,
    pub row: RowId,
    pub col: ColId,
    pub formula_text: String,
    pub error: RuntimeError,
}

/// Aggregate outcome of a recompute pass.
#[derive(Debug, Clone)]
pub struct RecomputeResult {
    /// Formula cells the pass considered.
    pub attempted: usize,
    /// Formula cells evaluated and written back.
    pub succeeded: usize,
    /// Structural failures, in evaluation order.
    pub failures: Vec<RecomputeFailure>,
    /// Dirty formulas skipped because no input value changed.
    pub skipped_value_equality: usize,
    /// Dirty formulas whose plan is eligible for vectorised evaluation.
    pub simd_classified: usize,
    /// Cells whose computed value was (re)written by the pass.
    pub changed_cells: Vec<(SheetId, RowId, ColId)>,
}

impl RecomputeResult {
    /// True iff every formula recomputed without a structural failure.
    pub fn is_complete(&self) -> (r: bool)
        ensures
            r == (self.failures@.len() == 0),
    {
        self.failures.len() == 0
    }

    /// Number of structural failures.
    pub fn failed_count(&self) -> (r: usize)
        ensures
            r == self.failures@.len(),
    {
        self.failures.len()
    }
}

} // verus!
