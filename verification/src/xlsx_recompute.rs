//! The recompute provider for xlsx import: after an imported workbook is
//! recomputed, every structural formula failure becomes an import-report
//! entry.

use vstd::prelude::*;

use crate::error::{RecomputeResult, RuntimeError};
use crate::grid::{ColId, RowId, SheetId};

verus! {

/// One formula the xlsx importer could not bring to a value.
#[derive(Debug, Clone)]
pub struct FormulaImportFailure {
    pub sheet: SheetId,
    pub row: RowId,
    pub col: ColId,
    pub formula: String,
    /// The failure's debug rendering.
    pub reason: String,
}

/// Engine-backed formula-recompute provider for xlsx import. Zero-sized.
#[derive(Debug, Clone, Copy)]
pub struct EngineXlsxRecomputer;

impl Default for EngineXlsxRecomputer {
    fn default() -> (r: Self)
        ensures
            r == EngineXlsxRecomputer,
    {
        EngineXlsxRecomputer
    }
}

/// The text `format!("{:?}", e)` renders for an error through its derived
/// `Debug`: a function of the error alone.
pub uninterp spec fn debug_rendering(e: RuntimeError) -> Seq<char>;

/// Renders an error with `format!("{:?}", ..)` (its derived `Debug`).
#[verifier::external_body]
fn debug_text(e: &RuntimeError) -> (r: String)
    ensures
        r@ == debug_rendering(*e),
{
    format!("{:?}", e)
}

impl EngineXlsxRecomputer {
    /// The import-report entries for a finished recompute: one per
    /// structural failure, in order, with its address and formula text.
    /// Evaluation errors that produce an error value (`#DIV/0!`, ...) are
    /// cell values, not failures, and produce no entry.
    pub fn import_failures(&self, result: &RecomputeResult) -> (r: Vec<FormulaImportFailure>)
        ensures
            r@.len() == result.failures@.len(),
            forall|i: int|
                #![trigger r@[i]]
                0 <= i < r@.len() ==> r@[i].sheet == result.failures@[i].sheet && r@[i].row
                    == result.failures@[i].row && r@[i].col == result.failures@[i].col
                    && r@[i].formula@ == result.failures@[i].formula_text@ && r@[i].reason@
                    == debug_rendering(result.failures@[i].error),
    {
        let mut out: Vec<FormulaImportFailure> = Vec::new();
        let mut i: usize = 0;
        while i < result.failures.len()
            invariant
                0 <= i <= result.failures@.len(),
                out@.len() == i,
                forall|k: int|
                    #![trigger out@[k]]
                    0 <= k < i ==> out@[k].sheet == result.failures@[k].sheet && out@[k].row
                        == result.failures@[k].row && out@[k].col == result.failures@[k].col
                        && out@[k].formula@ == result.failures@[k].formula_text@
                        && out@[k].reason@ == debug_rendering(result.failures@[k].error),
            decreases result.failures@.len() - i,
        {
            let f = &result.failures[i];
            out.push(
                FormulaImportFailure {
                    sheet: f.sheet,
                    row: f.row,
                    col: f.col,
                    formula: f.formula_text.clone(),
                    reason: debug_text(&f.error),
                },
            );
            i += 1;
        }
        out
    }
}

} // verus!
