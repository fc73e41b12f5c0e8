//! Cell styles: interning a style and binding a cell to a style.

use vstd::prelude::*;

use crate::error::RuntimeError;
use crate::formats::PeerId;
use crate::grid::{cell_check, validate_cell, ColId, RowId, SheetId};
use crate::ops::Op;
use crate::runtime::{logged, WorkbookRuntime};

verus! {

/// A style id: the allocating peer and its per-peer counter.
#[derive(Debug, Clone, Copy, PartialEq, Eq, Structural)]
pub struct StyleId {
    pub peer: PeerId,
    pub counter: u32,
}

impl WorkbookRuntime {
    /// Interns a style. `existing` is the style table's peer-scoped lookup
    /// of the style, `next_counter` and `local_peer` its allocator state. An
    /// existing id is returned with nothing recorded; an exhausted counter is
    /// refused before anything is recorded; otherwise records
    /// `Op::RegisterStyle` for the id `(local_peer, next_counter)` and
    /// returns it. The style's attributes travel beside the op.
    pub fn intern_style(
        &mut self,
        existing: Option<StyleId>,
        next_counter: u32,
        local_peer: PeerId,
    ) -> (r: Result<StyleId, RuntimeError>)
        ensures
            existing matches Some(id) ==> r == Ok::<StyleId, RuntimeError>(id)
                && final(self).recorded() == old(self).recorded(),
            existing is None && next_counter == u32::MAX ==> r == Err::<StyleId, RuntimeError>(
                RuntimeError::StyleCounterExhausted { peer: local_peer },
            ) && final(self).recorded() == old(self).recorded(),
            existing is None && next_counter < u32::MAX ==> r == Ok::<StyleId, RuntimeError>(
                StyleId { peer: local_peer, counter: next_counter },
            ) && logged(
                old(self).recorded(),
                final(self).recorded(),
                seq![Op::RegisterStyle { id: StyleId { peer: local_peer, counter: next_counter } }],
            ),
            final(self).has_graph() == old(self).has_graph(),
    {
        if let Some(id) = existing {
            return Ok(id);
        }
        if next_counter == u32::MAX {
            return Err(RuntimeError::StyleCounterExhausted { peer: local_peer });
        }
        let id = StyleId { peer: local_peer, counter: next_counter };
        self.record(Op::RegisterStyle { id });
        Ok(id)
    }

    /// Binds a cell to a style (`Some`) or clears its binding (`None`).
    /// `lookup` is the style table's lookup of the id: `None` when it is not
    /// registered, `Some(is_empty)` otherwise. Refuses a bad address, then an
    /// unregistered id. A registered but empty (default) style binds as a
    /// clear. Records `Op::SetCellStyle` with the effective binding and
    /// returns it.
    pub fn set_cell_style(
        &mut self,
        sheet: SheetId,
        row: RowId,
        col: ColId,
        id: Option<StyleId>,
        sheet_count: usize,
        lookup: Option<bool>,
    ) -> (r: Result<Option<StyleId>, RuntimeError>)
        ensures
            cell_check(sheet_count, sheet, row, col) is Err ==> r == Err::<
                Option<StyleId>,
                RuntimeError,
            >(cell_check(sheet_count, sheet, row, col)->Err_0),
            cell_check(sheet_count, sheet, row, col) is Ok ==> match id {
                None => r == Ok::<Option<StyleId>, RuntimeError>(None),
                Some(sid) => match lookup {
                    None => r == Err::<Option<StyleId>, RuntimeError>(
                        RuntimeError::UnknownStyleId(sid),
                    ),
                    Some(true) => r == Ok::<Option<StyleId>, RuntimeError>(None),
                    Some(false) => r == Ok::<Option<StyleId>, RuntimeError>(Some(sid)),
                },
            },
            r is Err ==> final(self).recorded() == old(self).recorded(),
            r matches Ok(eff) ==> logged(
                old(self).recorded(),
                final(self).recorded(),
                seq![Op::SetCellStyle { sheet, row, col, id: eff }],
            ),
            final(self).has_graph() == old(self).has_graph(),
    {
        validate_cell(sheet_count, sheet, row, col)?;
        let effective = match id {
            None => None,
            Some(sid) => match lookup {
                None => {
                    return Err(RuntimeError::UnknownStyleId(sid));
                },
                Some(true) => None,
                Some(false) => Some(sid),
            },
        };
        self.record(Op::SetCellStyle { sheet, row, col, id: effective });
        Ok(effective)
    }
}

} // verus!
