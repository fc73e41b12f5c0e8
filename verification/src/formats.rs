//! Number formats: interning a format code, binding a cell to a format, and
//! the decimal-places nudge.

use vstd::prelude::*;

use crate::error::RuntimeError;
use crate::grid::{cell_check, validate_cell, ColId, RowId, SheetId};
use crate::ops::Op;
use crate::runtime::{logged, WorkbookRuntime};
use crate::text::{eq_ci, same_ci};

verus! {

/// Identity of a collaborating peer.
pub type PeerId = u64;

/// A number-format id: a built-in code, or a custom code allocated by a peer.
#[derive(Debug, Clone, Copy, PartialEq, Eq, Structural)]
pub enum FormatId {
    Builtin(u32),
    Custom(PeerId, u32),
}

/// The format code a decimal nudge starts from: the cell's bound format
/// code, unless the cell is unbound or bound to `General` (ignoring ASCII
/// case), which nudge from the integer code `0`.
pub open spec fn nudge_base_text(bound: Option<FormatId>, bound_text: Option<&str>) -> Seq<char> {
    match (bound, bound_text) {
        (Some(_), Some(t)) => if eq_ci(t@, "General"@) {
            "0"@
        } else {
            t@
        },
        _ => "0"@,
    }
}

/// The first half of a decimal nudge on a cell, before the format code is
/// nudged: refuses a bad cell address; a zero `delta` is a no-op
/// (`Ok(None)`); a bound format id missing from the format table is
/// refused; otherwise returns the code to nudge. `bound` is the cell's
/// format binding and `bound_text` the format table's code for it.
pub fn nudge_base(
    sheet_count: usize,
    sheet: SheetId,
    row: RowId,
    col: ColId,
    delta: i32,
    bound: Option<FormatId>,
    bound_text: Option<&str>,
) -> (r: Result<Option<String>, RuntimeError>)
    ensures
        cell_check(sheet_count, sheet, row, col) is Err ==> r == Err::<Option<String>, RuntimeError>(
            cell_check(sheet_count, sheet, row, col)->Err_0,
        ),
        cell_check(sheet_count, sheet, row, col) is Ok ==> {
            if delta == 0 {
                r == Ok::<Option<String>, RuntimeError>(None)
            } else if bound is Some && bound_text is None {
                r == Err::<Option<String>, RuntimeError>(RuntimeError::UnknownFormatId(bound->0))
            } else {
                r matches Ok(Some(b)) && b@ == nudge_base_text(bound, bound_text)
            }
        },
{
    validate_cell(sheet_count, sheet, row, col)?;
    if delta == 0 {
        return Ok(None);
    }
    match bound {
        None => Ok(Some("0".to_owned())),
        Some(id) => match bound_text {
            None => Err(RuntimeError::UnknownFormatId(id)),
            Some(t) => {
                if same_ci(t, "General") {
                    Ok(Some("0".to_owned()))
                } else {
                    Ok(Some(t.to_owned()))
                }
            },
        },
    }
}

/// The second half of a decimal nudge, given the nudged code (or the
/// nudger's refusal message): a refusal becomes `InvalidFormat`; a result
/// equal to the cell's current bound code is a no-op (`Ok(None)`); otherwise
/// returns the code to bind.
pub fn nudge_outcome(
    bound: Option<FormatId>,
    bound_text: Option<&str>,
    nudged: Result<String, String>,
) -> (r: Result<Option<String>, RuntimeError>)
    ensures
        nudged is Err ==> r == Err::<Option<String>, RuntimeError>(
            RuntimeError::InvalidFormat(nudged->Err_0),
        ),
        nudged matches Ok(n) ==> {
            if bound is Some && bound_text is Some && bound_text->0@ == n@ {
                r == Ok::<Option<String>, RuntimeError>(None)
            } else {
                r == Ok::<Option<String>, RuntimeError>(Some(n))
            }
        },
{
    match nudged {
        Err(why) => Err(RuntimeError::InvalidFormat(why)),
        Ok(n) => {
            let unchanged = match (bound, bound_text) {
                (Some(_), Some(t)) => t.to_owned() == n,
                _ => false,
            };
            if unchanged {
                Ok(None)
            } else {
                Ok(Some(n))
            }
        },
    }
}

/// What interning code `s` does to the result and the log, given the format
/// table's lookup `existing` of `s` and its allocator state: an existing id
/// is returned with nothing recorded; an exhausted counter is refused with
/// nothing recorded; otherwise `Custom(local_peer, next_counter)` is returned
/// and its `RegisterFormat` of `s` recorded.
pub open spec fn interned(
    before: Option<Seq<Op>>,
    after: Option<Seq<Op>>,
    r: Result<FormatId, RuntimeError>,
    s: Seq<char>,
    existing: Option<FormatId>,
    next_counter: u32,
    local_peer: PeerId,
) -> bool {
    match existing {
        Some(id) => r == Ok::<FormatId, RuntimeError>(id) && after == before,
        None => if next_counter == u32::MAX {
            r == Err::<FormatId, RuntimeError>(RuntimeError::FormatCounterExhausted { peer: local_peer })
                && after == before
        } else {
            r == Ok::<FormatId, RuntimeError>(FormatId::Custom(local_peer, next_counter)) && exists|
                t: String,
            |
                t@ == s && logged(
                    before,
                    after,
                    seq![Op::RegisterFormat { id: FormatId::Custom(local_peer, next_counter), string: t }],
                )
        },
    }
}

/// What applying a nudge preview does to the result and the log: a refused
/// preview is returned with nothing recorded; `Ok(None)` is a no-op; a code
/// on a bad cell is refused; otherwise the code's existing id, or a freshly
/// registered `Custom(local_peer, next_counter)` (refused when the counter is
/// exhausted), is bound to the cell.
pub open spec fn nudge_applied(
    before: Option<Seq<Op>>,
    after: Option<Seq<Op>>,
    r: Result<Option<FormatId>, RuntimeError>,
    sheet: SheetId,
    row: RowId,
    col: ColId,
    preview: Result<Option<String>, RuntimeError>,
    sheet_count: usize,
    existing: Option<FormatId>,
    next_counter: u32,
    local_peer: PeerId,
) -> bool {
    match preview {
        Err(e) => r == Err::<Option<FormatId>, RuntimeError>(e) && after == before,
        Ok(None) => r == Ok::<Option<FormatId>, RuntimeError>(None) && after == before,
        Ok(Some(code)) => if cell_check(sheet_count, sheet, row, col) is Err {
            r == Err::<Option<FormatId>, RuntimeError>(cell_check(sheet_count, sheet, row, col)->Err_0)
                && after == before
        } else {
            match existing {
                Some(id) => r == Ok::<Option<FormatId>, RuntimeError>(Some(id)) && logged(
                    before,
                    after,
                    seq![Op::SetCellFormat { sheet, row, col, id: Some(id) }],
                ),
                None => if next_counter == u32::MAX {
                    r == Err::<Option<FormatId>, RuntimeError>(
                        RuntimeError::FormatCounterExhausted { peer: local_peer },
                    ) && after == before
                } else {
                    let id = FormatId::Custom(local_peer, next_counter);
                    r == Ok::<Option<FormatId>, RuntimeError>(Some(id)) && exists|t: String|
                        t@ == code@ && logged(
                            before,
                            after,
                            seq![
                                Op::RegisterFormat { id, string: t },
                                Op::SetCellFormat { sheet, row, col, id: Some(id) },
                            ],
                        )
                },
            }
        },
    }
}

impl WorkbookRuntime {
    /// Interns a format code. `existing` is the format table's peer-scoped
    /// lookup of `s`, `next_counter` and `local_peer` its allocator state.
    /// An existing id is returned with nothing recorded; an exhausted counter
    /// is refused before anything is recorded; otherwise records
    /// `Op::RegisterFormat` for the id `Custom(local_peer, next_counter)` and
    /// returns it.
    pub fn intern_format(
        &mut self,
        s: &str,
        existing: Option<FormatId>,
        next_counter: u32,
        local_peer: PeerId,
    ) -> (r: Result<FormatId, RuntimeError>)
        ensures
            interned(
                old(self).recorded(),
                final(self).recorded(),
                r,
                s@,
                existing,
                next_counter,
                local_peer,
            ),
            final(self).has_graph() == old(self).has_graph(),
    {
        if let Some(id) = existing {
            return Ok(id);
        }
        if next_counter == u32::MAX {
            return Err(RuntimeError::FormatCounterExhausted { peer: local_peer });
        }
        let id = FormatId::Custom(local_peer, next_counter);
        self.record(Op::RegisterFormat { id, string: s.to_owned() });
        Ok(id)
    }

    /// Binds a cell to a format (`Some`) or clears its binding (`None`).
    /// `registered` is the format table's lookup of the id (ignored for
    /// `None`). Refuses a bad address, then an unregistered id; otherwise
    /// records `Op::SetCellFormat`.
    pub fn set_cell_format(
        &mut self,
        sheet: SheetId,
        row: RowId,
        col: ColId,
        id: Option<FormatId>,
        sheet_count: usize,
        registered: bool,
    ) -> (r: Result<(), RuntimeError>)
        ensures
            cell_check(sheet_count, sheet, row, col) is Err ==> r == cell_check(
                sheet_count,
                sheet,
                row,
                col,
            ),
            cell_check(sheet_count, sheet, row, col) is Ok && id is Some && !registered ==> r
                == Err::<(), RuntimeError>(RuntimeError::UnknownFormatId(id->0)),
            cell_check(sheet_count, sheet, row, col) is Ok && (id is None || registered) ==> r
                is Ok,
            r is Err ==> final(self).recorded() == old(self).recorded(),
            r is Ok ==> logged(
                old(self).recorded(),
                final(self).recorded(),
                seq![Op::SetCellFormat { sheet, row, col, id }],
            ),
            final(self).has_graph() == old(self).has_graph(),
    {
        validate_cell(sheet_count, sheet, row, col)?;
        if let Some(fid) = id {
            if !registered {
                return Err(RuntimeError::UnknownFormatId(fid));
            }
        }
        self.record(Op::SetCellFormat { sheet, row, col, id });
        Ok(())
    }

    /// Applies a decimal nudge whose preview `preview` was computed by
    /// [`nudge_base`] / [`nudge_outcome`]: a refused preview is returned as
    /// is; `Ok(None)` is a no-op; otherwise interns the previewed code (as
    /// [`WorkbookRuntime::intern_format`], with `existing`, `next_counter`,
    /// `local_peer`) and binds the cell to the interned id, returning it.
    pub fn nudge_cell_decimals(
        &mut self,
        sheet: SheetId,
        row: RowId,
        col: ColId,
        preview: Result<Option<String>, RuntimeError>,
        sheet_count: usize,
        existing: Option<FormatId>,
        next_counter: u32,
        local_peer: PeerId,
    ) -> (r: Result<Option<FormatId>, RuntimeError>)
        ensures
            nudge_applied(
                old(self).recorded(),
                final(self).recorded(),
                r,
                sheet,
                row,
                col,
                preview,
                sheet_count,
                existing,
                next_counter,
                local_peer,
            ),
            final(self).has_graph() == old(self).has_graph(),
    {
        let nudged = preview?;
        match nudged {
            None => Ok(None),
            Some(code) => {
                validate_cell(sheet_count, sheet, row, col)?;
                let ghost before = self.recorded();
                let new_id = self.intern_format(code.as_str(), existing, next_counter, local_peer)?;
                let ghost mid = self.recorded();
                self.set_cell_format(sheet, row, col, Some(new_id), sheet_count, true)?;
                proof {
                    if existing is None {
                        let t = choose|t: String|
                            t@ == code@ && logged(
                                before,
                                mid,
                                seq![Op::RegisterFormat { id: new_id, string: t }],
                            );
                        match before {
                            Some(b) => {
                                assert(b + seq![
                                    Op::RegisterFormat { id: new_id, string: t },
                                    Op::SetCellFormat { sheet, row, col, id: Some(new_id) },
                                ] =~= b + seq![Op::RegisterFormat { id: new_id, string: t }]
                                    + seq![Op::SetCellFormat { sheet, row, col, id: Some(new_id) }]);
                            },
                            None => {},
                        }
                        assert(t@ == code@ && logged(
                            before,
                            self.recorded(),
                            seq![
                                Op::RegisterFormat { id: new_id, string: t },
                                Op::SetCellFormat { sheet, row, col, id: Some(new_id) },
                            ],
                        ));
                    }
                }
                Ok(Some(new_id))
            },
        }
    }
}

/// A nudge previewed with [`nudge_base`] / [`nudge_outcome`] (which only
/// succeed on a valid cell) and then applied with
/// [`WorkbookRuntime::nudge_cell_decimals`] binds exactly the previewed code:
/// a refused preview is the result and changes nothing; a no-op preview
/// records nothing; a code binds its existing id (one `SetCellFormat`) or is
/// registered under a fresh id first (`RegisterFormat` of that code, then
/// `SetCellFormat`), unless the format counter is exhausted.
pub proof fn lemma_nudge_preview_then_apply(
    before: Option<Seq<Op>>,
    after: Option<Seq<Op>>,
    r: Result<Option<FormatId>, RuntimeError>,
    sheet: SheetId,
    row: RowId,
    col: ColId,
    preview: Result<Option<String>, RuntimeError>,
    sheet_count: usize,
    existing: Option<FormatId>,
    next_counter: u32,
    local_peer: PeerId,
)
    requires
        preview is Ok ==> cell_check(sheet_count, sheet, row, col) is Ok,
        nudge_applied(
            before,
            after,
            r,
            sheet,
            row,
            col,
            preview,
            sheet_count,
            existing,
            next_counter,
            local_peer,
        ),
    ensures
        preview matches Err(e) ==> r == Err::<Option<FormatId>, RuntimeError>(e) && after == before,
        preview matches Ok(None) ==> r == Ok::<Option<FormatId>, RuntimeError>(None) && after
            == before,
        preview matches Ok(Some(f)) ==> match existing {
            Some(id) => r == Ok::<Option<FormatId>, RuntimeError>(Some(id)) && logged(
                before,
                after,
                seq![Op::SetCellFormat { sheet, row, col, id: Some(id) }],
            ),
            None => (next_counter < u32::MAX ==> r == Ok::<Option<FormatId>, RuntimeError>(
                Some(FormatId::Custom(local_peer, next_counter)),
            ) && exists|t: String|
                t@ == f@ && logged(
                    before,
                    after,
                    seq![
                        Op::RegisterFormat { id: FormatId::Custom(local_peer, next_counter), string: t },
                        Op::SetCellFormat {
                            sheet,
                            row,
                            col,
                            id: Some(FormatId::Custom(local_peer, next_counter)),
                        },
                    ],
                )) && (next_counter == u32::MAX ==> r == Err::<Option<FormatId>, RuntimeError>(
                RuntimeError::FormatCounterExhausted { peer: local_peer },
            ) && after == before),
        },
{
}

/// Interning a code twice registers it once: after a first intern of `s`
/// allocated an id, the format table finds `s` under that id, so a repeat
/// intern returns the same id and records nothing; the log holds exactly
/// one `RegisterFormat` of `s`.
pub proof fn lemma_intern_format_repeat(
    b0: Option<Seq<Op>>,
    b1: Option<Seq<Op>>,
    b2: Option<Seq<Op>>,
    r1: Result<FormatId, RuntimeError>,
    r2: Result<FormatId, RuntimeError>,
    s: Seq<char>,
    c1: u32,
    c2: u32,
    local_peer: PeerId,
)
    requires
        interned(b0, b1, r1, s, None, c1, local_peer),
        r1 is Ok,
        interned(b1, b2, r2, s, Some(r1->Ok_0), c2, local_peer),
    ensures
        r2 == r1,
        r1 == Ok::<FormatId, RuntimeError>(FormatId::Custom(local_peer, c1)),
        b2 == b1,
        exists|t: String|
            t@ == s && logged(
                b0,
                b2,
                seq![Op::RegisterFormat { id: FormatId::Custom(local_peer, c1), string: t }],
            ),
{
}

} // verus!
