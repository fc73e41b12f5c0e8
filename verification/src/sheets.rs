//! Sheets: add a sheet, rename a sheet (with the stored-formula rewrites the
//! rename carries).

use vstd::prelude::*;

use crate::error::RuntimeError;
use crate::grid::SheetId;
use crate::ops::{BatchItem, Op};
use crate::runtime::{logged, WorkbookRuntime};
use crate::tables::FormulaRewrite;
use crate::text::{ascii_upper, to_upper};

verus! {

/// Largest sheet count a workbook can hold (`SheetId::MAX`).
pub const MAX_SHEETS: u32 = 65_535;

/// A defined name whose formula body a sheet rename rewrote.
#[derive(Debug, Clone)]
pub struct NamedFormulaRewrite {
    /// `None` for a workbook-scoped name, else the scoping sheet.
    pub scope: Option<SheetId>,
    pub name: String,
    pub new_body: String,
}

/// The `PutFormula` batch items of the rewrites that changed a formula, in
/// order.
pub open spec fn rewrite_items(rw: Seq<FormulaRewrite>) -> Seq<BatchItem>
    decreases rw.len(),
{
    if rw.len() == 0 {
        Seq::empty()
    } else {
        let prev = rewrite_items(rw.drop_last());
        let last = rw.last();
        match last.new_text {
            Some(t) => prev.push(
                BatchItem::PutFormula { sheet: last.sheet, row: last.row, col: last.col, text: t },
            ),
            None => prev,
        }
    }
}

/// `items` is the batch a sheet rename commits: the cell rewrites, then the
/// named-formula rewrites (names upper-cased), then the rename itself.
pub open spec fn sheet_rename_batch(
    items: Seq<BatchItem>,
    cells: Seq<FormulaRewrite>,
    names: Seq<NamedFormulaRewrite>,
    id: SheetId,
    old_name: Seq<char>,
    new_name: Seq<char>,
) -> bool {
    let ci = rewrite_items(cells);
    &&& items.len() == ci.len() + names.len() + 1
    &&& items.take(ci.len() as int) == ci
    &&& forall|k: int|
        #![trigger names[k]]
        0 <= k < names.len() ==> (items[ci.len() + k] matches BatchItem::SetNamedFormula {
            scope,
            name,
            body,
        } && scope == names[k].scope && name@ == ascii_upper(names[k].name@) && body
            == names[k].new_body)
    &&& items.last() matches BatchItem::RenameSheet { id: i, old_name: o, new_name: n }
    &&& items.last()->RenameSheet_id == id
    &&& items.last()->RenameSheet_old_name@ == old_name
    &&& items.last()->RenameSheet_new_name@ == new_name
}

impl WorkbookRuntime {
    /// Adds a sheet. `name_check` is storage's validation of the name
    /// (empty, reserved character, canonical duplicate). Refuses
    /// `chunk_rows == 0`, then a workbook already at `MAX_SHEETS` sheets,
    /// then a refused name; otherwise records `Op::AddSheet`.
    pub fn add_sheet(
        &mut self,
        name: &str,
        chunk_rows: u32,
        sheet_count: usize,
        name_check: Result<(), String>,
    ) -> (r: Result<(), RuntimeError>)
        ensures
            chunk_rows == 0 ==> r == Err::<(), RuntimeError>(RuntimeError::InvalidChunkRows(0)),
            chunk_rows != 0 && sheet_count as u32 >= MAX_SHEETS ==> r == Err::<(), RuntimeError>(
                RuntimeError::TooManySheets { current: sheet_count as u32, max: MAX_SHEETS },
            ),
            chunk_rows != 0 && (sheet_count as u32) < MAX_SHEETS && name_check is Err ==> r
                == Err::<(), RuntimeError>(RuntimeError::SheetName(name_check->Err_0)),
            chunk_rows != 0 && (sheet_count as u32) < MAX_SHEETS && name_check is Ok ==> r is Ok,
            r is Err ==> final(self).recorded() == old(self).recorded(),
            r is Ok ==> exists|n: String|
                n@ == name@ && logged(
                    old(self).recorded(),
                    final(self).recorded(),
                    seq![Op::AddSheet { name: n, chunk_rows }],
                ),
            final(self).has_graph() == old(self).has_graph(),
    {
        if chunk_rows == 0 {
            return Err(RuntimeError::InvalidChunkRows(chunk_rows));
        }
        let current = sheet_count as u32;
        if current >= MAX_SHEETS {
            return Err(RuntimeError::TooManySheets { current, max: MAX_SHEETS });
        }
        if let Err(why) = name_check {
            return Err(RuntimeError::SheetName(why));
        }
        let n = name.to_owned();
        self.record(Op::AddSheet { name: n, chunk_rows });
        Ok(())
    }

    /// Renames sheet `id`. `old_name` is the sheet's current name (`None`:
    /// no such sheet); `same_canonical` whether old and new names have the
    /// same canonical form (a case-only rename skips name validation);
    /// `name_check` storage's validation of the new name. `cell_rewrites` and
    /// `name_rewrites` are the stored formulas and named-formula bodies the
    /// rename rewrites. Refuses an unknown sheet, then (unless
    /// `same_canonical`) a refused name; otherwise records one
    /// `Op::BatchCommit` holding the cell rewrites, the named-formula
    /// rewrites and the rename, in that order.
    pub fn rename_sheet(
        &mut self,
        id: SheetId,
        new_name: &str,
        old_name: Option<&str>,
        sheet_count: usize,
        same_canonical: bool,
        name_check: Result<(), String>,
        cell_rewrites: &Vec<FormulaRewrite>,
        name_rewrites: &Vec<NamedFormulaRewrite>,
    ) -> (r: Result<(), RuntimeError>)
        ensures
            old_name is None ==> r == Err::<(), RuntimeError>(
                RuntimeError::InvalidSheet { sheet: id, sheet_count },
            ),
            old_name is Some && !same_canonical && name_check is Err ==> r == Err::<
                (),
                RuntimeError,
            >(RuntimeError::SheetName(name_check->Err_0)),
            old_name is Some && (same_canonical || name_check is Ok) ==> r is Ok,
            r is Err ==> final(self).recorded() == old(self).recorded(),
            r is Ok ==> exists|v: Vec<BatchItem>|
                sheet_rename_batch(
                    v@,
                    cell_rewrites@,
                    name_rewrites@,
                    id,
                    old_name->0@,
                    new_name@,
                ) && logged(
                    old(self).recorded(),
                    final(self).recorded(),
                    seq![Op::BatchCommit { ops: v }],
                ),
            final(self).has_graph() == old(self).has_graph(),
    {
        let old = match old_name {
            Some(o) => o,
            None => {
                return Err(RuntimeError::InvalidSheet { sheet: id, sheet_count });
            },
        };
        if !same_canonical {
            if let Err(why) = name_check {
                return Err(RuntimeError::SheetName(why));
            }
        }
        let mut items: Vec<BatchItem> = Vec::new();
        let mut i: usize = 0;
        while i < cell_rewrites.len()
            invariant
                0 <= i <= cell_rewrites.len(),
                items@ == rewrite_items(cell_rewrites@.take(i as int)),
            decreases cell_rewrites.len() - i,
        {
            assert(cell_rewrites@.take(i + 1).drop_last() =~= cell_rewrites@.take(i as int));
            let rw = &cell_rewrites[i];
            match &rw.new_text {
                Some(t) => {
                    items.push(
                        BatchItem::PutFormula { sheet: rw.sheet, row: rw.row, col: rw.col, text: t.clone() },
                    );
                },
                None => {},
            }
            i += 1;
        }
        assert(cell_rewrites@.take(cell_rewrites@.len() as int) =~= cell_rewrites@);
        let ghost ci = rewrite_items(cell_rewrites@);
        let mut k: usize = 0;
        while k < name_rewrites.len()
            invariant
                0 <= k <= name_rewrites.len(),
                ci == rewrite_items(cell_rewrites@),
                items@.len() == ci.len() + k,
                items@.take(ci.len() as int) == ci,
                forall|x: int|
                    #![trigger name_rewrites@[x]]
                    0 <= x < k ==> (items@[ci.len() + x] matches BatchItem::SetNamedFormula {
                        scope,
                        name,
                        body,
                    } && scope == name_rewrites@[x].scope && name@ == ascii_upper(
                        name_rewrites@[x].name@,
                    ) && body == name_rewrites@[x].new_body),
            decreases name_rewrites.len() - k,
        {
            let nr = &name_rewrites[k];
            let ghost before = items@;
            items.push(
                BatchItem::SetNamedFormula {
                    scope: nr.scope,
                    name: to_upper(nr.name.as_str()),
                    body: nr.new_body.clone(),
                },
            );
            assert(items@.take(ci.len() as int) =~= before.take(ci.len() as int));
            k += 1;
        }
        let ghost before = items@;
        items.push(
            BatchItem::RenameSheet { id, old_name: old.to_owned(), new_name: new_name.to_owned() },
        );
        assert(items@.take(ci.len() as int) =~= before.take(ci.len() as int));
        assert(sheet_rename_batch(items@, cell_rewrites@, name_rewrites@, id, old@, new_name@));
        self.record(Op::BatchCommit { ops: items });
        Ok(())
    }
}

/// The rewrite changed its formula.
pub open spec fn formula_changed(rw: FormulaRewrite) -> bool {
    rw.new_text is Some
}

/// The batch item that stores a changed formula's new text.
pub open spec fn put_item(rw: FormulaRewrite) -> BatchItem {
    BatchItem::PutFormula { sheet: rw.sheet, row: rw.row, col: rw.col, text: rw.new_text->Some_0 }
}

/// A sheet rename's batch stores exactly the changed formulas: one
/// `PutFormula` per rewrite with a new text, carrying that rewrite's cell and
/// text, in the order the rewrites were given; unchanged formulas add nothing.
pub proof fn lemma_rename_batch_stores_every_changed_formula(cells: Seq<FormulaRewrite>)
    ensures
        rewrite_items(cells) == cells.filter(|rw: FormulaRewrite| formula_changed(rw)).map_values(
            |rw: FormulaRewrite| put_item(rw),
        ),
        forall|i: int|
            0 <= i < cells.len() && formula_changed(cells[i]) ==> #[trigger] rewrite_items(
                cells,
            ).contains(put_item(cells[i])),
        rewrite_items(cells).len() <= cells.len(),
    decreases cells.len(),
{
    reveal(Seq::filter);
    let pred = |rw: FormulaRewrite| formula_changed(rw);
    let item = |rw: FormulaRewrite| put_item(rw);
    if cells.len() > 0 {
        lemma_rename_batch_stores_every_changed_formula(cells.drop_last());
        let sub = cells.drop_last().filter(pred);
        if pred(cells.last()) {
            assert(cells.filter(pred) == sub.push(cells.last()));
            assert(sub.push(cells.last()).map_values(item) =~= sub.map_values(item).push(
                put_item(cells.last()),
            ));
        } else {
            assert(cells.filter(pred) == sub);
        }
    } else {
        assert(cells.filter(pred) =~= Seq::<FormulaRewrite>::empty());
        assert(rewrite_items(cells) =~= Seq::<BatchItem>::empty());
    }
    let f = cells.filter(pred);
    cells.lemma_filter_len(pred);
    assert forall|i: int|
        0 <= i < cells.len() && formula_changed(cells[i]) implies #[trigger] rewrite_items(
            cells,
        ).contains(put_item(cells[i])) by {
        cells.lemma_filter_contains(pred, i);
        let j = choose|j: int| 0 <= j < f.len() && f[j] == cells[i];
        assert(f.map_values(item)[j] == put_item(cells[i]));
    }
}

} // verus!
