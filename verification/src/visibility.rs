//! Row visibility: hide or show rows of a sheet.

use vstd::prelude::*;

use crate::error::{CellBound, RuntimeError};
use crate::grid::{validate_sheet, RowId, SheetId, MAX_ROW};
use crate::ops::Op;
use crate::runtime::{logged, WorkbookRuntime};

verus! {

/// The rows whose visibility flips when `rows` are set to `hidden`, given
/// each row's current state in `currently_hidden` (same positions), in order
/// and with repeats kept.
pub open spec fn changed_rows(rows: Seq<RowId>, currently_hidden: Seq<bool>, hidden: bool) -> Seq<
    RowId,
>
    decreases rows.len(),
{
    if rows.len() == 0 {
        Seq::empty()
    } else {
        let prev = changed_rows(rows.drop_last(), currently_hidden.take(rows.len() - 1), hidden);
        if currently_hidden[rows.len() - 1] != hidden {
            prev.push(rows.last())
        } else {
            prev
        }
    }
}

/// Index `i` holds the first row past `MAX_ROW`.
pub open spec fn first_bad_row(rows: Seq<RowId>, i: int) -> bool {
    0 <= i < rows.len() && rows[i] > MAX_ROW && forall|k: int| 0 <= k < i ==> rows[k] <= MAX_ROW
}

impl WorkbookRuntime {
    /// Hides (`hidden = true`) or shows the given rows of `sheet`.
    /// `currently_hidden[i]` is row `rows[i]`'s current state. Every row is
    /// checked before anything changes; the first row past `MAX_ROW` refuses
    /// the whole call. Records one `Op::SetRowsHidden` carrying only the rows
    /// whose state flips, and returns those rows (empty: a pure no-op that
    /// records nothing).
    pub fn set_rows_hidden(
        &mut self,
        sheet: SheetId,
        rows: &Vec<RowId>,
        hidden: bool,
        sheet_count: usize,
        currently_hidden: &Vec<bool>,
    ) -> (r: Result<Vec<RowId>, RuntimeError>)
        requires
            currently_hidden@.len() == rows@.len(),
        ensures
            sheet as int >= sheet_count ==> r == Err::<Vec<RowId>, RuntimeError>(
                RuntimeError::InvalidSheet { sheet, sheet_count },
            ),
            (sheet as int) < sheet_count && (exists|i: int| first_bad_row(rows@, i)) ==> (r matches Err(
                RuntimeError::InvalidCell { sheet: s, row, col, why },
            ) && s == sheet && col == 0 && why == CellBound::RowExceedsMax && exists|i: int|
                first_bad_row(rows@, i) && rows@[i] == row),
            (sheet as int) < sheet_count && (forall|i: int| 0 <= i < rows@.len() ==> rows@[i]
                <= MAX_ROW) ==> (r matches Ok(c) && c@ == changed_rows(
                rows@,
                currently_hidden@,
                hidden,
            )),
            !(r matches Ok(c) && c@.len() > 0) ==> final(self).recorded() == old(self).recorded(),
            r matches Ok(c) ==> (c@.len() > 0 ==> exists|v: Vec<RowId>|
                v@ == c@ && logged(
                    old(self).recorded(),
                    final(self).recorded(),
                    seq![Op::SetRowsHidden { sheet, rows: v, hidden }],
                )),
            final(self).has_graph() == old(self).has_graph(),
    {
        validate_sheet(sheet_count, sheet)?;
        let mut i: usize = 0;
        while i < rows.len()
            invariant
                0 <= i <= rows.len(),
                (sheet as int) < sheet_count,
                forall|k: int| 0 <= k < i ==> rows@[k] <= MAX_ROW,
            decreases rows.len() - i,
        {
            if rows[i] > MAX_ROW {
                assert(first_bad_row(rows@, i as int));
                return Err(
                    RuntimeError::InvalidCell {
                        sheet,
                        row: rows[i],
                        col: 0,
                        why: CellBound::RowExceedsMax,
                    },
                );
            }
            i += 1;
        }
        assert(forall|i: int| !first_bad_row(rows@, i));
        let mut changed: Vec<RowId> = Vec::new();
        let mut j: usize = 0;
        while j < rows.len()
            invariant
                0 <= j <= rows.len(),
                currently_hidden@.len() == rows@.len(),
                changed@ == changed_rows(
                    rows@.take(j as int),
                    currently_hidden@.take(j as int),
                    hidden,
                ),
            decreases rows.len() - j,
        {
            proof {
                let rs = rows@.take(j + 1);
                let hs = currently_hidden@.take(j + 1);
                assert(rs.drop_last() =~= rows@.take(j as int));
                assert(hs.take(rs.len() - 1) =~= currently_hidden@.take(j as int));
            }
            if currently_hidden[j] != hidden {
                changed.push(rows[j]);
            }
            j += 1;
        }
        assert(rows@.take(rows@.len() as int) =~= rows@);
        assert(currently_hidden@.take(rows@.len() as int) =~= currently_hidden@);
        if changed.len() == 0 {
            return Ok(changed);
        }
        let recorded_rows = changed.clone();
        assert(recorded_rows@ =~= changed@);
        self.record(Op::SetRowsHidden { sheet, rows: recorded_rows, hidden });
        Ok(changed)
    }
}

/// Hiding or showing rows settles: once every listed row is in the requested
/// state, setting them to that state again flips nothing.
pub proof fn lemma_set_rows_hidden_settles(rows: Seq<RowId>, hidden: bool)
    ensures
        changed_rows(rows, Seq::new(rows.len(), |i: int| hidden), hidden).len() == 0,
    decreases rows.len(),
{
    if rows.len() > 0 {
        let flags = Seq::new(rows.len(), |i: int| hidden);
        assert(flags.take(rows.len() - 1) =~= Seq::new((rows.len() - 1) as nat, |i: int| hidden));
        lemma_set_rows_hidden_settles(rows.drop_last(), hidden);
    }
}

/// Each listed row paired with its current state.
pub open spec fn row_states(rows: Seq<RowId>, currently_hidden: Seq<bool>) -> Seq<(RowId, bool)> {
    Seq::new(rows.len(), |i: int| (rows[i], currently_hidden[i]))
}

/// The rows a hide / show call reports and records are exactly the listed
/// rows whose current state differs from the requested one, in the order
/// listed (repeats kept), for hiding and for showing alike.
pub proof fn lemma_changed_rows_are_the_flipping_rows(
    rows: Seq<RowId>,
    currently_hidden: Seq<bool>,
    hidden: bool,
)
    requires
        currently_hidden.len() == rows.len(),
    ensures
        changed_rows(rows, currently_hidden, hidden) == row_states(rows, currently_hidden).filter(
            |p: (RowId, bool)| p.1 != hidden,
        ).map_values(|p: (RowId, bool)| p.0),
    decreases rows.len(),
{
    reveal(Seq::filter);
    let pred = |p: (RowId, bool)| p.1 != hidden;
    let first = |p: (RowId, bool)| p.0;
    if rows.len() > 0 {
        let n = rows.len() - 1;
        lemma_changed_rows_are_the_flipping_rows(rows.drop_last(), currently_hidden.take(n), hidden);
        let all = row_states(rows, currently_hidden);
        assert(all.drop_last() =~= row_states(rows.drop_last(), currently_hidden.take(n)));
        let sub = all.drop_last().filter(pred);
        if pred(all.last()) {
            assert(all.filter(pred) == sub.push(all.last()));
            assert(sub.push(all.last()).map_values(first) =~= sub.map_values(first).push(rows.last()));
        } else {
            assert(all.filter(pred) == sub);
        }
    } else {
        assert(row_states(rows, currently_hidden).filter(pred) =~= Seq::<(RowId, bool)>::empty());
        assert(changed_rows(rows, currently_hidden, hidden) =~= Seq::<RowId>::empty());
    }
}

/// Pointwise: every listed row whose state differs from the requested one is
/// reported, and every reported row is such a listed row; no more are
/// reported than listed.
pub proof fn lemma_changed_rows_pointwise(rows: Seq<RowId>, currently_hidden: Seq<bool>, hidden: bool)
    requires
        currently_hidden.len() == rows.len(),
    ensures
        forall|i: int|
            0 <= i < rows.len() && currently_hidden[i] != hidden ==> changed_rows(
                rows,
                currently_hidden,
                hidden,
            ).contains(#[trigger] rows[i]),
        forall|x: RowId|
            #[trigger] changed_rows(rows, currently_hidden, hidden).contains(x) ==> exists|i: int|
                0 <= i < rows.len() && rows[i] == x && currently_hidden[i] != hidden,
        changed_rows(rows, currently_hidden, hidden).len() <= rows.len(),
{
    lemma_changed_rows_are_the_flipping_rows(rows, currently_hidden, hidden);
    let pred = |p: (RowId, bool)| p.1 != hidden;
    let first = |p: (RowId, bool)| p.0;
    let all = row_states(rows, currently_hidden);
    let f = all.filter(pred);
    all.lemma_filter_len(pred);
    assert forall|i: int|
        0 <= i < rows.len() && currently_hidden[i] != hidden implies changed_rows(
            rows,
            currently_hidden,
            hidden,
        ).contains(#[trigger] rows[i]) by {
        assert(pred(all[i]));
        all.lemma_filter_contains(pred, i);
        assert(f.contains(all[i]));
        let j = choose|j: int| 0 <= j < f.len() && f[j] == all[i];
        assert(f.map_values(first)[j] == rows[i]);
    }
    assert forall|x: RowId|
        #[trigger] changed_rows(rows, currently_hidden, hidden).contains(x) implies exists|i: int|
            0 <= i < rows.len() && rows[i] == x && currently_hidden[i] != hidden by {
        let j = choose|j: int| 0 <= j < f.map_values(first).len() && f.map_values(first)[j] == x;
        all.lemma_filter_pred(pred, j);
        assert(f.contains(f[j]));
        all.lemma_filter_contains_rev(pred, f[j]);
        assert(all.contains(f[j]));
        let i = choose|i: int| 0 <= i < all.len() && all[i] == f[j];
        assert(rows[i] == x && currently_hidden[i] != hidden);
    }
}

} // verus!
