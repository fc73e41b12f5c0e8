//! Recompute bookkeeping: which structural failures become `#NAME?`, the
//! spill-footprint cells a pass reports, the value-equality decisions of the
//! incremental pass, and the bounded fixpoint of the full pass.

use std::collections::HashSet;

use vstd::prelude::*;
use vstd::std_specs::hash::group_hash_axioms;

use crate::error::{BindError, RecomputeFailure, RecomputeResult, RuntimeError};
use crate::footprint::{lex_lt, CellAddr};
use crate::grid::{ColId, RowId, SheetId};
use crate::text::has_char;

verus! {

broadcast use group_hash_axioms;

/// The size of a dynamic-array spill anchored at a cell.
#[derive(Debug, Clone, Copy, PartialEq, Eq, Structural)]
pub struct SpillShape {
    pub rows: u32,
    pub cols: u32,
}

/// A binding failure that a recompute writes as `#NAME?` instead of
/// reporting: a dropped table or column, a missing sheet, a deleted name.
pub open spec fn is_name_mapped(e: RuntimeError) -> bool {
    match e {
        RuntimeError::Bind(b) => match b {
            BindError::UnknownTable(_) => true,
            BindError::UnknownTableColumn { .. } => true,
            BindError::UnknownSheet(_) => true,
            BindError::UnresolvedName(_) => true,
            BindError::Other(_) => false,
        },
        _ => false,
    }
}

/// Whether a recompute writes `#NAME?` for this failure (and counts the
/// cell as succeeded) rather than reporting it.
pub fn maps_to_name_error(e: &RuntimeError) -> (r: bool)
    ensures
        r == is_name_mapped(*e),
{
    match e {
        RuntimeError::Bind(b) => match b {
            BindError::UnknownTable(_) => true,
            BindError::UnknownTableColumn { .. } => true,
            BindError::UnknownSheet(_) => true,
            BindError::UnresolvedName(_) => true,
            BindError::Other(_) => false,
        },
        _ => false,
    }
}

/// `(s, r, c)` is a non-anchor cell of the spill of `shape` anchored at
/// `(sheet, row, col)`.
pub open spec fn in_body(
    sheet: SheetId,
    row: RowId,
    col: ColId,
    shape: SpillShape,
    s: SheetId,
    r: int,
    c: int,
) -> bool {
    &&& s == sheet
    &&& row <= r < row + shape.rows
    &&& col <= c < col + shape.cols
    &&& !(r == row && c == col)
}

/// `cells` lists the non-anchor cells of the spill, each once, row by row,
/// left to right.
pub open spec fn lists_body(
    cells: Seq<CellAddr>,
    sheet: SheetId,
    row: RowId,
    col: ColId,
    shape: SpillShape,
) -> bool {
    &&& forall|k: int|
        #![trigger cells[k]]
        0 <= k < cells.len() ==> in_body(
            sheet,
            row,
            col,
            shape,
            cells[k].0,
            cells[k].1 as int,
            cells[k].2 as int,
        )
    &&& forall|s: SheetId, r: RowId, c: ColId|
        #![trigger in_body(sheet, row, col, shape, s, r as int, c as int)]
        in_body(sheet, row, col, shape, s, r as int, c as int) ==> cells.contains((s, r, c))
    &&& forall|i: int, j: int|
        #![trigger cells[i], cells[j]]
        0 <= i < j < cells.len() ==> lex_lt(
            cells[i].1 as int,
            cells[i].2 as int,
            cells[j].1 as int,
            cells[j].2 as int,
        )
}

/// Appends the non-anchor cells of the spill of `shape` anchored at
/// `(sheet, row, col)` to `out`, row by row, left to right.
pub fn push_spill_body(
    out: &mut Vec<CellAddr>,
    sheet: SheetId,
    row: RowId,
    col: ColId,
    shape: SpillShape,
)
    requires
        row + shape.rows <= u32::MAX + 1,
        col + shape.cols <= u32::MAX + 1,
    ensures
        final(out)@.len() >= old(out)@.len(),
        final(out)@.take(old(out)@.len() as int) == old(out)@,
        lists_body(final(out)@.skip(old(out)@.len() as int), sheet, row, col, shape),
{
    let ghost start = out@.len() as int;
    let ghost orig = out@;
    let mut dr: u32 = 0;
    while dr < shape.rows
        invariant
            0 <= dr <= shape.rows,
            row + shape.rows <= u32::MAX + 1,
            col + shape.cols <= u32::MAX + 1,
            start == orig.len(),
            out@.len() >= start,
            out@.take(start) == orig,
            forall|k: int|
                #![trigger out@[k]]
                start <= k < out@.len() ==> in_body(
                    sheet,
                    row,
                    col,
                    shape,
                    out@[k].0,
                    out@[k].1 as int,
                    out@[k].2 as int,
                ) && out@[k].1 < row + dr,
            forall|s: SheetId, r: RowId, c: ColId|
                #![trigger in_body(sheet, row, col, shape, s, r as int, c as int)]
                in_body(sheet, row, col, shape, s, r as int, c as int) && r < row + dr
                    ==> out@.skip(start).contains((s, r, c)),
            forall|i: int, j: int|
                #![trigger out@[i], out@[j]]
                start <= i < j < out@.len() ==> lex_lt(
                    out@[i].1 as int,
                    out@[i].2 as int,
                    out@[j].1 as int,
                    out@[j].2 as int,
                ),
        decreases shape.rows - dr,
    {
        let mut dc: u32 = 0;
        while dc < shape.cols
            invariant
                0 <= dr < shape.rows,
                0 <= dc <= shape.cols,
                row + shape.rows <= u32::MAX + 1,
                col + shape.cols <= u32::MAX + 1,
                start == orig.len(),
                out@.len() >= start,
                out@.take(start) == orig,
                forall|k: int|
                    #![trigger out@[k]]
                    start <= k < out@.len() ==> in_body(
                        sheet,
                        row,
                        col,
                        shape,
                        out@[k].0,
                        out@[k].1 as int,
                        out@[k].2 as int,
                    ) && lex_lt(
                        out@[k].1 as int,
                        out@[k].2 as int,
                        row + dr,
                        col + dc,
                    ),
                forall|s: SheetId, r: RowId, c: ColId|
                    #![trigger in_body(sheet, row, col, shape, s, r as int, c as int)]
                    in_body(sheet, row, col, shape, s, r as int, c as int) && lex_lt(
                        r as int,
                        c as int,
                        row + dr,
                        col + dc,
                    ) ==> out@.skip(start).contains((s, r, c)),
                forall|i: int, j: int|
                    #![trigger out@[i], out@[j]]
                    start <= i < j < out@.len() ==> lex_lt(
                        out@[i].1 as int,
                        out@[i].2 as int,
                        out@[j].1 as int,
                        out@[j].2 as int,
                    ),
            decreases shape.cols - dc,
        {
            if !(dr == 0 && dc == 0) {
                let ghost before = out@;
                let cell: CellAddr = (sheet, row + dr, col + dc);
                out.push(cell);
                proof {
                    assert(out@.take(start) =~= before.take(start));
                    assert(out@.skip(start) =~= before.skip(start).push(cell));
                    assert forall|s: SheetId, r: RowId, c: ColId|
                        #![trigger in_body(sheet, row, col, shape, s, r as int, c as int)]
                        in_body(sheet, row, col, shape, s, r as int, c as int) && lex_lt(
                            r as int,
                            c as int,
                            row + dr,
                            col + dc + 1,
                        ) implies out@.skip(start).contains((s, r, c)) by {
                        if r == row + dr && c == col + dc {
                            assert(out@.skip(start)[out@.skip(start).len() - 1] == cell);
                        } else {
                            assert(before.skip(start).contains((s, r, c)));
                            let w = choose|w: int|
                                0 <= w < before.skip(start).len() && before.skip(start)[w] == (
                                    s,
                                    r,
                                    c,
                                );
                            assert(out@.skip(start)[w] == (s, r, c));
                        }
                    }
                }
            }
            dc += 1;
        }
        proof {
            assert forall|s: SheetId, r: RowId, c: ColId|
                #![trigger in_body(sheet, row, col, shape, s, r as int, c as int)]
                in_body(sheet, row, col, shape, s, r as int, c as int) && r < row + dr + 1
                    implies out@.skip(start).contains((s, r, c)) by {
                assert(lex_lt(r as int, c as int, row + dr, col + dc) || r == row + dr);
            }
        }
        dr += 1;
    }
    proof {
        let body = out@.skip(start);
        assert forall|k: int| #![trigger body[k]] 0 <= k < body.len() implies in_body(
            sheet,
            row,
            col,
            shape,
            body[k].0,
            body[k].1 as int,
            body[k].2 as int,
        ) by {
            assert(body[k] == out@[start + k]);
        }
        assert forall|i: int, j: int| #![trigger body[i], body[j]] 0 <= i < j < body.len() implies lex_lt(
            body[i].1 as int,
            body[i].2 as int,
            body[j].1 as int,
            body[j].2 as int,
        ) by {
            assert(body[i] == out@[start + i]);
            assert(body[j] == out@[start + j]);
        }
    }
}

/// The cell a formula's cached plan is keyed to: a formula that uses the
/// implicit-intersection `@` binds differently at each cell, so its plan is
/// keyed by `(row, col)`; any other formula's plan is shared across cells.
pub fn plan_anchor(formula_text: &str, row: RowId, col: ColId) -> (r: Option<(RowId, ColId)>)
    ensures
        r == if formula_text@.contains('@') {
            Some((row, col))
        } else {
            None
        },
{
    if has_char(formula_text, '@') {
        Some((row, col))
    } else {
        None
    }
}

/// A recompute keeps a formula's saved value instead of evaluating it: only
/// on the load path (`preserve`), with no UDF worker attached, for a formula
/// whose plan calls a UDF (evaluating it would only give `#CALC!`).
pub open spec fn keeps_saved(preserve: bool, has_worker: bool, references_udf: bool) -> bool {
    preserve && !has_worker && references_udf
}

/// Whether a recompute keeps a formula's saved value (see [`keeps_saved`]).
pub fn keeps_saved_value(preserve: bool, has_worker: bool, references_udf: bool) -> (r: bool)
    ensures
        r == keeps_saved(preserve, has_worker, references_udf),
{
    preserve && !has_worker && references_udf
}

/// The load path differs from a plain recompute only at a formula that
/// calls a UDF while no worker is attached: everywhere else (and whenever a
/// worker is attached) keeping saved values changes nothing, and such a
/// formula keeps its saved value exactly on the load path.
pub proof fn lemma_preserving_only_keeps_udf_values(preserve: bool, has_worker: bool, references_udf: bool)
    ensures
        (!references_udf || has_worker) ==> keeps_saved(preserve, has_worker, references_udf)
            == keeps_saved(false, has_worker, references_udf),
        (references_udf && !has_worker) ==> keeps_saved(preserve, has_worker, references_udf)
            == preserve,
        !keeps_saved(false, has_worker, references_udf),
{
}

/// Some entry of `rs` is for node `n`.
pub open spec fn lists_node(rs: Seq<(u64, Option<CellAddr>)>, n: u64) -> bool {
    exists|k: int| 0 <= k < rs.len() && rs[k].0 == n
}

/// The readers to re-extract after the spill anchored at `anchor` was
/// reshaped or dissolved. `rs` lists the readers of the old footprint, then
/// those of the new one, each with its formula cell (`None`: the node has no
/// cell or no formula). Each node is taken at its first entry, unless it has
/// no formula cell or is the anchor itself.
pub open spec fn reader_nodes(anchor: CellAddr, rs: Seq<(u64, Option<CellAddr>)>) -> Seq<u64>
    decreases rs.len(),
{
    if rs.len() == 0 {
        Seq::empty()
    } else {
        let prev = reader_nodes(anchor, rs.drop_last());
        let e = rs.last();
        if lists_node(rs.drop_last(), e.0) || e.1 is None || e.1 == Some(anchor) {
            prev
        } else {
            prev.push(e.0)
        }
    }
}

proof fn lemma_reader_nodes_listed(anchor: CellAddr, rs: Seq<(u64, Option<CellAddr>)>, n: u64)
    ensures
        reader_nodes(anchor, rs).contains(n) ==> lists_node(rs, n),
    decreases rs.len(),
{
    if rs.len() > 0 {
        lemma_reader_nodes_listed(anchor, rs.drop_last(), n);
        if reader_nodes(anchor, rs).contains(n) {
            let prev = reader_nodes(anchor, rs.drop_last());
            if prev.contains(n) {
                let k = choose|k: int| 0 <= k < rs.drop_last().len() && rs.drop_last()[k].0 == n;
                assert(rs[k].0 == n);
            } else {
                assert(rs[rs.len() - 1].0 == n);
            }
        }
    }
}

/// The readers picked after a spill reshape are readers of the footprints
/// with a formula cell other than the anchor; and a node all of whose
/// entries have such a cell is picked.
pub proof fn lemma_reader_nodes_picks_readers(
    anchor: CellAddr,
    rs: Seq<(u64, Option<CellAddr>)>,
    n: u64,
)
    ensures
        reader_nodes(anchor, rs).contains(n) ==> exists|k: int|
            0 <= k < rs.len() && rs[k].0 == n && rs[k].1 is Some && rs[k].1 != Some(anchor),
        (exists|k: int| 0 <= k < rs.len() && rs[k].0 == n) && (forall|k: int|
            0 <= k < rs.len() && rs[k].0 == n ==> rs[k].1 is Some && rs[k].1 != Some(anchor))
            ==> reader_nodes(anchor, rs).contains(n),
    decreases rs.len(),
{
    if rs.len() > 0 {
        let pre = rs.drop_last();
        lemma_reader_nodes_picks_readers(anchor, pre, n);
        let prev = reader_nodes(anchor, pre);
        let e = rs.last();
        if reader_nodes(anchor, rs).contains(n) {
            if prev.contains(n) {
                let k = choose|k: int|
                    0 <= k < pre.len() && pre[k].0 == n && pre[k].1 is Some && pre[k].1 != Some(
                        anchor,
                    );
                assert(rs[k] == pre[k]);
            } else {
                assert(reader_nodes(anchor, rs) == prev.push(e.0));
                assert(rs[rs.len() - 1] == e);
            }
        }
        if (exists|k: int| 0 <= k < rs.len() && rs[k].0 == n) && (forall|k: int|
            0 <= k < rs.len() && rs[k].0 == n ==> rs[k].1 is Some && rs[k].1 != Some(anchor)) {
            if exists|k: int| 0 <= k < pre.len() && pre[k].0 == n {
                assert forall|k: int| 0 <= k < pre.len() && pre[k].0 == n implies pre[k].1 is Some
                    && pre[k].1 != Some(anchor) by {
                    assert(rs[k] == pre[k]);
                }
                assert(prev.contains(n));
                let w = choose|w: int| 0 <= w < prev.len() && prev[w] == n;
                if !(lists_node(pre, e.0) || e.1 is None || e.1 == Some(anchor)) {
                    assert(reader_nodes(anchor, rs) == prev.push(e.0));
                    assert(reader_nodes(anchor, rs)[w] == n);
                }
            } else {
                let k = choose|k: int| 0 <= k < rs.len() && rs[k].0 == n;
                if k < pre.len() {
                    assert(pre[k].0 == n);
                }
                assert(k == rs.len() - 1);
                assert(rs[rs.len() - 1].0 == n);
                assert(rs[rs.len() - 1].1 is Some && rs[rs.len() - 1].1 != Some(anchor));
                assert(!lists_node(pre, n));
                assert(reader_nodes(anchor, rs) == prev.push(n));
                assert(reader_nodes(anchor, rs)[prev.len() as int] == n);
            }
        }
    }
}

/// The readers of a reshaped or dissolved spill to re-bind and mark dirty,
/// each once, in the order first met (see [`reader_nodes`]).
pub fn footprint_readers(anchor: CellAddr, readers: &Vec<(u64, Option<CellAddr>)>) -> (r: Vec<u64>)
    ensures
        r@ == reader_nodes(anchor, readers@),
        r@.no_duplicates(),
{
    let mut seen: HashSet<u64> = HashSet::new();
    let mut out: Vec<u64> = Vec::new();
    let mut i: usize = 0;
    while i < readers.len()
        invariant
            0 <= i <= readers@.len(),
            out@ == reader_nodes(anchor, readers@.take(i as int)),
            out@.no_duplicates(),
            forall|n: u64| seen@.contains(n) <==> lists_node(readers@.take(i as int), n),
        decreases readers@.len() - i,
    {
        let (n, a) = readers[i];
        let ghost pre = readers@.take(i as int);
        proof {
            assert(readers@.take(i + 1int).drop_last() =~= pre);
            assert(readers@.take(i + 1int).last() == readers@[i as int]);
        }
        let fresh = seen.insert(n);
        let keep = match a {
            Some(addr) => fresh && !(addr.0 == anchor.0 && addr.1 == anchor.1 && addr.2 == anchor.2),
            None => false,
        };
        if keep {
            proof {
                lemma_reader_nodes_listed(anchor, pre, n);
                assert(!out@.contains(n));
            }
            out.push(n);
        }
        proof {
            assert forall|m: u64| seen@.contains(m) <==> lists_node(readers@.take(i + 1int), m) by {
                if lists_node(readers@.take(i + 1int), m) {
                    let t = readers@.take(i + 1int);
                    let k = choose|k: int| 0 <= k < t.len() && #[trigger] t[k].0 == m;
                    if k < i {
                        assert(pre[k].0 == m);
                    }
                }
                if lists_node(pre, m) {
                    let k = choose|k: int| 0 <= k < pre.len() && #[trigger] pre[k].0 == m;
                    assert(readers@.take(i + 1int)[k].0 == m);
                }
                if m == n {
                    assert(readers@.take(i + 1int)[i as int].0 == m);
                }
            }
        }
        i += 1;
    }
    assert(readers@.take(readers@.len() as int) =~= readers@);
    out
}

/// One direct cell dependency of a dirty formula, as the incremental pass
/// sees it.
#[derive(Debug, Clone, Copy, PartialEq, Eq, Structural)]
pub struct DepState {
    /// The dependency is a formula claimed dirty in some iteration.
    pub dirty: bool,
    /// Its value changed during this recompute.
    pub changed: bool,
    /// It currently anchors a spill.
    pub spill_anchor: bool,
}

/// What the incremental pass knows of a dirty formula's dependencies.
#[derive(Debug, Clone)]
pub struct DepSummary {
    /// The formula reads a named or literal range.
    pub has_range_deps: bool,
    /// Its direct cell dependencies.
    pub cells: Vec<DepState>,
}

/// A dirty formula must be re-evaluated: it is volatile, has no tracked
/// dependencies, reads a range, has no dirty dependency (it was dirtied by
/// an outside edit), or has a dirty dependency whose value changed or which
/// anchors a spill (whose targets may have changed).
pub open spec fn must_eval(is_volatile: bool, deps: Option<DepSummary>) -> bool {
    is_volatile || match deps {
        None => true,
        Some(d) => d.has_range_deps || !(exists|i: int|
            0 <= i < d.cells@.len() && d.cells@[i].dirty) || (exists|i: int|
            0 <= i < d.cells@.len() && d.cells@[i].dirty && d.cells@[i].changed) || (exists|
            i: int,
        |
            0 <= i < d.cells@.len() && d.cells@[i].dirty && d.cells@[i].spill_anchor),
    }
}

/// The value-equality decision of the incremental pass for one dirty
/// formula: re-evaluate it, or skip it because no input value moved.
pub fn needs_eval(is_volatile: bool, deps: Option<&DepSummary>) -> (r: bool)
    ensures
        r == must_eval(
            is_volatile,
            match deps {
                Some(d) => Some(*d),
                None => None,
            },
        ),
{
    if is_volatile {
        return true;
    }
    let d = match deps {
        None => {
            return true;
        },
        Some(d) => d,
    };
    if d.has_range_deps {
        return true;
    }
    let mut had_dirty = false;
    let mut had_aliased = false;
    let mut i: usize = 0;
    while i < d.cells.len()
        invariant
            0 <= i <= d.cells@.len(),
            deps == Some(d),
            had_dirty == exists|k: int| 0 <= k < i && d.cells@[k].dirty,
            had_aliased == exists|k: int| 0 <= k < i && d.cells@[k].dirty && d.cells@[k].spill_anchor,
            forall|k: int| 0 <= k < i ==> !(d.cells@[k].dirty && d.cells@[k].changed),
        decreases d.cells@.len() - i,
    {
        let dep = d.cells[i];
        if dep.dirty {
            had_dirty = true;
            if dep.changed {
                assert(d.cells@[i as int].dirty && d.cells@[i as int].changed);
                return true;
            }
            if dep.spill_anchor {
                had_aliased = true;
            }
        }
        i += 1;
    }
    !had_dirty || had_aliased
}

/// Whether the incremental pass skips writing a freshly computed value: it
/// equals the value held before the recompute, and no spill just dissolved
/// to a scalar (dissolving blanks the anchor, which must be rewritten).
pub fn skips_write(prior_equal: bool, had_spill: bool, has_spill: bool) -> (r: bool)
    ensures
        r == (prior_equal && !(had_spill && !has_spill)),
{
    prior_equal && !(had_spill && !has_spill)
}

/// Whether the incremental pass skips writing an error value (`#CIRC!` for
/// a cycled formula, `#NAME?` for a mapped binding failure): the cell
/// already held it and no spill was dissolved.
pub fn skips_error_write(prior_equal: bool, dissolved: bool) -> (r: bool)
    ensures
        r == (prior_equal && !dissolved),
{
    prior_equal && !dissolved
}

/// Largest number of fixed-point iterations of the incremental pass.
pub const MAX_DIRTY_ITERATIONS: usize = 100;

/// The incremental pass reports a cap failure exactly when it used every
/// iteration and formulas are still dirty.
pub fn hit_iteration_cap(iterations: usize, still_dirty: usize) -> (r: bool)
    ensures
        r == (iterations == MAX_DIRTY_ITERATIONS && still_dirty > 0),
{
    iterations == MAX_DIRTY_ITERATIONS && still_dirty > 0
}

/// `cells` lists the non-anchor cells of the spill (none when there is no
/// spill).
pub open spec fn lists_opt_body(
    cells: Seq<CellAddr>,
    sheet: SheetId,
    row: RowId,
    col: ColId,
    shape: Option<SpillShape>,
) -> bool {
    match shape {
        None => cells.len() == 0,
        Some(sh) => lists_body(cells, sheet, row, col, sh),
    }
}

/// A spill of `shape` anchored at `(row, col)` stays inside the index range.
pub open spec fn fits(row: RowId, col: ColId, shape: Option<SpillShape>) -> bool {
    match shape {
        None => true,
        Some(sh) => row + sh.rows <= u32::MAX + 1 && col + sh.cols <= u32::MAX + 1,
    }
}

/// Appends the non-anchor cells of an optional spill.
fn push_opt_body(
    out: &mut Vec<CellAddr>,
    sheet: SheetId,
    row: RowId,
    col: ColId,
    shape: Option<SpillShape>,
)
    requires
        fits(row, col, shape),
    ensures
        final(out)@.len() >= old(out)@.len(),
        final(out)@.take(old(out)@.len() as int) == old(out)@,
        lists_opt_body(final(out)@.skip(old(out)@.len() as int), sheet, row, col, shape),
{
    match shape {
        Some(sh) => push_spill_body(out, sheet, row, col, sh),
        None => {
            assert(out@.skip(out@.len() as int) =~= Seq::<CellAddr>::empty());
            assert(out@.take(out@.len() as int) =~= out@);
        },
    }
}

/// The observable state of a full recompute.
pub struct FullRecomputeView {
    /// The formula cells, in the order every pass handles them.
    pub order: Seq<CellAddr>,
    /// Formula cells a pass evaluates.
    pub attempted: nat,
    /// Cells reported as (re)written, accumulated over every pass.
    pub changed: Seq<CellAddr>,
    /// Passes finished so far.
    pub passes: nat,
    /// Largest number of spill-involved cells any finished pass saw.
    pub max_spills: nat,
    /// The fixpoint has stopped.
    pub finished: bool,
    /// Cells handled in the current pass.
    pub seen: nat,
    /// Cells the current pass evaluated and wrote.
    pub succeeded: nat,
    /// Cycled cells the current pass handled.
    pub cycled: nat,
    /// Structural failures of the current pass, in order.
    pub failures: Seq<RecomputeFailure>,
    /// The current pass involved a spill.
    pub spill_involved: bool,
    /// The current pass changed an observable value.
    pub value_changed: bool,
    /// Spill-involved cells of the current pass.
    pub spill_count: nat,
}

/// The full recompute's bookkeeping over its bounded fixpoint: every formula
/// cell is evaluated once per pass, in dependency-first order; another pass
/// runs only while a spill is involved and some value moved, and never more
/// than `max_spills + 2` passes.
struct FullPass {
    order: Vec<CellAddr>,
    attempted: usize,
    changed: Vec<CellAddr>,
    passes: usize,
    max_spills: usize,
    finished: bool,
    seen: usize,
    succeeded: usize,
    cycled: usize,
    failures: Vec<RecomputeFailure>,
    spill_involved: bool,
    value_changed: bool,
    spill_count: usize,
}

impl View for FullPass {
    type V = FullRecomputeView;

    closed spec fn view(&self) -> FullRecomputeView {
        FullRecomputeView {
            order: self.order@,
            attempted: self.attempted as nat,
            changed: self.changed@,
            passes: self.passes as nat,
            max_spills: self.max_spills as nat,
            finished: self.finished,
            seen: self.seen as nat,
            succeeded: self.succeeded as nat,
            cycled: self.cycled as nat,
            failures: self.failures@,
            spill_involved: self.spill_involved,
            value_changed: self.value_changed,
            spill_count: self.spill_count as nat,
        }
    }
}

/// The next state after handling one more cell of the current pass: the
/// anchor is reported and counted as seen; everything else is unchanged.
pub open spec fn cell_step(a: FullRecomputeView, b: FullRecomputeView, addr: CellAddr) -> bool {
    &&& b.order == a.order
    &&& b.attempted == a.attempted
    &&& b.passes == a.passes
    &&& b.max_spills == a.max_spills
    &&& b.finished == a.finished
    &&& b.seen == a.seen + 1
    &&& b.changed.len() > a.changed.len()
    &&& b.changed.take(a.changed.len() as int) == a.changed
    &&& b.changed[a.changed.len() as int] == addr
}

/// Appending the next cell of `order` keeps every handled cell reported.
proof fn lemma_cover_step(
    order: Seq<CellAddr>,
    before: Seq<CellAddr>,
    after: Seq<CellAddr>,
    seen: int,
)
    requires
        0 <= seen < order.len(),
        forall|k: int| #![trigger order[k]] 0 <= k < seen ==> before.contains(order[k]),
        after.len() > before.len(),
        after.take(before.len() as int) == before,
        after[before.len() as int] == order[seen],
    ensures
        forall|k: int| #![trigger order[k]] 0 <= k < seen + 1 ==> after.contains(order[k]),
{
    assert forall|k: int| #![trigger order[k]] 0 <= k < seen + 1 implies after.contains(order[k]) by {
        if k < seen {
            let w = choose|w: int| 0 <= w < before.len() && before[w] == order[k];
            assert(after.take(before.len() as int)[w] == after[w]);
        } else {
            assert(after[before.len() as int] == order[k]);
        }
    }
}

/// Whether another pass follows the current one: a spill was involved, some
/// value moved, and the pass count stays below the largest spill count seen
/// (this pass included) plus two.
pub open spec fn continues_after(v: FullRecomputeView) -> bool {
    let max_spills = if v.spill_count > v.max_spills {
        v.spill_count
    } else {
        v.max_spills
    };
    v.spill_involved && v.value_changed && v.passes + 1 < max_spills + 2
}

impl FullPass {
    /// Well-formedness: counters stay within the pass and the pass count
    /// within its bound.
    pub closed spec fn wf(&self) -> bool {
        &&& self.attempted < usize::MAX - 2
        &&& self.order@.len() == self.attempted
        &&& forall|k: int|
            #![trigger self.order@[k]]
            0 <= k < self.seen ==> self.changed@.contains(self.order@[k])
        &&& self.seen <= self.attempted
        &&& self.succeeded + self.failures@.len() + self.cycled == self.seen
        &&& self.finished ==> self.seen == self.attempted
        &&& self.spill_count <= self.seen
        &&& self.max_spills <= self.attempted
        &&& self.passes <= self.max_spills + 2
        &&& !self.finished ==> self.passes < self.max_spills + 2
    }

    /// Starts a full recompute over the formula cells `order`, in the order
    /// every pass handles them (see [`crate::order::evaluation_order`]).
    /// `dissolved_targets` are the spill cells cleared while writing `#CIRC!`
    /// to cycled anchors; they are reported first.
    pub fn new(order: Vec<CellAddr>, dissolved_targets: Vec<CellAddr>) -> (r: Self)
        requires
            order@.len() < usize::MAX - 2,
        ensures
            r@.order == order@,
            r.wf(),
            r@.attempted == order@.len(),
            r@.changed == dissolved_targets@,
            r@.passes == 0,
            r@.max_spills == 0,
            !r@.finished,
            r@.seen == 0,
            r@.succeeded == 0,
            r@.cycled == 0,
            r@.failures.len() == 0,
            !r@.spill_involved,
            !r@.value_changed,
            r@.spill_count == 0,
    {
        let attempted = order.len();
        FullPass {
            order,
            attempted,
            changed: dissolved_targets,
            passes: 0,
            max_spills: 0,
            finished: false,
            seen: 0,
            succeeded: 0,
            cycled: 0,
            failures: Vec::new(),
            spill_involved: false,
            value_changed: false,
            spill_count: 0,
        }
    }

    /// An empty recompute over no cells.
    fn empty() -> (r: Self)
        ensures
            r.wf(),
    {
        Self::new(Vec::new(), Vec::new())
    }

    /// Whether the fixpoint has stopped.
    pub fn is_finished(&self) -> (r: bool)
        ensures
            r == self@.finished,
    {
        self.finished
    }

    /// A cycled cell: its `#CIRC!` was written before the pass; it is
    /// reported but neither succeeded nor failed.
    pub fn cycled(&mut self, addr: CellAddr)
        requires
            old(self).wf(),
            !old(self)@.finished,
            old(self)@.seen < old(self)@.attempted,
            addr == old(self)@.order[old(self)@.seen as int],
        ensures
            final(self).wf(),
            cell_step(old(self)@, final(self)@, addr),
            final(self)@.changed.len() == old(self)@.changed.len() + 1,
            final(self)@.succeeded == old(self)@.succeeded,
            final(self)@.cycled == old(self)@.cycled + 1,
            final(self)@.failures == old(self)@.failures,
            final(self)@.spill_involved == old(self)@.spill_involved,
            final(self)@.value_changed == old(self)@.value_changed,
            final(self)@.spill_count == old(self)@.spill_count,
    {
        let ghost before = self.changed@;
        self.changed.push(addr);
        assert(self.changed@.take(before.len() as int) =~= before);
        proof {
            lemma_cover_step(self.order@, before, self.changed@, self.seen as int);
        }
        self.cycled += 1;
        self.seen += 1;
    }

    /// A cell that evaluated and was written. `anchor_changed`: its value
    /// differs from the one at the start of the pass; `old_shape` /
    /// `new_shape`: its spill before and after; `targets_changed`: with an
    /// unchanged spill shape, some spill target value differs. Reports the
    /// anchor, then the old and the new spill body. Returns whether the
    /// spill shape changed (its readers must then be re-extracted).
    pub fn evaluated(
        &mut self,
        addr: CellAddr,
        anchor_changed: bool,
        old_shape: Option<SpillShape>,
        new_shape: Option<SpillShape>,
        targets_changed: bool,
    ) -> (reshaped: bool)
        requires
            old(self).wf(),
            !old(self)@.finished,
            old(self)@.seen < old(self)@.attempted,
            addr == old(self)@.order[old(self)@.seen as int],
            fits(addr.1, addr.2, old_shape),
            fits(addr.1, addr.2, new_shape),
        ensures
            final(self).wf(),
            cell_step(old(self)@, final(self)@, addr),
            reshaped == (old_shape != new_shape),
            final(self)@.succeeded == old(self)@.succeeded + 1,
            final(self)@.cycled == old(self)@.cycled,
            final(self)@.failures == old(self)@.failures,
            final(self)@.spill_involved == (old(self)@.spill_involved || old_shape is Some
                || new_shape is Some),
            final(self)@.spill_count == old(self)@.spill_count + if old_shape is Some
                || new_shape is Some {
                1nat
            } else {
                0nat
            },
            final(self)@.value_changed == (old(self)@.value_changed || anchor_changed || (
            old_shape == new_shape && new_shape is Some && targets_changed) || old_shape
                != new_shape),
            exists|m: int|
                old(self)@.changed.len() + 1 <= m <= final(self)@.changed.len()
                    && lists_opt_body(
                    final(self)@.changed.subrange(old(self)@.changed.len() + 1int, m),
                    addr.0,
                    addr.1,
                    addr.2,
                    old_shape,
                ) && lists_opt_body(
                    final(self)@.changed.subrange(m, final(self)@.changed.len() as int),
                    addr.0,
                    addr.1,
                    addr.2,
                    new_shape,
                ),
    {
        let ghost before = self.changed@;
        self.changed.push(addr);
        let ghost after_anchor = self.changed@;
        if anchor_changed {
            self.value_changed = true;
        }
        self.succeeded += 1;
        if old_shape.is_some() || new_shape.is_some() {
            self.spill_involved = true;
            self.spill_count += 1;
        }
        let reshaped = old_shape != new_shape;
        if !reshaped && new_shape.is_some() && targets_changed {
            self.value_changed = true;
        }
        push_opt_body(&mut self.changed, addr.0, addr.1, addr.2, old_shape);
        let ghost mid = self.changed@;
        push_opt_body(&mut self.changed, addr.0, addr.1, addr.2, new_shape);
        if reshaped {
            self.value_changed = true;
        }
        self.seen += 1;
        proof {
            let fin = self.changed@;
            let m = mid.len() as int;
            assert(after_anchor =~= before.push(addr));
            assert(fin.take(m) == mid);
            assert(mid.take(after_anchor.len() as int) == after_anchor);
            assert(fin.take(after_anchor.len() as int) =~= mid.take(after_anchor.len() as int));
            assert(fin.take(before.len() as int) =~= before);
            assert(fin.subrange(before.len() + 1int, m) =~= mid.skip(after_anchor.len() as int));
            assert(fin.subrange(m, fin.len() as int) =~= fin.skip(m));
            assert(fin.take(after_anchor.len() as int)[before.len() as int] == fin[before.len() as int]);
            assert(fin[before.len() as int] == addr);
            lemma_cover_step(self.order@, before, fin, self.seen - 1);
            assert(lists_opt_body(fin.subrange(before.len() + 1int, m), addr.0, addr.1, addr.2, old_shape));
            assert(lists_opt_body(fin.subrange(m, fin.len() as int), addr.0, addr.1, addr.2, new_shape));
            assert(before.len() + 1 <= m <= fin.len());
            assert(before == old(self)@.changed);
            assert(fin == self@.changed);
            assert(exists|m2: int|
                before.len() + 1 <= m2 <= fin.len() && lists_opt_body(
                    fin.subrange(before.len() + 1int, m2),
                    addr.0,
                    addr.1,
                    addr.2,
                    old_shape,
                ) && lists_opt_body(
                    fin.subrange(m2, fin.len() as int),
                    addr.0,
                    addr.1,
                    addr.2,
                    new_shape,
                ));
        }
        reshaped
    }

    /// A cell whose formula failed structurally with `error`.
    /// `prior_is_name_error`: the cell held `#NAME?` at the start of the
    /// pass; `old_shape`: its spill. A binding failure that maps to `#NAME?`
    /// dissolves the spill (its body is reported), counts as succeeded and
    /// returns `true` (the caller clears the spill and writes `#NAME?`);
    /// any other failure is recorded and returns `false`.
    pub fn failed(
        &mut self,
        addr: CellAddr,
        formula_text: String,
        error: RuntimeError,
        prior_is_name_error: bool,
        old_shape: Option<SpillShape>,
    ) -> (write_name_error: bool)
        requires
            old(self).wf(),
            !old(self)@.finished,
            old(self)@.seen < old(self)@.attempted,
            addr == old(self)@.order[old(self)@.seen as int],
            fits(addr.1, addr.2, old_shape),
        ensures
            final(self).wf(),
            cell_step(old(self)@, final(self)@, addr),
            write_name_error == is_name_mapped(error),
            final(self)@.cycled == old(self)@.cycled,
            write_name_error ==> {
                &&& final(self)@.succeeded == old(self)@.succeeded + 1
                &&& final(self)@.failures == old(self)@.failures
                &&& final(self)@.spill_involved == (old(self)@.spill_involved || old_shape is Some)
                &&& final(self)@.spill_count == old(self)@.spill_count + if old_shape is Some {
                    1nat
                } else {
                    0nat
                }
                &&& final(self)@.value_changed == (old(self)@.value_changed || !prior_is_name_error
                    || old_shape is Some)
                &&& lists_opt_body(
                    final(self)@.changed.skip(old(self)@.changed.len() + 1int),
                    addr.0,
                    addr.1,
                    addr.2,
                    old_shape,
                )
            },
            !write_name_error ==> {
                &&& final(self)@.succeeded == old(self)@.succeeded
                &&& final(self)@.failures.len() == old(self)@.failures.len() + 1
                &&& final(self)@.failures.take(old(self)@.failures.len() as int)
                    == old(self)@.failures
                &&& final(self)@.failures.last() == (RecomputeFailure {
                    sheet: addr.0,
                    row: addr.1,
                    col: addr.2,
                    formula_text,
                    error,
                })
                &&& final(self)@.spill_involved == old(self)@.spill_involved
                &&& final(self)@.spill_count == old(self)@.spill_count
                &&& final(self)@.value_changed == old(self)@.value_changed
                &&& final(self)@.changed.len() == old(self)@.changed.len() + 1
            },
    {
        let ghost before = self.changed@;
        self.changed.push(addr);
        let ghost after_anchor = self.changed@;
        let mapped = maps_to_name_error(&error);
        if mapped {
            push_opt_body(&mut self.changed, addr.0, addr.1, addr.2, old_shape);
            if !prior_is_name_error {
                self.value_changed = true;
            }
            if old_shape.is_some() {
                self.spill_involved = true;
                self.spill_count += 1;
                self.value_changed = true;
            }
            self.succeeded += 1;
            proof {
                let fin = self.changed@;
                assert(after_anchor =~= before.push(addr));
                assert(fin.take(after_anchor.len() as int) == after_anchor);
                assert(fin.take(before.len() as int) =~= before);
                assert(fin[before.len() as int] == after_anchor[before.len() as int]);
                assert(self.changed@.skip(before.len() + 1int) =~= self.changed@.skip(
                    after_anchor.len() as int,
                ));
            }
        } else {
            let ghost fb = self.failures@;
            self.failures.push(
                RecomputeFailure { sheet: addr.0, row: addr.1, col: addr.2, formula_text, error },
            );
            assert(self.failures@.take(fb.len() as int) =~= fb);
            assert(self.changed@.take(before.len() as int) =~= before);
        }
        proof {
            assert(self.changed@[before.len() as int] == addr);
            lemma_cover_step(self.order@, before, self.changed@, self.seen as int);
        }
        self.seen += 1;
        mapped
    }

    /// Ends the current pass. Another pass runs (returns `true`, with the
    /// pass counters reset) iff a spill was involved and some value moved,
    /// and fewer than `max_spills + 2` passes have run; otherwise the
    /// fixpoint stops.
    pub fn end_pass(&mut self) -> (again: bool)
        requires
            old(self).wf(),
            !old(self)@.finished,
            old(self)@.seen == old(self)@.attempted,
        ensures
            final(self).wf(),
            final(self)@.passes == old(self)@.passes + 1,
            final(self)@.max_spills == if old(self)@.spill_count > old(self)@.max_spills {
                old(self)@.spill_count
            } else {
                old(self)@.max_spills
            },
            again == continues_after(old(self)@),
            again == (old(self)@.spill_involved && old(self)@.value_changed && old(self)@.passes + 1
                < (if old(self)@.spill_count > old(self)@.max_spills {
                old(self)@.spill_count
            } else {
                old(self)@.max_spills
            }) + 2),
            final(self)@.finished == !again,
            final(self)@.attempted == old(self)@.attempted,
            final(self)@.order == old(self)@.order,
            final(self)@.changed == old(self)@.changed,
            again ==> final(self)@.seen == 0 && final(self)@.succeeded == 0 && final(self)@.cycled == 0
                && final(self)@.failures.len() == 0 && !final(self)@.spill_involved
                && !final(self)@.value_changed && final(self)@.spill_count == 0,
            !again ==> final(self)@.seen == old(self)@.seen && final(self)@.succeeded == old(
                self,
            )@.succeeded && final(self)@.cycled == old(self)@.cycled && final(self)@.failures
                == old(self)@.failures,
    {
        self.passes += 1;
        if self.spill_count > self.max_spills {
            self.max_spills = self.spill_count;
        }
        let again = self.spill_involved && self.value_changed && (self.passes as u128) < (
            self.max_spills as u128) + 2;
        if again {
            self.seen = 0;
            self.succeeded = 0;
            self.cycled = 0;
            self.failures = Vec::new();
            self.spill_involved = false;
            self.value_changed = false;
            self.spill_count = 0;
        } else {
            self.finished = true;
        }
        again
    }

    /// The outcome of the last pass, with every reported cell.
    pub fn into_result(self) -> (r: RecomputeResult)
        requires
            self.wf(),
            self@.finished,
        ensures
            r.succeeded + r.failures@.len() + self@.cycled == r.attempted,
            forall|k: int|
                0 <= k < self@.order.len() ==> #[trigger] r.changed_cells@.contains(self@.order[k]),
            r.attempted == self@.attempted,
            r.succeeded == self@.succeeded,
            r.failures@ == self@.failures,
            r.skipped_value_equality == 0,
            r.simd_classified == 0,
            r.changed_cells@ == self@.changed,
    {
        RecomputeResult {
            attempted: self.attempted,
            succeeded: self.succeeded,
            failures: self.failures,
            skipped_value_equality: 0,
            simd_classified: 0,
            changed_cells: self.changed,
        }
    }
}

/// The full recompute's bookkeeping (see the pass state it keeps): every
/// formula cell is evaluated once per pass, in dependency-first order; another
/// pass runs only while a spill is involved and some value moved, and never
/// more than `max_spills + 2` passes.
pub struct FullRecompute {
    pass: FullPass,
}

impl View for FullRecompute {
    type V = FullRecomputeView;

    closed spec fn view(&self) -> Self::V {
        self.pass@
    }
}

impl FullRecompute {
    /// The state's well-formedness, kept by every step.
    #[verifier::type_invariant]
    pub closed spec fn wf(&self) -> bool {
        self.pass.wf()
    }

    /// Starts a full recompute over the formula cells `order`, in the order
    /// every pass handles them (see [`crate::order::evaluation_order`]).
    /// `dissolved_targets` are the spill cells cleared while writing `#CIRC!`
    /// to cycled anchors; they are reported first.
    pub fn new(order: Vec<CellAddr>, dissolved_targets: Vec<CellAddr>) -> (r: Self)
        requires
            order@.len() < usize::MAX - 2,
        ensures
            r@.order == order@,
            r@.attempted == order@.len(),
            r@.changed == dissolved_targets@,
            r@.passes == 0,
            r@.max_spills == 0,
            !r@.finished,
            r@.seen == 0,
            r@.succeeded == 0,
            r@.cycled == 0,
            r@.failures.len() == 0,
            !r@.spill_involved,
            !r@.value_changed,
            r@.spill_count == 0,
    {
        FullRecompute { pass: FullPass::new(order, dissolved_targets) }
    }

    /// Whether the fixpoint has stopped.
    pub fn is_finished(&self) -> (r: bool)
        ensures
            r == self@.finished,
    {
        proof {
            use_type_invariant(self);
        }
        self.pass.is_finished()
    }

    /// A cycled cell: its `#CIRC!` was written before the pass; it is
    /// reported but neither succeeded nor failed.
    pub fn cycled(&mut self, addr: CellAddr)
        requires
            !old(self)@.finished,
            old(self)@.seen < old(self)@.attempted,
            addr == old(self)@.order[old(self)@.seen as int],
        ensures
            cell_step(old(self)@, final(self)@, addr),
            final(self)@.changed.len() == old(self)@.changed.len() + 1,
            final(self)@.succeeded == old(self)@.succeeded,
            final(self)@.cycled == old(self)@.cycled + 1,
            final(self)@.failures == old(self)@.failures,
            final(self)@.spill_involved == old(self)@.spill_involved,
            final(self)@.value_changed == old(self)@.value_changed,
            final(self)@.spill_count == old(self)@.spill_count,
    {
        proof {
            use_type_invariant(&*self);
        }
        let mut p = FullPass::empty();
        std::mem::swap(&mut p, &mut self.pass);
        p.cycled(addr);
        self.pass = p;
    }

    /// A cell that evaluated and was written. `anchor_changed`: its value
    /// differs from the one at the start of the pass; `old_shape` /
    /// `new_shape`: its spill before and after; `targets_changed`: with an
    /// unchanged spill shape, some spill target value differs. Reports the
    /// anchor, then the old and the new spill body. Returns whether the
    /// spill shape changed (its readers must then be re-extracted).
    pub fn evaluated(
        &mut self,
        addr: CellAddr,
        anchor_changed: bool,
        old_shape: Option<SpillShape>,
        new_shape: Option<SpillShape>,
        targets_changed: bool,
    ) -> (reshaped: bool)
        requires
            !old(self)@.finished,
            old(self)@.seen < old(self)@.attempted,
            addr == old(self)@.order[old(self)@.seen as int],
            fits(addr.1, addr.2, old_shape),
            fits(addr.1, addr.2, new_shape),
        ensures
            cell_step(old(self)@, final(self)@, addr),
            reshaped == (old_shape != new_shape),
            final(self)@.succeeded == old(self)@.succeeded + 1,
            final(self)@.cycled == old(self)@.cycled,
            final(self)@.failures == old(self)@.failures,
            final(self)@.spill_involved == (old(self)@.spill_involved || old_shape is Some
                || new_shape is Some),
            final(self)@.spill_count == old(self)@.spill_count + if old_shape is Some
                || new_shape is Some {
                1nat
            } else {
                0nat
            },
            final(self)@.value_changed == (old(self)@.value_changed || anchor_changed || (
            old_shape == new_shape && new_shape is Some && targets_changed) || old_shape
                != new_shape),
            exists|m: int|
                old(self)@.changed.len() + 1 <= m <= final(self)@.changed.len()
                    && lists_opt_body(
                    final(self)@.changed.subrange(old(self)@.changed.len() + 1int, m),
                    addr.0,
                    addr.1,
                    addr.2,
                    old_shape,
                ) && lists_opt_body(
                    final(self)@.changed.subrange(m, final(self)@.changed.len() as int),
                    addr.0,
                    addr.1,
                    addr.2,
                    new_shape,
                ),
    {
        proof {
            use_type_invariant(&*self);
        }
        let mut p = FullPass::empty();
        std::mem::swap(&mut p, &mut self.pass);
        let r = p.evaluated(addr, anchor_changed, old_shape, new_shape, targets_changed);
        self.pass = p;
        r
    }

    /// A cell whose formula failed structurally with `error`.
    /// `prior_is_name_error`: the cell held `#NAME?` at the start of the
    /// pass; `old_shape`: its spill. A binding failure that maps to `#NAME?`
    /// dissolves the spill (its body is reported), counts as succeeded and
    /// returns `true` (the caller clears the spill and writes `#NAME?`);
    /// any other failure is recorded and returns `false`.
    pub fn failed(
        &mut self,
        addr: CellAddr,
        formula_text: String,
        error: RuntimeError,
        prior_is_name_error: bool,
        old_shape: Option<SpillShape>,
    ) -> (write_name_error: bool)
        requires
            !old(self)@.finished,
            old(self)@.seen < old(self)@.attempted,
            addr == old(self)@.order[old(self)@.seen as int],
            fits(addr.1, addr.2, old_shape),
        ensures
            cell_step(old(self)@, final(self)@, addr),
            write_name_error == is_name_mapped(error),
            final(self)@.cycled == old(self)@.cycled,
            write_name_error ==> {
                &&& final(self)@.succeeded == old(self)@.succeeded + 1
                &&& final(self)@.failures == old(self)@.failures
                &&& final(self)@.spill_involved == (old(self)@.spill_involved || old_shape is Some)
                &&& final(self)@.spill_count == old(self)@.spill_count + if old_shape is Some {
                    1nat
                } else {
                    0nat
                }
                &&& final(self)@.value_changed == (old(self)@.value_changed || !prior_is_name_error
                    || old_shape is Some)
                &&& lists_opt_body(
                    final(self)@.changed.skip(old(self)@.changed.len() + 1int),
                    addr.0,
                    addr.1,
                    addr.2,
                    old_shape,
                )
            },
            !write_name_error ==> {
                &&& final(self)@.succeeded == old(self)@.succeeded
                &&& final(self)@.failures.len() == old(self)@.failures.len() + 1
                &&& final(self)@.failures.take(old(self)@.failures.len() as int)
                    == old(self)@.failures
                &&& final(self)@.failures.last() == (RecomputeFailure {
                    sheet: addr.0,
                    row: addr.1,
                    col: addr.2,
                    formula_text,
                    error,
                })
                &&& final(self)@.spill_involved == old(self)@.spill_involved
                &&& final(self)@.spill_count == old(self)@.spill_count
                &&& final(self)@.value_changed == old(self)@.value_changed
                &&& final(self)@.changed.len() == old(self)@.changed.len() + 1
            },
    {
        proof {
            use_type_invariant(&*self);
        }
        let mut p = FullPass::empty();
        std::mem::swap(&mut p, &mut self.pass);
        let r = p.failed(addr, formula_text, error, prior_is_name_error, old_shape);
        self.pass = p;
        r
    }

    /// Ends the current pass. Another pass runs (returns `true`, with the
    /// pass counters reset) iff a spill was involved and some value moved,
    /// and fewer than `max_spills + 2` passes have run; otherwise the
    /// fixpoint stops.
    pub fn end_pass(&mut self) -> (again: bool)
        requires
            !old(self)@.finished,
            old(self)@.seen == old(self)@.attempted,
        ensures
            final(self)@.passes == old(self)@.passes + 1,
            final(self)@.max_spills == if old(self)@.spill_count > old(self)@.max_spills {
                old(self)@.spill_count
            } else {
                old(self)@.max_spills
            },
            again == continues_after(old(self)@),
            again == (old(self)@.spill_involved && old(self)@.value_changed && old(self)@.passes + 1
                < (if old(self)@.spill_count > old(self)@.max_spills {
                old(self)@.spill_count
            } else {
                old(self)@.max_spills
            }) + 2),
            final(self)@.finished == !again,
            final(self)@.attempted == old(self)@.attempted,
            final(self)@.order == old(self)@.order,
            final(self)@.changed == old(self)@.changed,
            again ==> final(self)@.seen == 0 && final(self)@.succeeded == 0 && final(self)@.cycled == 0
                && final(self)@.failures.len() == 0 && !final(self)@.spill_involved
                && !final(self)@.value_changed && final(self)@.spill_count == 0,
            !again ==> final(self)@.seen == old(self)@.seen && final(self)@.succeeded == old(
                self,
            )@.succeeded && final(self)@.cycled == old(self)@.cycled && final(self)@.failures
                == old(self)@.failures,
    {
        proof {
            use_type_invariant(&*self);
        }
        let mut p = FullPass::empty();
        std::mem::swap(&mut p, &mut self.pass);
        let r = p.end_pass();
        self.pass = p;
        r
    }

    /// The outcome of the last pass, with every reported cell.
    pub fn into_result(self) -> (r: RecomputeResult)
        requires
            self@.finished,
        ensures
            r.succeeded + r.failures@.len() + self@.cycled == r.attempted,
            forall|k: int|
                0 <= k < self@.order.len() ==> #[trigger] r.changed_cells@.contains(self@.order[k]),
            r.attempted == self@.attempted,
            r.succeeded == self@.succeeded,
            r.failures@ == self@.failures,
            r.skipped_value_equality == 0,
            r.simd_classified == 0,
            r.changed_cells@ == self@.changed,
    {
        proof {
            use_type_invariant(&self);
        }
        self.pass.into_result()
    }
}

/// A finished pass accounts for every formula cell exactly once: each one
/// was cycled, succeeded or failed, and every one is reported.
pub proof fn lemma_full_pass_counts(d: FullRecompute)
    requires
        d.wf(),
        d@.seen == d@.attempted,
    ensures
        d@.succeeded + d@.failures.len() + d@.cycled == d@.attempted,
        forall|k: int| 0 <= k < d@.order.len() ==> #[trigger] d@.changed.contains(d@.order[k]),
{
}

/// The full recompute's fixpoint always stops: it never runs more than
/// `attempted + 2` passes.
pub proof fn lemma_full_recompute_passes_bounded(d: FullRecompute)
    requires
        d.wf(),
    ensures
        d@.passes <= d@.attempted + 2,
{
    reveal(FullRecompute::wf);
}

/// A pass in which spills were involved and values moved is followed by
/// another one until more passes have run than it saw spill-involved cells:
/// a chain of `k` spills, each reading the next one's target, gets at least
/// `k + 1` passes, enough for the last target to reach the first anchor.
pub proof fn lemma_spill_chain_gets_enough_passes(v: FullRecomputeView)
    requires
        v.spill_involved,
        v.value_changed,
        v.passes <= v.spill_count,
    ensures
        continues_after(v),
{
}

/// A pass that involved no spill is the last one: a workbook without
/// dynamic arrays converges in one pass.
pub proof fn lemma_no_spill_single_pass(v: FullRecomputeView)
    requires
        !v.spill_involved,
    ensures
        !continues_after(v),
{
}

} // verus!
