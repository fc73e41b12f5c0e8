//! The incremental recompute's bookkeeping over its bounded fixed-point loop:
//! what each dirty formula counts as, the cells whose computed value the pass
//! (re)wrote, and the failure reported when the loop runs out of iterations.

use std::collections::HashSet;

use vstd::prelude::*;
use vstd::std_specs::hash::group_hash_axioms;

use crate::error::{RecomputeFailure, RecomputeResult, RuntimeError};
use crate::footprint::{lemma_packed_injective, lex_lt, pack, packed, CellAddr};
use crate::grid::{ColId, RowId, SheetId};
use crate::recompute::{
    fits,
    hit_iteration_cap,
    in_body,
    is_name_mapped,
    lists_body,
    lists_opt_body,
    maps_to_name_error,
    push_spill_body,
    skips_error_write,
    skips_write,
    SpillShape,
    MAX_DIRTY_ITERATIONS,
};

verus! {

broadcast use group_hash_axioms;

/// The non-anchor cells of an optional spill anchored at `(sheet, row, col)`.
pub open spec fn body_set(sheet: SheetId, row: RowId, col: ColId, shape: Option<SpillShape>) -> Set<
    CellAddr,
> {
    Set::new(
        |a: CellAddr|
            match shape {
                Some(sh) => in_body(sheet, row, col, sh, a.0, a.1 as int, a.2 as int),
                None => false,
            },
    )
}

/// The anchor when it is written, nothing otherwise.
pub open spec fn written(addr: CellAddr, write: bool) -> Set<CellAddr> {
    if write {
        set![addr]
    } else {
        Set::empty()
    }
}

/// Decimal digits of `n`, most significant first.
pub open spec fn decimal(n: nat) -> Seq<char>
    decreases n,
{
    let digit = ((n % 10) + 48) as char;
    if n < 10 {
        seq![digit]
    } else {
        decimal(n / 10).push(digit)
    }
}

/// Calls `usize::to_string`, which renders through `Display`: documented as
/// the decimal digits of the number, with no sign, padding or separators.
#[verifier::external_body]
fn decimal_text(n: usize) -> (r: String)
    ensures
        r@ == decimal(n as nat),
{
    n.to_string()
}

/// The text of the failure reported when the loop runs out of iterations
/// with `still_dirty` formulas left dirty.
pub open spec fn cap_message(still_dirty: nat) -> Seq<char> {
    "recompute_dirty hit MAX_ITERATIONS=100 with "@ + decimal(still_dirty)
        + " cells still dirty — possible runaway spill shape transition or workbook misconfiguration"@
}

/// The observable state of an incremental recompute.
pub struct DirtyRecomputeView {
    /// Fixed-point iterations started.
    pub iterations: nat,
    /// The loop has stopped.
    pub finished: bool,
    /// Formulas scheduled over all iterations.
    pub attempted: nat,
    /// Scheduled formulas handled so far.
    pub handled: nat,
    /// Formulas evaluated (or mapped to `#NAME?`).
    pub succeeded: nat,
    /// Writes suppressed because the value did not change.
    pub skipped: nat,
    /// Evaluated formulas whose plan is eligible for vectorised evaluation.
    pub simd: nat,
    /// Structural failures, in order.
    pub failures: Seq<RecomputeFailure>,
    /// Cells whose computed value was (re)written.
    pub changed: Set<CellAddr>,
}

/// The incremental recompute's bookkeeping. Each iteration claims the dirty
/// formulas; each claimed formula is then handled once: a cycled one gets
/// `#CIRC!`, a sorted one is skipped, evaluated or failed. The loop stops at
/// a fixed point (nothing scheduled) or after `MAX_DIRTY_ITERATIONS`.
struct DirtyPass {
    iterations: usize,
    finished: bool,
    attempted: usize,
    handled: usize,
    succeeded: usize,
    skipped: usize,
    simd: usize,
    failures: Vec<RecomputeFailure>,
    changed: Vec<CellAddr>,
    index: HashSet<u128>,
}

impl View for DirtyPass {
    type V = DirtyRecomputeView;

    closed spec fn view(&self) -> DirtyRecomputeView {
        DirtyRecomputeView {
            iterations: self.iterations as nat,
            finished: self.finished,
            attempted: self.attempted as nat,
            handled: self.handled as nat,
            succeeded: self.succeeded as nat,
            skipped: self.skipped as nat,
            simd: self.simd as nat,
            failures: self.failures@,
            changed: self.changed@.to_set(),
        }
    }
}

/// A strictly row-major list of cells on one sheet holds each cell once.
proof fn lemma_lists_body_distinct(
    cells: Seq<CellAddr>,
    sheet: SheetId,
    row: RowId,
    col: ColId,
    shape: SpillShape,
)
    requires
        lists_body(cells, sheet, row, col, shape),
    ensures
        cells.no_duplicates(),
        cells.to_set() == body_set(sheet, row, col, Some(shape)),
{
    assert forall|i: int, j: int| 0 <= i < cells.len() && 0 <= j < cells.len() && i != j implies cells[i]
        != cells[j] by {
        if i < j {
            assert(lex_lt(cells[i].1 as int, cells[i].2 as int, cells[j].1 as int, cells[j].2 as int));
        } else {
            assert(lex_lt(cells[j].1 as int, cells[j].2 as int, cells[i].1 as int, cells[i].2 as int));
        }
    }
    assert forall|a: CellAddr| cells.to_set().contains(a) == body_set(
        sheet,
        row,
        col,
        Some(shape),
    ).contains(a) by {
        if cells.contains(a) {
            let k = choose|k: int| 0 <= k < cells.len() && cells[k] == a;
            assert(cells[k] == a);
        }
        if in_body(sheet, row, col, shape, a.0, a.1 as int, a.2 as int) {
            assert(cells.contains((a.0, a.1, a.2)));
        }
    }
    assert(cells.to_set() =~= body_set(sheet, row, col, Some(shape)));
}

/// The non-anchor cells of an optional spill, each once.
fn opt_body(sheet: SheetId, row: RowId, col: ColId, shape: Option<SpillShape>) -> (cells: Vec<CellAddr>)
    requires
        fits(row, col, shape),
    ensures
        lists_opt_body(cells@, sheet, row, col, shape),
        cells@.no_duplicates(),
        cells@.to_set() == body_set(sheet, row, col, shape),
{
    let mut cells: Vec<CellAddr> = Vec::new();
    match shape {
        Some(sh) => {
            push_spill_body(&mut cells, sheet, row, col, sh);
            assert(cells@.skip(0) =~= cells@);
            proof {
                lemma_lists_body_distinct(cells@, sheet, row, col, sh);
            }
        },
        None => {
            assert(cells@.to_set() =~= body_set(sheet, row, col, shape));
        },
    }
    cells
}

/// Whether `(s, r, c)` is a non-anchor cell of the spill.
fn in_spill_body(
    sheet: SheetId,
    row: RowId,
    col: ColId,
    shape: Option<SpillShape>,
    s: SheetId,
    r: RowId,
    c: ColId,
) -> (b: bool)
    ensures
        b == body_set(sheet, row, col, shape).contains((s, r, c)),
{
    match shape {
        None => false,
        Some(sh) => {
            s == sheet && row <= r && (r as u64) < (row as u64) + (sh.rows as u64) && col <= c
                && (c as u64) < (col as u64) + (sh.cols as u64) && !(r == row && c == col)
        },
    }
}

/// The non-anchor cells of the union of two spills at one anchor, each once.
fn union_body(
    sheet: SheetId,
    row: RowId,
    col: ColId,
    old_shape: Option<SpillShape>,
    new_shape: Option<SpillShape>,
) -> (cells: Vec<CellAddr>)
    requires
        fits(row, col, old_shape),
        fits(row, col, new_shape),
    ensures
        cells@.no_duplicates(),
        cells@.to_set() == body_set(sheet, row, col, old_shape) + body_set(
            sheet,
            row,
            col,
            new_shape,
        ),
{
    let mut cells = opt_body(sheet, row, col, old_shape);
    let fresh = opt_body(sheet, row, col, new_shape);
    let ghost olds = cells@;
    assert(fresh@.take(0).to_set() =~= Set::<CellAddr>::empty());
    assert(cells@.to_set() =~= olds.to_set() + fresh@.take(0).to_set());
    let mut i: usize = 0;
    while i < fresh.len()
        invariant
            0 <= i <= fresh@.len(),
            fresh@.no_duplicates(),
            fresh@.to_set() == body_set(sheet, row, col, new_shape),
            olds.to_set() == body_set(sheet, row, col, old_shape),
            cells@.no_duplicates(),
            cells@.to_set() == olds.to_set() + fresh@.take(i as int).to_set(),
        decreases fresh@.len() - i,
    {
        let a = fresh[i];
        let ghost before = cells@;
        proof {
            assert(fresh@.take(i + 1int) =~= fresh@.take(i as int).push(a));
            fresh@.take(i as int).lemma_push_to_set_commute(a);
        }
        if !in_spill_body(sheet, row, col, old_shape, a.0, a.1, a.2) {
            proof {
                if fresh@.take(i as int).to_set().contains(a) {
                    assert(fresh@.take(i as int).contains(a));
                    let k = choose|k: int| 0 <= k < i && fresh@.take(i as int)[k] == a;
                    assert(fresh@[k] == fresh@[i as int]);
                }
                assert(!before.to_set().contains(a));
                assert(!before.contains(a));
            }
            cells.push(a);
            proof {
                before.lemma_push_to_set_commute(a);
                assert(cells@.to_set() =~= olds.to_set() + fresh@.take(i + 1int).to_set());
            }
        } else {
            proof {
                assert(olds.to_set().contains(a));
                assert(cells@.to_set() =~= olds.to_set() + fresh@.take(i + 1int).to_set());
            }
        }
        i += 1;
    }
    proof {
        assert(fresh@.take(fresh@.len() as int) =~= fresh@);
        assert(cells@.to_set() =~= body_set(sheet, row, col, old_shape) + body_set(
            sheet,
            row,
            col,
            new_shape,
        ));
    }
    cells
}

impl DirtyPass {
    /// Well-formedness: counters stay within what was scheduled, the
    /// iteration count within its cap, and the changed list holds each cell
    /// once, mirrored by its index.
    pub closed spec fn wf(&self) -> bool {
        &&& self.iterations <= MAX_DIRTY_ITERATIONS
        &&& !self.finished ==> self.iterations < MAX_DIRTY_ITERATIONS
        &&& self.handled <= self.attempted
        &&& self.succeeded + self.failures@.len() <= self.handled
        &&& self.skipped <= self.handled
        &&& self.simd <= self.succeeded
        &&& self.changed@.no_duplicates()
        &&& forall|a: CellAddr|
            #![trigger self.changed@.contains(a)]
            self.index@.contains(packed(a) as u128) <==> self.changed@.contains(a)
    }

    /// Records `a` as changed (once).
    fn note(&mut self, a: CellAddr)
        requires
            old(self).wf(),
        ensures
            final(self).wf(),
            final(self)@ == (DirtyRecomputeView { changed: old(self)@.changed.insert(a), ..old(self)@ }),
    {
        let k = pack(a);
        let ghost before = self.changed@;
        let ghost ibefore = self.index@;
        if self.index.insert(k) {
            self.changed.push(a);
            proof {
                assert(!before.contains(a));
                assert forall|b: CellAddr|
                    #![trigger self.changed@.contains(b)]
                    self.index@.contains(packed(b) as u128) <==> self.changed@.contains(b) by {
                    lemma_packed_injective(a, b);
                    if self.changed@.contains(b) && b != a {
                        let w = choose|w: int| 0 <= w < self.changed@.len() && self.changed@[w] == b;
                        assert(before[w] == b);
                        assert(before.contains(b));
                    }
                    if before.contains(b) {
                        let w = choose|w: int| 0 <= w < before.len() && before[w] == b;
                        assert(self.changed@[w] == b);
                    }
                    if b == a {
                        assert(self.changed@[before.len() as int] == a);
                    }
                }
                assert(self.changed@.to_set() =~= before.to_set().insert(a));
            }
        } else {
            proof {
                assert(self.index@ =~= ibefore);
                assert(before.contains(a));
                assert(before.to_set().insert(a) =~= before.to_set());
            }
        }
    }

    /// Records every cell of `cells` as changed.
    fn note_all(&mut self, cells: &Vec<CellAddr>)
        requires
            old(self).wf(),
        ensures
            final(self).wf(),
            final(self)@ == (DirtyRecomputeView {
                changed: old(self)@.changed + cells@.to_set(),
                ..old(self)@
            }),
    {
        assert(cells@.take(0).to_set() =~= Set::<CellAddr>::empty());
        assert(old(self)@.changed + cells@.take(0).to_set() =~= old(self)@.changed);
        let mut i: usize = 0;
        while i < cells.len()
            invariant
                0 <= i <= cells@.len(),
                self.wf(),
                self@ == (DirtyRecomputeView {
                    changed: old(self)@.changed + cells@.take(i as int).to_set(),
                    ..old(self)@
                }),
            decreases cells@.len() - i,
        {
            self.note(cells[i]);
            proof {
                assert(cells@.take(i + 1int).to_set() =~= cells@.take(i as int).to_set().insert(
                    cells@[i as int],
                )) by {
                    assert(cells@.take(i + 1int) =~= cells@.take(i as int).push(cells@[i as int]));
                    cells@.take(i as int).lemma_push_to_set_commute(cells@[i as int]);
                }
                assert(self@.changed =~= old(self)@.changed + cells@.take(i + 1int).to_set());
            }
            i += 1;
        }
        assert(cells@.take(cells@.len() as int) =~= cells@);
    }

    /// A fresh incremental recompute: nothing scheduled, handled or changed.
    pub fn new() -> (r: Self)
        ensures
            r.wf(),
            r@.iterations == 0,
            !r@.finished,
            r@.attempted == 0,
            r@.handled == 0,
            r@.succeeded == 0,
            r@.skipped == 0,
            r@.simd == 0,
            r@.failures.len() == 0,
            r@.changed == Set::<CellAddr>::empty(),
    {
        let r = DirtyPass {
            iterations: 0,
            finished: false,
            attempted: 0,
            handled: 0,
            succeeded: 0,
            skipped: 0,
            simd: 0,
            failures: Vec::new(),
            changed: Vec::new(),
            index: HashSet::new(),
        };
        assert(r.changed@.to_set() =~= Set::<CellAddr>::empty());
        r
    }

    /// A fresh state.
    fn empty() -> (r: Self)
        ensures
            r.wf(),
    {
        Self::new()
    }

    /// Whether the loop has stopped.
    pub fn is_finished(&self) -> (r: bool)
        ensures
            r == self@.finished,
    {
        self.finished
    }

    /// Whether `a` was reported changed so far (the value-equality decision
    /// of a later formula reads this for each dirty dependency).
    pub fn was_changed(&self, a: CellAddr) -> (r: bool)
        requires
            self.wf(),
        ensures
            r == self@.changed.contains(a),
    {
        let r = self.index.contains(&pack(a));
        proof {
            if r {
                assert(self.changed@.contains(a));
            }
        }
        r
    }

    /// Starts an iteration whose schedule claimed `scheduled` dirty formulas.
    /// An empty schedule is the fixed point: the loop stops and `false` is
    /// returned. Otherwise the formulas are counted as attempted, and the
    /// loop stops after this iteration if it is the last one allowed.
    pub fn begin_iteration(&mut self, scheduled: usize) -> (go: bool)
        requires
            old(self).wf(),
            !old(self)@.finished,
            old(self)@.handled == old(self)@.attempted,
            old(self)@.attempted + scheduled <= usize::MAX,
        ensures
            final(self).wf(),
            go == (scheduled > 0),
            final(self)@ == (DirtyRecomputeView {
                iterations: old(self)@.iterations + 1,
                finished: !go || old(self)@.iterations + 1 == MAX_DIRTY_ITERATIONS,
                attempted: old(self)@.attempted + scheduled as nat,
                ..old(self)@
            }),
    {
        self.iterations += 1;
        if scheduled == 0 {
            self.finished = true;
            return false;
        }
        self.attempted += scheduled;
        if self.iterations == MAX_DIRTY_ITERATIONS {
            self.finished = true;
        }
        true
    }

    /// A cycled formula at `addr`, which gets `#CIRC!`. `prior_is_circ`: the
    /// cell held `#CIRC!` before the recompute; `old_shape`: the spill it
    /// anchors, which is dissolved (its body is reported and returned, for
    /// its readers to be dirtied). Returns whether to write `#CIRC!`: always
    /// after a dissolution, otherwise unless the cell already held it (then
    /// the write is skipped).
    pub fn cycled(&mut self, addr: CellAddr, prior_is_circ: bool, old_shape: Option<SpillShape>) -> (r: (
        bool,
        Vec<CellAddr>,
    ))
        requires
            old(self).wf(),
            old(self)@.handled < old(self)@.attempted,
            fits(addr.1, addr.2, old_shape),
        ensures
            final(self).wf(),
            r.0 == !(prior_is_circ && old_shape is None),
            lists_opt_body(r.1@, addr.0, addr.1, addr.2, old_shape),
            final(self)@ == (DirtyRecomputeView {
                handled: old(self)@.handled + 1,
                skipped: old(self)@.skipped + if r.0 {
                    0nat
                } else {
                    1nat
                },
                changed: old(self)@.changed + body_set(addr.0, addr.1, addr.2, old_shape) + written(
                    addr,
                    r.0,
                ),
                ..old(self)@
            }),
    {
        self.handled += 1;
        let body = opt_body(addr.0, addr.1, addr.2, old_shape);
        self.note_all(&body);
        let write = !skips_error_write(prior_is_circ, old_shape.is_some());
        if write {
            self.note(addr);
        } else {
            self.skipped += 1;
        }
        assert(self@.changed =~= old(self)@.changed + body_set(addr.0, addr.1, addr.2, old_shape)
            + written(addr, write));
        (write, body)
    }

    /// A claimed formula that has no cell or no formula text any more:
    /// nothing is evaluated, counted or reported for it.
    pub fn pass_over(&mut self)
        requires
            old(self).wf(),
            old(self)@.handled < old(self)@.attempted,
        ensures
            final(self).wf(),
            final(self)@ == (DirtyRecomputeView { handled: old(self)@.handled + 1, ..old(self)@ }),
    {
        self.handled += 1;
    }

    /// A dirty formula the value-equality decision skipped (no input value
    /// moved).
    pub fn skip_unchanged(&mut self)
        requires
            old(self).wf(),
            old(self)@.handled < old(self)@.attempted,
        ensures
            final(self).wf(),
            final(self)@ == (DirtyRecomputeView {
                handled: old(self)@.handled + 1,
                skipped: old(self)@.skipped + 1,
                ..old(self)@
            }),
    {
        self.handled += 1;
        self.skipped += 1;
    }

    /// A formula at `addr` that evaluated. `prior_equal`: the value equals
    /// the one held before the recompute; `old_shape` / `new_shape`: its
    /// spill before and after; `simd_eligible`: its plan is vectorisable.
    /// Returns whether to write the value (skipped only when it is unchanged
    /// and no spill just dissolved to a scalar) and the non-anchor cells of
    /// both spills, each once, which are reported and whose readers (with the
    /// anchor's) must be dirtied.
    pub fn evaluated(
        &mut self,
        addr: CellAddr,
        prior_equal: bool,
        old_shape: Option<SpillShape>,
        new_shape: Option<SpillShape>,
        simd_eligible: bool,
    ) -> (r: (bool, Vec<CellAddr>))
        requires
            old(self).wf(),
            old(self)@.handled < old(self)@.attempted,
            fits(addr.1, addr.2, old_shape),
            fits(addr.1, addr.2, new_shape),
        ensures
            final(self).wf(),
            r.0 == !(prior_equal && !(old_shape is Some && new_shape is None)),
            r.1@.no_duplicates(),
            r.1@.to_set() == body_set(addr.0, addr.1, addr.2, old_shape) + body_set(
                addr.0,
                addr.1,
                addr.2,
                new_shape,
            ),
            final(self)@ == (DirtyRecomputeView {
                handled: old(self)@.handled + 1,
                succeeded: old(self)@.succeeded + 1,
                skipped: old(self)@.skipped + if r.0 {
                    0nat
                } else {
                    1nat
                },
                simd: old(self)@.simd + if simd_eligible {
                    1nat
                } else {
                    0nat
                },
                changed: old(self)@.changed + written(addr, r.0) + r.1@.to_set(),
                ..old(self)@
            }),
    {
        self.handled += 1;
        let write = !skips_write(prior_equal, old_shape.is_some(), new_shape.is_some());
        if write {
            self.note(addr);
        } else {
            self.skipped += 1;
        }
        assert(self@.changed =~= old(self)@.changed + written(addr, write));
        let affected = union_body(addr.0, addr.1, addr.2, old_shape, new_shape);
        self.note_all(&affected);
        self.succeeded += 1;
        if simd_eligible {
            self.simd += 1;
        }
        (write, affected)
    }

    /// A formula at `addr` whose recompute failed structurally with `error`.
    /// A binding failure that maps to `#NAME?` dissolves the spill the cell
    /// anchors (`old_shape`; its body is reported) and counts as succeeded:
    /// `Some((write, body))`, where `write` is whether to write `#NAME?`
    /// (skipped only when no spill was dissolved and the cell already held
    /// `#NAME?`, per `prior_is_name_error`). Any other failure is recorded
    /// and gives `None`.
    pub fn failed(
        &mut self,
        addr: CellAddr,
        formula_text: String,
        error: RuntimeError,
        prior_is_name_error: bool,
        old_shape: Option<SpillShape>,
    ) -> (r: Option<(bool, Vec<CellAddr>)>)
        requires
            old(self).wf(),
            old(self)@.handled < old(self)@.attempted,
            fits(addr.1, addr.2, old_shape),
        ensures
            final(self).wf(),
            r is Some <==> is_name_mapped(error),
            match r {
                Some((write, body)) => {
                    &&& write == !(prior_is_name_error && old_shape is None)
                    &&& lists_opt_body(body@, addr.0, addr.1, addr.2, old_shape)
                    &&& final(self)@ == (DirtyRecomputeView {
                        handled: old(self)@.handled + 1,
                        succeeded: old(self)@.succeeded + 1,
                        skipped: old(self)@.skipped + if write {
                            0nat
                        } else {
                            1nat
                        },
                        changed: old(self)@.changed + body_set(addr.0, addr.1, addr.2, old_shape)
                            + written(addr, write),
                        ..old(self)@
                    })
                },
                None => final(self)@ == (DirtyRecomputeView {
                    handled: old(self)@.handled + 1,
                    failures: old(self)@.failures.push(
                        RecomputeFailure {
                            sheet: addr.0,
                            row: addr.1,
                            col: addr.2,
                            formula_text,
                            error,
                        },
                    ),
                    ..old(self)@
                }),
            },
    {
        self.handled += 1;
        if maps_to_name_error(&error) {
            let body = opt_body(addr.0, addr.1, addr.2, old_shape);
            self.note_all(&body);
            let write = !skips_error_write(prior_is_name_error, old_shape.is_some());
            if write {
                self.note(addr);
            } else {
                self.skipped += 1;
            }
            self.succeeded += 1;
            assert(self@.changed =~= old(self)@.changed + body_set(addr.0, addr.1, addr.2, old_shape)
                + written(addr, write));
            Some((write, body))
        } else {
            self.failures.push(
                RecomputeFailure { sheet: addr.0, row: addr.1, col: addr.2, formula_text, error },
            );
            None
        }
    }

    /// The outcome: the counts, the failures (with, when every iteration was
    /// used and `still_dirty` formulas are left dirty, a final failure at
    /// cell `(0, 0, 0)` carrying `RecomputeIterationCap`), and each changed
    /// cell once.
    pub fn finish(self, still_dirty: usize) -> (r: RecomputeResult)
        requires
            self.wf(),
            self@.handled == self@.attempted,
        ensures
            r.attempted == self@.attempted,
            r.succeeded == self@.succeeded,
            r.skipped_value_equality == self@.skipped,
            r.simd_classified == self@.simd,
            r.changed_cells@.no_duplicates(),
            r.changed_cells@.to_set() == self@.changed,
            (self@.iterations == MAX_DIRTY_ITERATIONS && still_dirty > 0) ==> {
                &&& r.failures@.len() == self@.failures.len() + 1
                &&& r.failures@.take(self@.failures.len() as int) == self@.failures
                &&& r.failures@.last().sheet == 0
                &&& r.failures@.last().row == 0
                &&& r.failures@.last().col == 0
                &&& r.failures@.last().formula_text@ == cap_message(still_dirty as nat)
                &&& r.failures@.last().error == RuntimeError::RecomputeIterationCap
            },
            !(self@.iterations == MAX_DIRTY_ITERATIONS && still_dirty > 0) ==> r.failures@
                == self@.failures,
    {
        let mut failures = self.failures;
        if hit_iteration_cap(self.iterations, still_dirty) {
            let mut text = String::from_str("recompute_dirty hit MAX_ITERATIONS=100 with ");
            let count = decimal_text(still_dirty);
            text.append(count.as_str());
            text.append(
                " cells still dirty — possible runaway spill shape transition or workbook misconfiguration",
            );
            let ghost before = failures@;
            failures.push(
                RecomputeFailure {
                    sheet: 0,
                    row: 0,
                    col: 0,
                    formula_text: text,
                    error: RuntimeError::RecomputeIterationCap,
                },
            );
            assert(failures@.take(before.len() as int) =~= before);
        }
        RecomputeResult {
            attempted: self.attempted,
            succeeded: self.succeeded,
            failures,
            skipped_value_equality: self.skipped,
            simd_classified: self.simd,
            changed_cells: self.changed,
        }
    }
}

/// The incremental recompute's bookkeeping (see the loop state it keeps):
/// each iteration claims the dirty formulas and each claimed formula is
/// handled once; the loop stops at a fixed point or after
/// `MAX_DIRTY_ITERATIONS` iterations.
pub struct DirtyRecompute {
    pass: DirtyPass,
}

impl View for DirtyRecompute {
    type V = DirtyRecomputeView;

    closed spec fn view(&self) -> Self::V {
        self.pass@
    }
}

impl DirtyRecompute {
    /// The state's well-formedness, kept by every step.
    #[verifier::type_invariant]
    pub closed spec fn wf(&self) -> bool {
        self.pass.wf()
    }

    /// A fresh incremental recompute: nothing scheduled, handled or changed.
    pub fn new() -> (r: Self)
        ensures
            r@.iterations == 0,
            !r@.finished,
            r@.attempted == 0,
            r@.handled == 0,
            r@.succeeded == 0,
            r@.skipped == 0,
            r@.simd == 0,
            r@.failures.len() == 0,
            r@.changed == Set::<CellAddr>::empty(),
    {
        DirtyRecompute { pass: DirtyPass::new() }
    }

    /// Whether the loop has stopped.
    pub fn is_finished(&self) -> (r: bool)
        ensures
            r == self@.finished,
    {
        proof {
            use_type_invariant(self);
        }
        self.pass.is_finished()
    }

    /// Whether `a` was reported changed so far (the value-equality decision
    /// of a later formula reads this for each dirty dependency).
    pub fn was_changed(&self, a: CellAddr) -> (r: bool)
        ensures
            r == self@.changed.contains(a),
    {
        proof {
            use_type_invariant(self);
        }
        self.pass.was_changed(a)
    }

    /// Starts an iteration whose schedule claimed `scheduled` dirty formulas.
    /// An empty schedule is the fixed point: the loop stops and `false` is
    /// returned. Otherwise the formulas are counted as attempted, and the
    /// loop stops after this iteration if it is the last one allowed.
    pub fn begin_iteration(&mut self, scheduled: usize) -> (go: bool)
        requires
            !old(self)@.finished,
            old(self)@.handled == old(self)@.attempted,
            old(self)@.attempted + scheduled <= usize::MAX,
        ensures
            go == (scheduled > 0),
            final(self)@ == (DirtyRecomputeView {
                iterations: old(self)@.iterations + 1,
                finished: !go || old(self)@.iterations + 1 == MAX_DIRTY_ITERATIONS,
                attempted: old(self)@.attempted + scheduled as nat,
                ..old(self)@
            }),
    {
        proof {
            use_type_invariant(&*self);
        }
        let mut p = DirtyPass::empty();
        std::mem::swap(&mut p, &mut self.pass);
        let r = p.begin_iteration(scheduled);
        self.pass = p;
        r
    }

    /// A cycled formula at `addr`, which gets `#CIRC!`. `prior_is_circ`: the
    /// cell held `#CIRC!` before the recompute; `old_shape`: the spill it
    /// anchors, which is dissolved (its body is reported and returned, for
    /// its readers to be dirtied). Returns whether to write `#CIRC!`: always
    /// after a dissolution, otherwise unless the cell already held it (then
    /// the write is skipped).
    pub fn cycled(&mut self, addr: CellAddr, prior_is_circ: bool, old_shape: Option<SpillShape>) -> (r: (
        bool,
        Vec<CellAddr>,
    ))
        requires
            old(self)@.handled < old(self)@.attempted,
            fits(addr.1, addr.2, old_shape),
        ensures
            r.0 == !(prior_is_circ && old_shape is None),
            lists_opt_body(r.1@, addr.0, addr.1, addr.2, old_shape),
            final(self)@ == (DirtyRecomputeView {
                handled: old(self)@.handled + 1,
                skipped: old(self)@.skipped + if r.0 {
                    0nat
                } else {
                    1nat
                },
                changed: old(self)@.changed + body_set(addr.0, addr.1, addr.2, old_shape) + written(
                    addr,
                    r.0,
                ),
                ..old(self)@
            }),
    {
        proof {
            use_type_invariant(&*self);
        }
        let mut p = DirtyPass::empty();
        std::mem::swap(&mut p, &mut self.pass);
        let r = p.cycled(addr, prior_is_circ, old_shape);
        self.pass = p;
        r
    }

    /// A claimed formula that has no cell or no formula text any more:
    /// nothing is evaluated, counted or reported for it.
    pub fn pass_over(&mut self)
        requires
            old(self)@.handled < old(self)@.attempted,
        ensures
            final(self)@ == (DirtyRecomputeView { handled: old(self)@.handled + 1, ..old(self)@ }),
    {
        proof {
            use_type_invariant(&*self);
        }
        let mut p = DirtyPass::empty();
        std::mem::swap(&mut p, &mut self.pass);
        p.pass_over();
        self.pass = p;
    }

    /// A dirty formula the value-equality decision skipped (no input value
    /// moved).
    pub fn skip_unchanged(&mut self)
        requires
            old(self)@.handled < old(self)@.attempted,
        ensures
            final(self)@ == (DirtyRecomputeView {
                handled: old(self)@.handled + 1,
                skipped: old(self)@.skipped + 1,
                ..old(self)@
            }),
    {
        proof {
            use_type_invariant(&*self);
        }
        let mut p = DirtyPass::empty();
        std::mem::swap(&mut p, &mut self.pass);
        p.skip_unchanged();
        self.pass = p;
    }

    /// A formula at `addr` that evaluated. `prior_equal`: the value equals
    /// the one held before the recompute; `old_shape` / `new_shape`: its
    /// spill before and after; `simd_eligible`: its plan is vectorisable.
    /// Returns whether to write the value (skipped only when it is unchanged
    /// and no spill just dissolved to a scalar) and the non-anchor cells of
    /// both spills, each once, which are reported and whose readers (with the
    /// anchor's) must be dirtied.
    pub fn evaluated(
        &mut self,
        addr: CellAddr,
        prior_equal: bool,
        old_shape: Option<SpillShape>,
        new_shape: Option<SpillShape>,
        simd_eligible: bool,
    ) -> (r: (bool, Vec<CellAddr>))
        requires
            old(self)@.handled < old(self)@.attempted,
            fits(addr.1, addr.2, old_shape),
            fits(addr.1, addr.2, new_shape),
        ensures
            r.0 == !(prior_equal && !(old_shape is Some && new_shape is None)),
            r.1@.no_duplicates(),
            r.1@.to_set() == body_set(addr.0, addr.1, addr.2, old_shape) + body_set(
                addr.0,
                addr.1,
                addr.2,
                new_shape,
            ),
            final(self)@ == (DirtyRecomputeView {
                handled: old(self)@.handled + 1,
                succeeded: old(self)@.succeeded + 1,
                skipped: old(self)@.skipped + if r.0 {
                    0nat
                } else {
                    1nat
                },
                simd: old(self)@.simd + if simd_eligible {
                    1nat
                } else {
                    0nat
                },
                changed: old(self)@.changed + written(addr, r.0) + r.1@.to_set(),
                ..old(self)@
            }),
    {
        proof {
            use_type_invariant(&*self);
        }
        let mut p = DirtyPass::empty();
        std::mem::swap(&mut p, &mut self.pass);
        let r = p.evaluated(addr, prior_equal, old_shape, new_shape, simd_eligible);
        self.pass = p;
        r
    }

    /// A formula at `addr` whose recompute failed structurally with `error`.
    /// A binding failure that maps to `#NAME?` dissolves the spill the cell
    /// anchors (`old_shape`; its body is reported) and counts as succeeded:
    /// `Some((write, body))`, where `write` is whether to write `#NAME?`
    /// (skipped only when no spill was dissolved and the cell already held
    /// `#NAME?`, per `prior_is_name_error`). Any other failure is recorded
    /// and gives `None`.
    pub fn failed(
        &mut self,
        addr: CellAddr,
        formula_text: String,
        error: RuntimeError,
        prior_is_name_error: bool,
        old_shape: Option<SpillShape>,
    ) -> (r: Option<(bool, Vec<CellAddr>)>)
        requires
            old(self)@.handled < old(self)@.attempted,
            fits(addr.1, addr.2, old_shape),
        ensures
            r is Some <==> is_name_mapped(error),
            match r {
                Some((write, body)) => {
                    &&& write == !(prior_is_name_error && old_shape is None)
                    &&& lists_opt_body(body@, addr.0, addr.1, addr.2, old_shape)
                    &&& final(self)@ == (DirtyRecomputeView {
                        handled: old(self)@.handled + 1,
                        succeeded: old(self)@.succeeded + 1,
                        skipped: old(self)@.skipped + if write {
                            0nat
                        } else {
                            1nat
                        },
                        changed: old(self)@.changed + body_set(addr.0, addr.1, addr.2, old_shape)
                            + written(addr, write),
                        ..old(self)@
                    })
                },
                None => final(self)@ == (DirtyRecomputeView {
                    handled: old(self)@.handled + 1,
                    failures: old(self)@.failures.push(
                        RecomputeFailure {
                            sheet: addr.0,
                            row: addr.1,
                            col: addr.2,
                            formula_text,
                            error,
                        },
                    ),
                    ..old(self)@
                }),
            },
    {
        proof {
            use_type_invariant(&*self);
        }
        let mut p = DirtyPass::empty();
        std::mem::swap(&mut p, &mut self.pass);
        let r = p.failed(addr, formula_text, error, prior_is_name_error, old_shape);
        self.pass = p;
        r
    }

    /// The outcome: the counts, the failures (with, when every iteration was
    /// used and `still_dirty` formulas are left dirty, a final failure at
    /// cell `(0, 0, 0)` carrying `RecomputeIterationCap`), and each changed
    /// cell once.
    pub fn finish(self, still_dirty: usize) -> (r: RecomputeResult)
        requires
            self@.handled == self@.attempted,
        ensures
            r.attempted == self@.attempted,
            r.succeeded == self@.succeeded,
            r.skipped_value_equality == self@.skipped,
            r.simd_classified == self@.simd,
            r.changed_cells@.no_duplicates(),
            r.changed_cells@.to_set() == self@.changed,
            (self@.iterations == MAX_DIRTY_ITERATIONS && still_dirty > 0) ==> {
                &&& r.failures@.len() == self@.failures.len() + 1
                &&& r.failures@.take(self@.failures.len() as int) == self@.failures
                &&& r.failures@.last().sheet == 0
                &&& r.failures@.last().row == 0
                &&& r.failures@.last().col == 0
                &&& r.failures@.last().formula_text@ == cap_message(still_dirty as nat)
                &&& r.failures@.last().error == RuntimeError::RecomputeIterationCap
            },
            !(self@.iterations == MAX_DIRTY_ITERATIONS && still_dirty > 0) ==> r.failures@
                == self@.failures,
    {
        proof {
            use_type_invariant(&self);
        }
        self.pass.finish(still_dirty)
    }
}

/// Every counter of the incremental recompute stays within what was
/// scheduled: each claimed formula succeeds or fails at most once and has its
/// write skipped at most once, and the loop never runs more than
/// `MAX_DIRTY_ITERATIONS` iterations.
pub proof fn lemma_dirty_counts_bounded(d: DirtyRecompute)
    requires
        d.wf(),
    ensures
        d@.succeeded + d@.failures.len() <= d@.attempted,
        d@.skipped <= d@.attempted,
        d@.simd <= d@.succeeded,
        d@.iterations <= MAX_DIRTY_ITERATIONS,
{
}

} // verus!
