//! Chart objects: inert, workbook-scoped metadata keyed by a stable id.

use vstd::prelude::*;

use crate::error::RuntimeError;
use crate::ops::{ChartSpec, Op};
use crate::runtime::{lemma_logged_compose, logged, WorkbookRuntime};

verus! {

/// What removing chart `id` does, given storage's lookup `exists` of it: an
/// unknown id is refused with nothing recorded; otherwise `Op::RemoveChart`
/// is recorded.
pub open spec fn chart_removed(
    before: Option<Seq<Op>>,
    after: Option<Seq<Op>>,
    r: Result<(), RuntimeError>,
    id: u32,
    exists: bool,
) -> bool {
    if exists {
        r == Ok::<(), RuntimeError>(()) && logged(before, after, seq![Op::RemoveChart { id }])
    } else {
        r == Err::<(), RuntimeError>(RuntimeError::ChartNotFound(id)) && after == before
    }
}

impl WorkbookRuntime {
    /// Adds a chart under `id`, the id storage just allocated from its
    /// chart-id counter (carried verbatim on the op so replay re-inserts at
    /// the same id). Records `Op::AddChart` and returns the id.
    pub fn add_chart(&mut self, id: u32, chart: ChartSpec) -> (r: u32)
        ensures
            r == id,
            logged(old(self).recorded(), final(self).recorded(), seq![Op::AddChart { id, chart }]),
            final(self).has_graph() == old(self).has_graph(),
    {
        self.record(Op::AddChart { id, chart });
        id
    }

    /// Replaces every field but the id of chart `id`. `exists` is storage's
    /// lookup of `id`. An unknown id is refused; otherwise records
    /// `Op::UpdateChart`.
    pub fn update_chart(&mut self, id: u32, chart: ChartSpec, exists: bool) -> (r: Result<
        (),
        RuntimeError,
    >)
        ensures
            !exists ==> r == Err::<(), RuntimeError>(RuntimeError::ChartNotFound(id))
                && final(self).recorded() == old(self).recorded(),
            exists ==> r is Ok && logged(
                old(self).recorded(),
                final(self).recorded(),
                seq![Op::UpdateChart { id, chart }],
            ),
            final(self).has_graph() == old(self).has_graph(),
    {
        if !exists {
            return Err(RuntimeError::ChartNotFound(id));
        }
        self.record(Op::UpdateChart { id, chart });
        Ok(())
    }

    /// Removes chart `id`. `exists` is storage's lookup of `id`. An unknown
    /// id is refused; otherwise records `Op::RemoveChart`.
    pub fn remove_chart(&mut self, id: u32, exists: bool) -> (r: Result<(), RuntimeError>)
        ensures
            chart_removed(old(self).recorded(), final(self).recorded(), r, id, exists),
            final(self).has_graph() == old(self).has_graph(),
    {
        if !exists {
            return Err(RuntimeError::ChartNotFound(id));
        }
        self.record(Op::RemoveChart { id });
        Ok(())
    }
}

/// A chart that was added can be removed once: storage then holds the new
/// id, so removing it succeeds; storage no longer holds it, so a second
/// removal is refused with `ChartNotFound` and records nothing. The log holds
/// the `AddChart` followed by one `RemoveChart`.
pub proof fn lemma_chart_add_then_remove(
    b0: Option<Seq<Op>>,
    b1: Option<Seq<Op>>,
    b2: Option<Seq<Op>>,
    b3: Option<Seq<Op>>,
    id: u32,
    chart: ChartSpec,
    r1: Result<(), RuntimeError>,
    r2: Result<(), RuntimeError>,
)
    requires
        logged(b0, b1, seq![Op::AddChart { id, chart }]),
        chart_removed(b1, b2, r1, id, true),
        chart_removed(b2, b3, r2, id, false),
    ensures
        r1 == Ok::<(), RuntimeError>(()),
        r2 == Err::<(), RuntimeError>(RuntimeError::ChartNotFound(id)),
        b3 == b2,
        logged(b0, b3, seq![Op::AddChart { id, chart }, Op::RemoveChart { id }]),
{
    lemma_logged_compose(b0, b1, b2, seq![Op::AddChart { id, chart }], seq![Op::RemoveChart { id }]);
    assert(seq![Op::AddChart { id, chart }] + seq![Op::RemoveChart { id }] =~= seq![
        Op::AddChart { id, chart },
        Op::RemoveChart { id },
    ]);
}

} // verus!
