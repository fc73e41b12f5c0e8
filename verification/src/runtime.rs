//! The runtime's own state: an optional op-log sink that every producer-side
//! edit records into (append before mutate), and whether a calc graph is
//! attached.

use vstd::prelude::*;

use crate::ops::Op;

verus! {

/// What recording `ops` does to a log: nothing when no log is attached,
/// otherwise appends them in order.
pub open spec fn logged(before: Option<Seq<Op>>, after: Option<Seq<Op>>, ops: Seq<Op>) -> bool {
    match before {
        None => after is None,
        Some(b) => after == Some(b + ops),
    }
}

/// The log is append-only: two edits in a row leave the first edit's ops
/// followed by the second's.
pub proof fn lemma_logged_compose(
    a: Option<Seq<Op>>,
    b: Option<Seq<Op>>,
    c: Option<Seq<Op>>,
    first: Seq<Op>,
    second: Seq<Op>,
)
    requires
        logged(a, b, first),
        logged(b, c, second),
    ensures
        logged(a, c, first + second),
{
    match a {
        Some(x) => {
            assert(x + first + second =~= x + (first + second));
        },
        None => {},
    }
}

/// The producer-side runtime. Storage reads that an edit depends on are
/// handed to each method as plain values; the method decides, records the
/// edit's ops into the attached log (if any) and returns what storage must
/// apply.
#[derive(Debug)]
pub struct WorkbookRuntime {
    log: Option<Vec<Op>>,
    graph_attached: bool,
}

impl WorkbookRuntime {
    /// The ops recorded so far, or `None` when no log is attached.
    pub closed spec fn recorded(&self) -> Option<Seq<Op>> {
        match self.log {
            Some(v) => Some(v@),
            None => None,
        }
    }

    /// Whether a calc graph is attached.
    pub closed spec fn has_graph(&self) -> bool {
        self.graph_attached
    }

    /// A runtime with neither an op log nor a calc graph attached.
    pub fn new() -> (rt: Self)
        ensures
            rt.recorded() is None,
            !rt.has_graph(),
    {
        WorkbookRuntime { log: None, graph_attached: false }
    }

    /// A runtime that records every edit into a fresh op log.
    pub fn with_oplog() -> (rt: Self)
        ensures
            rt.recorded() == Some(Seq::<Op>::empty()),
            !rt.has_graph(),
    {
        WorkbookRuntime { log: Some(Vec::new()), graph_attached: false }
    }

    /// A runtime with a calc graph attached and no op log.
    pub fn with_graph() -> (rt: Self)
        ensures
            rt.recorded() is None,
            rt.has_graph(),
    {
        WorkbookRuntime { log: None, graph_attached: true }
    }

    /// A runtime with both an op log and a calc graph attached.
    pub fn with_oplog_and_graph() -> (rt: Self)
        ensures
            rt.recorded() == Some(Seq::<Op>::empty()),
            rt.has_graph(),
    {
        WorkbookRuntime { log: Some(Vec::new()), graph_attached: true }
    }

    /// Whether a calc graph is attached.
    pub fn graph_attached(&self) -> (r: bool)
        ensures
            r == self.has_graph(),
    {
        self.graph_attached
    }

    /// Whether an op log is attached.
    pub fn oplog_attached(&self) -> (r: bool)
        ensures
            r == self.recorded() is Some,
    {
        self.log.is_some()
    }

    /// Hands the ops recorded so far to the caller (to forward to the real
    /// log) and leaves the attached log empty.
    pub fn take_recorded(&mut self) -> (ops: Vec<Op>)
        ensures
            ops@ == match old(self).recorded() {
                Some(s) => s,
                None => Seq::<Op>::empty(),
            },
            final(self).recorded() == match old(self).recorded() {
                Some(_) => Some(Seq::<Op>::empty()),
                None => None,
            },
            final(self).has_graph() == old(self).has_graph(),
    {
        match self.log.take() {
            Some(v) => {
                self.log = Some(Vec::new());
                v
            },
            None => Vec::new(),
        }
    }

    /// Records one op (no-op when no log is attached).
    pub(crate) fn record(&mut self, op: Op)
        ensures
            logged(old(self).recorded(), final(self).recorded(), seq![op]),
            final(self).has_graph() == old(self).has_graph(),
    {
        match self.log.take() {
            Some(mut v) => {
                let ghost before = v@;
                v.push(op);
                assert(v@ =~= before + seq![op]);
                self.log = Some(v);
            },
            None => {},
        }
    }
}

} // verus!
