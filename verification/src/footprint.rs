//! Table footprints and the row-major search for the first cell a new or
//! grown footprint may not claim.

use vstd::prelude::*;

use crate::grid::{ColId, RowId, SheetId};
use crate::text::{eq_ci, same_ci};

verus! {

/// An existing table's canonical name and footprint.
#[derive(Debug, Clone)]
pub struct TableFootprint {
    pub name: String,
    pub sheet: SheetId,
    pub top_row: RowId,
    pub top_col: ColId,
    pub rows: u32,
    pub cols: u32,
}

/// A cell address.
pub type CellAddr = (SheetId, RowId, ColId);

/// The address packed into one integer (injective on addresses).
pub open spec fn packed(a: CellAddr) -> int {
    a.0 as int * 0x1_0000_0000_0000_0000 + a.1 as int * 0x1_0000_0000 + a.2 as int
}

pub(crate) proof fn lemma_packed_injective(a: CellAddr, b: CellAddr)
    ensures
        packed(a) == packed(b) ==> a == b,
{
    if packed(a) == packed(b) {
        assert(a.2 as int == b.2 as int && a.1 as int == b.1 as int && a.0 as int == b.0 as int)
            by (nonlinear_arith)
            requires
                a.0 as int * 0x1_0000_0000_0000_0000 + a.1 as int * 0x1_0000_0000 + a.2 as int
                    == b.0 as int * 0x1_0000_0000_0000_0000 + b.1 as int * 0x1_0000_0000
                    + b.2 as int,
                0 <= a.1 < 0x1_0000_0000,
                0 <= a.2 < 0x1_0000_0000,
                0 <= b.1 < 0x1_0000_0000,
                0 <= b.2 < 0x1_0000_0000,
                0 <= a.0 < 0x1_0000,
                0 <= b.0 < 0x1_0000,
        ;
    }
}

pub(crate) fn pack(a: CellAddr) -> (r: u128)
    ensures
        r == packed(a),
{
    (a.0 as u128) * 0x1_0000_0000_0000_0000 + (a.1 as u128) * 0x1_0000_0000 + a.2 as u128
}

/// What blocks a footprint first, scanning its claimed cells row by row,
/// left to right.
#[derive(Debug, Clone, Copy, PartialEq, Eq, Structural)]
pub enum FootprintConflict {
    /// Every claimed cell is free.
    Clear,
    /// The first blocked cell lies in another table.
    Table,
    /// The first blocked cell is a spill anchor.
    SpillAnchor,
}

/// `(r1, c1)` comes strictly before `(r2, c2)` in row-major order.
pub open spec fn lex_lt(r1: int, c1: int, r2: int, c2: int) -> bool {
    r1 < r2 || (r1 == r2 && c1 < c2)
}

/// `(r, c)` lies in the rectangle with top-left `(top, left)` and the given size.
pub open spec fn in_rect(r: int, c: int, top: int, left: int, rows: int, cols: int) -> bool {
    top <= r < top + rows && left <= c < left + cols
}

/// The cells a footprint claims: those of the new rectangle outside the old
/// one (both anchored at `(top, left)`; the old one is empty for a new table).
pub open spec fn claimed(
    r: int,
    c: int,
    top: int,
    left: int,
    new_rows: int,
    new_cols: int,
    old_rows: int,
    old_cols: int,
) -> bool {
    in_rect(r, c, top, left, new_rows, new_cols) && !in_rect(r, c, top, left, old_rows, old_cols)
}

/// Table `t` counts as blocking: it is on `sheet` and is not the table
/// `exclude` names (ignoring ASCII case).
pub open spec fn blocks(t: TableFootprint, sheet: SheetId, exclude: Option<Seq<char>>) -> bool {
    t.sheet == sheet && match exclude {
        Some(e) => !eq_ci(t.name@, e),
        None => true,
    }
}

/// Cell `(r, c)` of `sheet` lies in some blocking table.
pub open spec fn table_at(
    tables: Seq<TableFootprint>,
    sheet: SheetId,
    exclude: Option<Seq<char>>,
    r: int,
    c: int,
) -> bool {
    exists|i: int|
        0 <= i < tables.len() && blocks(tables[i], sheet, exclude) && in_rect(
            r,
            c,
            tables[i].top_row as int,
            tables[i].top_col as int,
            tables[i].rows as int,
            tables[i].cols as int,
        )
}

/// Cell `(r, c)` of `sheet` is a spill anchor.
pub open spec fn anchor_at(anchors: Seq<CellAddr>, sheet: SheetId, r: int, c: int) -> bool {
    exists|j: int|
        0 <= j < anchors.len() && anchors[j].0 == sheet && anchors[j].1 as int == r
            && anchors[j].2 as int == c
}

/// The geometry of a claim: sheet, shared top-left corner, new and old size.
#[derive(Debug, Clone, Copy, PartialEq, Eq, Structural)]
pub struct Claim {
    pub sheet: SheetId,
    pub top_row: RowId,
    pub top_col: ColId,
    pub new_rows: u32,
    pub new_cols: u32,
    pub old_rows: u32,
    pub old_cols: u32,
}

impl Claim {
    pub open spec fn claims(self, r: int, c: int) -> bool {
        claimed(
            r,
            c,
            self.top_row as int,
            self.top_col as int,
            self.new_rows as int,
            self.new_cols as int,
            self.old_rows as int,
            self.old_cols as int,
        )
    }

    /// A claimed cell that lies in a blocking table.
    pub open spec fn table_hit(
        self,
        tables: Seq<TableFootprint>,
        exclude: Option<Seq<char>>,
        r: int,
        c: int,
    ) -> bool {
        self.claims(r, c) && table_at(tables, self.sheet, exclude, r, c)
    }

    /// A claimed cell that is a spill anchor.
    pub open spec fn anchor_hit(self, anchors: Seq<CellAddr>, r: int, c: int) -> bool {
        self.claims(r, c) && anchor_at(anchors, self.sheet, r, c)
    }

    /// The row-major scan of the claimed cells stops first at a table cell
    /// (a cell in a table is reported before a spill anchor at the same cell).
    pub open spec fn table_first(
        self,
        tables: Seq<TableFootprint>,
        exclude: Option<Seq<char>>,
        anchors: Seq<CellAddr>,
    ) -> bool {
        exists|r: int, c: int|
            #![trigger self.table_hit(tables, exclude, r, c)]
            self.table_hit(tables, exclude, r, c) && forall|r2: int, c2: int|
                #![trigger self.anchor_hit(anchors, r2, c2)]
                lex_lt(r2, c2, r, c) ==> !self.anchor_hit(anchors, r2, c2)
    }

    /// Some claimed cell is blocked.
    pub open spec fn any_hit(
        self,
        tables: Seq<TableFootprint>,
        exclude: Option<Seq<char>>,
        anchors: Seq<CellAddr>,
    ) -> bool {
        exists|r: int, c: int|
            #![trigger self.table_hit(tables, exclude, r, c)]
            #![trigger self.anchor_hit(anchors, r, c)]
            self.table_hit(tables, exclude, r, c) || self.anchor_hit(anchors, r, c)
    }

    /// What the row-major scan of the claimed cells stops at first.
    pub open spec fn conflict(
        self,
        tables: Seq<TableFootprint>,
        exclude: Option<Seq<char>>,
        anchors: Seq<CellAddr>,
    ) -> FootprintConflict {
        if self.table_first(tables, exclude, anchors) {
            FootprintConflict::Table
        } else if self.any_hit(tables, exclude, anchors) {
            FootprintConflict::SpillAnchor
        } else {
            FootprintConflict::Clear
        }
    }
}

/// The row-major-first claimed cell inside the rectangle `(t_top, t_left,
/// t_rows, t_cols)`, if any.
fn first_claimed_in(claim: Claim, t_top: u64, t_left: u64, t_rows: u64, t_cols: u64) -> (res:
    Option<(u64, u64)>)
    requires
        t_top <= u32::MAX,
        t_left <= u32::MAX,
        t_rows <= u32::MAX,
        t_cols <= u32::MAX,
    ensures
        match res {
            None => forall|r: int, c: int|
                !(claim.claims(r, c) && in_rect(
                    r,
                    c,
                    t_top as int,
                    t_left as int,
                    t_rows as int,
                    t_cols as int,
                )),
            Some((r0, c0)) => {
                &&& claim.claims(r0 as int, c0 as int)
                &&& in_rect(
                    r0 as int,
                    c0 as int,
                    t_top as int,
                    t_left as int,
                    t_rows as int,
                    t_cols as int,
                )
                &&& forall|r: int, c: int|
                    claim.claims(r, c) && in_rect(
                        r,
                        c,
                        t_top as int,
                        t_left as int,
                        t_rows as int,
                        t_cols as int,
                    ) ==> !lex_lt(r, c, r0 as int, c0 as int)
                &&& r0 <= u32::MAX as u64 * 2
            },
        },
{
    let top = claim.top_row as u64;
    let left = claim.top_col as u64;
    // Intersection of the table with the new rectangle.
    let i_top = if t_top > top { t_top } else { top };
    let i_left = if t_left > left { t_left } else { left };
    let new_bottom = top + claim.new_rows as u64;
    let new_right = left + claim.new_cols as u64;
    let t_bottom = t_top + t_rows;
    let t_right = t_left + t_cols;
    let i_bottom = if t_bottom < new_bottom { t_bottom } else { new_bottom };
    let i_right = if t_right < new_right { t_right } else { new_right };
    if i_top >= i_bottom || i_left >= i_right {
        return None;
    }
    // Exclusive ends of the old rectangle.
    let old_bottom = top + claim.old_rows as u64;
    let old_right = left + claim.old_cols as u64;
    if i_top >= old_bottom || i_left >= old_right || claim.old_rows == 0 || claim.old_cols == 0 {
        Some((i_top, i_left))
    } else if i_right > old_right {
        Some((i_top, old_right))
    } else if old_bottom < i_bottom {
        Some((old_bottom, i_left))
    } else {
        None
    }
}

/// The text an optional name refers to.
pub open spec fn opt_text(s: Option<&str>) -> Option<Seq<char>> {
    match s {
        Some(t) => Some(t@),
        None => None,
    }
}

/// Scans the cells `claim` claims in row-major order and reports what blocks
/// the first blocked one: a cell inside a table of `tables` on the claim's
/// sheet (other than the table `exclude` names, ignoring ASCII case), or a
/// spill anchor of `anchors`. A table cell is reported before a spill anchor
/// at the same cell.
pub fn first_conflict(
    claim: Claim,
    tables: &Vec<TableFootprint>,
    exclude: Option<&str>,
    anchors: &Vec<CellAddr>,
) -> (res: FootprintConflict)
    ensures
        res == claim.conflict(tables@, opt_text(exclude), anchors@),
{
    let ghost ex = opt_text(exclude);
    let mut best_t: Option<(u64, u64)> = None;
    let mut i: usize = 0;
    while i < tables.len()
        invariant
            0 <= i <= tables.len(),
            ex == opt_text(exclude),
            match best_t {
                None => forall|k: int, r: int, c: int|
                    0 <= k < i && blocks(tables@[k], claim.sheet, ex) ==> !(claim.claims(r, c)
                        && in_rect(
                        r,
                        c,
                        tables@[k].top_row as int,
                        tables@[k].top_col as int,
                        tables@[k].rows as int,
                        tables@[k].cols as int,
                    )),
                Some((br, bc)) => {
                    &&& claim.table_hit(tables@, ex, br as int, bc as int)
                    &&& forall|k: int, r: int, c: int|
                        0 <= k < i && blocks(tables@[k], claim.sheet, ex) && claim.claims(r, c)
                            && in_rect(
                            r,
                            c,
                            tables@[k].top_row as int,
                            tables@[k].top_col as int,
                            tables@[k].rows as int,
                            tables@[k].cols as int,
                        ) ==> !lex_lt(r, c, br as int, bc as int)
                },
            },
        decreases tables.len() - i,
    {
        let t = &tables[i];
        let counts = t.sheet == claim.sheet && match exclude {
            Some(e) => !same_ci(t.name.as_str(), e),
            None => true,
        };
        if counts {
            let cand = first_claimed_in(
                claim,
                t.top_row as u64,
                t.top_col as u64,
                t.rows as u64,
                t.cols as u64,
            );
            match cand {
                Some((cr, cc)) => {
                    let better = match best_t {
                        None => true,
                        Some((br, bc)) => cr < br || (cr == br && cc < bc),
                    };
                    if better {
                        best_t = Some((cr, cc));
                    }
                },
                None => {},
            }
        }
        i += 1;
    }
    let mut best_a: Option<(u64, u64)> = None;
    let mut j: usize = 0;
    while j < anchors.len()
        invariant
            0 <= j <= anchors.len(),
            match best_a {
                None => forall|k: int|
                    0 <= k < j && anchors@[k].0 == claim.sheet ==> !claim.claims(
                        anchors@[k].1 as int,
                        anchors@[k].2 as int,
                    ),
                Some((ar, ac)) => {
                    &&& claim.anchor_hit(anchors@, ar as int, ac as int)
                    &&& forall|k: int|
                        0 <= k < j && anchors@[k].0 == claim.sheet && claim.claims(
                            anchors@[k].1 as int,
                            anchors@[k].2 as int,
                        ) ==> !lex_lt(anchors@[k].1 as int, anchors@[k].2 as int, ar as int, ac as int)
                },
            },
        decreases anchors.len() - j,
    {
        let (s, r, c) = anchors[j];
        let top = claim.top_row as u64;
        let left = claim.top_col as u64;
        let rr = r as u64;
        let cc = c as u64;
        let in_new = top <= rr && rr < top + claim.new_rows as u64 && left <= cc && cc < left
            + claim.new_cols as u64;
        let in_old = top <= rr && rr < top + claim.old_rows as u64 && left <= cc && cc < left
            + claim.old_cols as u64;
        if s == claim.sheet && in_new && !in_old {
            let better = match best_a {
                None => true,
                Some((ar, ac)) => rr < ar || (rr == ar && cc < ac),
            };
            if better {
                best_a = Some((rr, cc));
            }
        }
        j += 1;
    }
    match (best_t, best_a) {
        (None, None) => {
            assert(!claim.any_hit(tables@, ex, anchors@));
            FootprintConflict::Clear
        },
        (Some((br, bc)), None) => {
            assert(claim.table_first(tables@, ex, anchors@));
            FootprintConflict::Table
        },
        (None, Some((ar, ac))) => {
            assert(!claim.table_first(tables@, ex, anchors@));
            assert(claim.any_hit(tables@, ex, anchors@));
            FootprintConflict::SpillAnchor
        },
        (Some((br, bc)), Some((ar, ac))) => {
            if ar < br || (ar == br && ac < bc) {
                assert(!claim.table_first(tables@, ex, anchors@));
                assert(claim.any_hit(tables@, ex, anchors@));
                FootprintConflict::SpillAnchor
            } else {
                assert(claim.table_first(tables@, ex, anchors@));
                FootprintConflict::Table
            }
        },
    }
}

} // verus!
