//! Table mutation decisions: create, drop, rename, rename a column, resize.

use vstd::prelude::*;

use crate::error::{RuntimeError, TableRule};
use crate::footprint::{
    anchor_at,
    blocks,
    first_conflict,
    in_rect,
    table_at,
    CellAddr,
    Claim,
    FootprintConflict,
    TableFootprint,
};
use crate::grid::{ColId, RowId, SheetId};
use crate::ops::Op;
use crate::runtime::{lemma_logged_compose, logged, WorkbookRuntime};
use crate::text::{ascii_lower, ascii_upper, eq_ci, same_ci, to_lower, to_upper};

verus! {

/// A column as storage records it: lower-case canonical name and the
/// caller's display spelling.
#[derive(Debug, Clone)]
pub struct NewColumn {
    pub name: String,
    pub display: String,
}

/// A table storage must insert after a successful `create_table`.
#[derive(Debug, Clone)]
pub struct NewTable {
    /// Upper-case canonical name (the table-table key).
    pub name: String,
    /// The caller's spelling.
    pub display_name: String,
    pub sheet: SheetId,
    pub top_row: RowId,
    pub top_col: ColId,
    pub rows: u32,
    pub cols: u32,
    pub has_header: bool,
    pub has_totals: bool,
    pub columns: Vec<NewColumn>,
}

/// Some table already has canonical name `canonical` (exact key match).
pub open spec fn table_named(tables: Seq<TableFootprint>, canonical: Seq<char>) -> bool {
    exists|i: int| 0 <= i < tables.len() && tables[i].name@ == canonical
}

/// No two names are equal ignoring ASCII case.
pub open spec fn distinct_ci(names: Seq<Seq<char>>) -> bool {
    forall|i: int, j: int|
        0 <= i < j < names.len() ==> ascii_lower(names[i]) != ascii_lower(names[j])
}

/// The texts of a list of strings.
pub open spec fn texts(v: Seq<String>) -> Seq<Seq<char>> {
    v.map_values(|s: String| s@)
}

/// Some name is the empty string.
pub open spec fn any_empty(names: Seq<Seq<char>>) -> bool {
    exists|i: int| 0 <= i < names.len() && names[i].len() == 0
}

/// The rule `create_table` refuses a table by, on an existing sheet, or
/// `None` when it accepts it. Rules are tried in this order.
pub open spec fn create_table_rule(
    name: Seq<char>,
    claim: Claim,
    column_names: Seq<Seq<char>>,
    bounds: Result<(), String>,
    defined_name_exists: bool,
    tables: Seq<TableFootprint>,
    anchors: Seq<CellAddr>,
) -> Option<TableRule> {
    if claim.new_rows == 0 || claim.new_cols == 0 {
        Some(TableRule::EmptyFootprint)
    } else if bounds is Err {
        Some(TableRule::FootprintOutOfBounds(bounds->Err_0))
    } else if column_names.len() != claim.new_cols as int {
        Some(TableRule::ColumnCountMismatch)
    } else if any_empty(column_names) {
        Some(TableRule::EmptyColumnName)
    } else if !distinct_ci(column_names) {
        Some(TableRule::DuplicateColumnName)
    } else if table_named(tables, ascii_upper(name)) {
        Some(TableRule::TableNameTaken)
    } else if defined_name_exists {
        Some(TableRule::DefinedNameTaken)
    } else {
        match claim.conflict(tables, None, anchors) {
            FootprintConflict::Table => Some(TableRule::OverlapsTable),
            FootprintConflict::SpillAnchor => Some(TableRule::ContainsSpillAnchor),
            FootprintConflict::Clear => None,
        }
    }
}

/// Finds a name that is empty, scanning `names`.
fn has_empty(names: &Vec<String>) -> (r: bool)
    ensures
        r == any_empty(texts(names@)),
{
    let mut i: usize = 0;
    while i < names.len()
        invariant
            0 <= i <= names.len(),
            forall|k: int| 0 <= k < i ==> names@[k]@.len() != 0,
        decreases names.len() - i,
    {
        if names[i].as_str().is_empty() {
            assert(texts(names@)[i as int].len() == 0);
            return true;
        }
        i += 1;
    }
    false
}

/// Checks that no two names are equal ignoring ASCII case.
fn all_distinct_ci(names: &Vec<String>) -> (r: bool)
    ensures
        r == distinct_ci(texts(names@)),
{
    let mut lowered: Vec<String> = Vec::new();
    let mut i: usize = 0;
    while i < names.len()
        invariant
            0 <= i <= names.len(),
            lowered@.len() == i,
            forall|k: int| 0 <= k < i ==> lowered@[k]@ == ascii_lower(names@[k]@),
        decreases names.len() - i,
    {
        lowered.push(to_lower(names[i].as_str()));
        i += 1;
    }
    let mut a: usize = 0;
    while a < lowered.len()
        invariant
            0 <= a <= lowered.len(),
            lowered@.len() == names@.len(),
            forall|k: int| 0 <= k < names@.len() ==> lowered@[k]@ == ascii_lower(names@[k]@),
            forall|x: int, y: int|
                0 <= x < a && x < y < names@.len() ==> ascii_lower(names@[x]@) != ascii_lower(
                    names@[y]@,
                ),
        decreases lowered.len() - a,
    {
        let mut b: usize = a + 1;
        while b < lowered.len()
            invariant
                0 <= a < b <= lowered.len(),
                lowered@.len() == names@.len(),
                forall|k: int| 0 <= k < names@.len() ==> lowered@[k]@ == ascii_lower(names@[k]@),
                forall|x: int, y: int|
                    0 <= x < a && x < y < names@.len() ==> ascii_lower(names@[x]@) != ascii_lower(
                        names@[y]@,
                    ),
                forall|y: int| a < y < b ==> ascii_lower(names@[a as int]@) != ascii_lower(names@[y]@),
            decreases lowered.len() - b,
        {
            if lowered[a] == lowered[b] {
                assert(texts(names@)[a as int] == names@[a as int]@);
                assert(texts(names@)[b as int] == names@[b as int]@);
                return false;
            }
            b += 1;
        }
        a += 1;
    }
    assert(distinct_ci(texts(names@)));
    true
}

/// Some table of `tables` has exactly the canonical name `canonical`.
fn has_table_named(tables: &Vec<TableFootprint>, canonical: &String) -> (r: bool)
    ensures
        r == table_named(tables@, canonical@),
{
    let mut i: usize = 0;
    while i < tables.len()
        invariant
            0 <= i <= tables.len(),
            forall|k: int| 0 <= k < i ==> tables@[k].name@ != canonical@,
        decreases tables.len() - i,
    {
        if tables[i].name == *canonical {
            return true;
        }
        i += 1;
    }
    false
}

impl WorkbookRuntime {
    /// Registers a new workbook-scoped table. Inputs read from storage:
    /// the sheet count, the storage footprint-bound check for this footprint,
    /// whether a defined name with the table's canonical name exists, every
    /// existing table's footprint and every spill anchor.
    ///
    /// Refusals, in order: unknown sheet; empty footprint; footprint out of
    /// bounds; column count; empty column name; duplicate column name
    /// (ignoring ASCII case); table name taken; defined name taken; the first
    /// footprint cell (row-major) lies in a table or is a spill anchor. On
    /// success records `Op::CreateTable` and returns the table to insert.
    pub fn create_table(
        &mut self,
        name: &str,
        sheet: SheetId,
        top_row: RowId,
        top_col: ColId,
        rows: u32,
        cols: u32,
        has_header: bool,
        has_totals: bool,
        column_names: Vec<String>,
        sheet_count: usize,
        bounds: Result<(), String>,
        defined_name_exists: bool,
        tables: &Vec<TableFootprint>,
        spill_anchors: &Vec<CellAddr>,
    ) -> (r: Result<NewTable, RuntimeError>)
        ensures
            sheet as int >= sheet_count ==> r == Err::<NewTable, RuntimeError>(
                RuntimeError::InvalidSheet { sheet, sheet_count },
            ),
            (sheet as int) < sheet_count ==> match create_table_rule(
                name@,
                Claim {
                    sheet,
                    top_row,
                    top_col,
                    new_rows: rows,
                    new_cols: cols,
                    old_rows: 0,
                    old_cols: 0,
                },
                texts(column_names@),
                bounds,
                defined_name_exists,
                tables@,
                spill_anchors@,
            ) {
                Some(rule) => r matches Err(RuntimeError::TableCreateRejected { name: n, reason })
                    && n@ == name@ && reason == rule,
                None => r is Ok,
            },
            r is Err ==> final(self).recorded() == old(self).recorded(),
            r matches Ok(t) ==> {
                &&& t.name@ == ascii_upper(name@)
                &&& t.display_name@ == name@
                &&& t.sheet == sheet && t.top_row == top_row && t.top_col == top_col
                &&& t.rows == rows && t.cols == cols
                &&& t.has_header == has_header && t.has_totals == has_totals
                &&& t.columns@.len() == column_names@.len()
                &&& forall|i: int|
                    0 <= i < column_names@.len() ==> t.columns@[i].name@ == ascii_lower(
                        column_names@[i]@,
                    ) && t.columns@[i].display@ == column_names@[i]@
                &&& logged(
                    old(self).recorded(),
                    final(self).recorded(),
                    seq![
                        Op::CreateTable {
                            name: t.name,
                            sheet,
                            top_row,
                            top_col,
                            rows,
                            cols,
                            has_header,
                            has_totals,
                            column_names,
                        },
                    ],
                )
            },
            final(self).has_graph() == old(self).has_graph(),
    {
        if sheet as usize >= sheet_count {
            return Err(RuntimeError::InvalidSheet { sheet, sheet_count });
        }
        let claim = Claim {
            sheet,
            top_row,
            top_col,
            new_rows: rows,
            new_cols: cols,
            old_rows: 0,
            old_cols: 0,
        };
        let ghost rule = create_table_rule(
            name@,
            claim,
            texts(column_names@),
            bounds,
            defined_name_exists,
            tables@,
            spill_anchors@,
        );
        let reject = if rows == 0 || cols == 0 {
            Some(TableRule::EmptyFootprint)
        } else if let Err(why) = bounds {
            Some(TableRule::FootprintOutOfBounds(why))
        } else if column_names.len() != cols as usize {
            Some(TableRule::ColumnCountMismatch)
        } else if has_empty(&column_names) {
            Some(TableRule::EmptyColumnName)
        } else if !all_distinct_ci(&column_names) {
            Some(TableRule::DuplicateColumnName)
        } else {
            let canonical = to_upper(name);
            if has_table_named(tables, &canonical) {
                Some(TableRule::TableNameTaken)
            } else if defined_name_exists {
                Some(TableRule::DefinedNameTaken)
            } else {
                match first_conflict(claim, tables, None, spill_anchors) {
                    FootprintConflict::Table => Some(TableRule::OverlapsTable),
                    FootprintConflict::SpillAnchor => Some(TableRule::ContainsSpillAnchor),
                    FootprintConflict::Clear => None,
                }
            }
        };
        assert(reject == rule);
        if let Some(reason) = reject {
            return Err(RuntimeError::TableCreateRejected { name: name.to_owned(), reason });
        }
        let canonical = to_upper(name);
        let mut columns: Vec<NewColumn> = Vec::new();
        let mut i: usize = 0;
        while i < column_names.len()
            invariant
                0 <= i <= column_names.len(),
                columns@.len() == i,
                forall|k: int|
                    0 <= k < i ==> columns@[k].name@ == ascii_lower(column_names@[k]@)
                        && columns@[k].display@ == column_names@[k]@,
            decreases column_names.len() - i,
        {
            let cn = column_names[i].as_str();
            columns.push(NewColumn { name: to_lower(cn), display: cn.to_owned() });
            i += 1;
        }
        let op_name = canonical.clone();
        self.record(
            Op::CreateTable {
                name: op_name,
                sheet,
                top_row,
                top_col,
                rows,
                cols,
                has_header,
                has_totals,
                column_names,
            },
        );
        Ok(
            NewTable {
                name: canonical,
                display_name: name.to_owned(),
                sheet,
                top_row,
                top_col,
                rows,
                cols,
                has_header,
                has_totals,
                columns,
            },
        )
    }
}

/// One stored formula after a rename's text rewrite: the new text, or `None`
/// when the rewrite left the formula unchanged (or the text did not parse).
#[derive(Debug, Clone)]
pub struct FormulaRewrite {
    pub sheet: SheetId,
    pub row: RowId,
    pub col: ColId,
    pub new_text: Option<String>,
}

/// The `PutFormula` ops a list of rewrites records, in order.
pub open spec fn rewrite_ops(rw: Seq<FormulaRewrite>) -> Seq<Op>
    decreases rw.len(),
{
    if rw.len() == 0 {
        Seq::empty()
    } else {
        let prev = rewrite_ops(rw.drop_last());
        let last = rw.last();
        match last.new_text {
            Some(t) => prev.push(Op::PutFormula { sheet: last.sheet, row: last.row, col: last.col, text: t }),
            None => prev,
        }
    }
}

/// The index of the first table named exactly `canonical`.
pub open spec fn table_index(tables: Seq<TableFootprint>, canonical: Seq<char>) -> int
    recommends
        table_named(tables, canonical),
{
    choose|i: int|
        0 <= i < tables.len() && tables[i].name@ == canonical && forall|k: int|
            0 <= k < i ==> tables[k].name@ != canonical
}

/// A table rename storage must apply: re-key `old_canonical` to
/// `new_canonical` and set the display name.
#[derive(Debug, Clone)]
pub struct TableRename {
    pub old_canonical: String,
    pub new_canonical: String,
    pub new_display: String,
    /// Stored formulas the rename rewrote.
    pub rewritten: usize,
}

/// A column rename storage must apply to table `table`: the column found by
/// the old name gets lower-case canonical `new_name` and display `new_display`.
#[derive(Debug, Clone)]
pub struct ColumnRename {
    pub table: String,
    pub new_name: String,
    pub new_display: String,
    /// Stored formulas the rename rewrote.
    pub rewritten: usize,
}

/// A table resize storage must apply: new size, keep the first
/// `keep_columns` columns, then append `added`.
#[derive(Debug, Clone)]
pub struct TableResize {
    pub name: String,
    pub new_rows: u32,
    pub new_cols: u32,
    pub keep_columns: u32,
    pub added: Vec<NewColumn>,
}

/// Removed column `i` matches trailing display `old_cols - removed + i`.
pub open spec fn removed_trailing(displays: Seq<Seq<char>>, removed: Seq<Seq<char>>) -> bool {
    forall|i: int|
        0 <= i < removed.len() ==> eq_ci(displays[displays.len() - removed.len() + i], removed[i])
}

/// The rule `resize_table` refuses a resize of existing table `t` by, or
/// `None` when it accepts it. Rules are tried in this order (the exact no-op
/// is handled before any of them).
pub open spec fn resize_table_rule(
    t: TableFootprint,
    new_rows: u32,
    new_cols: u32,
    displays: Seq<Seq<char>>,
    added: Seq<Seq<char>>,
    removed: Seq<Seq<char>>,
    bounds: Result<(), String>,
    tables: Seq<TableFootprint>,
    anchors: Seq<CellAddr>,
) -> Option<TableRule> {
    let claim = Claim {
        sheet: t.sheet,
        top_row: t.top_row,
        top_col: t.top_col,
        new_rows,
        new_cols,
        old_rows: t.rows,
        old_cols: t.cols,
    };
    let keep = t.cols - removed.len();
    if new_rows == 0 || new_cols == 0 {
        Some(TableRule::EmptyFootprint)
    } else if bounds is Err {
        Some(TableRule::FootprintOutOfBounds(bounds->Err_0))
    } else if removed.len() > t.cols {
        Some(TableRule::TooManyRemovedColumns)
    } else if new_cols != t.cols + added.len() - removed.len() {
        Some(TableRule::ColumnArithmeticMismatch)
    } else if !removed_trailing(displays, removed) {
        Some(TableRule::RemovedColumnsNotTrailing)
    } else if any_empty(added) {
        Some(TableRule::EmptyAddedColumnName)
    } else if !distinct_ci(displays.take(keep) + added) {
        Some(TableRule::DuplicateColumnName)
    } else {
        match claim.conflict(tables, Some(t.name@), anchors) {
            FootprintConflict::Table => Some(TableRule::OverlapsTable),
            FootprintConflict::SpillAnchor => Some(TableRule::ContainsSpillAnchor),
            FootprintConflict::Clear => None,
        }
    }
}

/// The index of the first table named exactly `canonical`, if any.
fn find_table(tables: &Vec<TableFootprint>, canonical: &String) -> (r: Option<usize>)
    ensures
        r is None <==> !table_named(tables@, canonical@),
        r matches Some(i) ==> i == table_index(tables@, canonical@) && i < tables@.len()
            && tables@[i as int].name@ == canonical@,
{
    let mut i: usize = 0;
    while i < tables.len()
        invariant
            0 <= i <= tables.len(),
            forall|k: int| 0 <= k < i ==> tables@[k].name@ != canonical@,
        decreases tables.len() - i,
    {
        if tables[i].name == *canonical {
            let ghost w = i as int;
            assert(0 <= w < tables@.len() && tables@[w].name@ == canonical@ && forall|k: int|
                0 <= k < w ==> tables@[k].name@ != canonical@);
            let ghost c = table_index(tables@, canonical@);
            assert(c == w) by {
                if c < w {
                    assert(tables@[c].name@ != canonical@);
                } else if c > w {
                    assert(tables@[w].name@ != canonical@);
                }
            }
            return Some(i);
        }
        i += 1;
    }
    None
}

/// Whether each removed column matches, ignoring ASCII case, the display of
/// the trailing column it removes.
fn removed_are_trailing(displays: &Vec<String>, removed: &Vec<String>) -> (r: bool)
    requires
        removed@.len() <= displays@.len(),
    ensures
        r == removed_trailing(texts(displays@), texts(removed@)),
{
    let dl = displays.len();
    let keep: usize = dl - removed.len();
    let mut ok = true;
    let mut i: usize = 0;
    while i < removed.len()
        invariant
            0 <= i <= removed.len(),
            dl == displays@.len(),
            keep + removed@.len() == displays@.len(),
            ok == forall|k: int| 0 <= k < i ==> eq_ci(displays@[keep + k]@, removed@[k]@),
        decreases removed.len() - i,
    {
        if !same_ci(displays[keep + i].as_str(), removed[i].as_str()) {
            ok = false;
        }
        i += 1;
    }
    assert(ok == removed_trailing(texts(displays@), texts(removed@))) by {
        let d = texts(displays@);
        let rm = texts(removed@);
        assert(d.len() == displays@.len());
        assert(rm.len() == removed@.len());
        if ok {
            assert forall|k: int| 0 <= k < rm.len() implies eq_ci(d[d.len() - rm.len() + k], rm[k]) by {
                assert(d[d.len() - rm.len() + k] == displays@[keep + k]@);
                assert(rm[k] == removed@[k]@);
            }
        } else {
            let k = choose|k: int| 0 <= k < removed@.len() && !eq_ci(displays@[keep + k]@, removed@[k]@);
            assert(d[d.len() - rm.len() + k] == displays@[keep + k]@);
            assert(rm[k] == removed@[k]@);
        }
    }
    ok
}

/// The final column roster of a resize: the first `keep` displays, then the
/// added names.
fn final_roster(displays: &Vec<String>, keep: usize, added: &Vec<String>) -> (roster: Vec<String>)
    requires
        keep <= displays@.len(),
    ensures
        texts(roster@) =~= texts(displays@).take(keep as int) + texts(added@),
{
    let mut roster: Vec<String> = Vec::new();
    let mut k: usize = 0;
    while k < keep
        invariant
            0 <= k <= keep,
            keep <= displays@.len(),
            roster@.len() == k,
            forall|x: int| 0 <= x < k ==> roster@[x]@ == displays@[x]@,
        decreases keep - k,
    {
        roster.push(displays[k].clone());
        k += 1;
    }
    let mut a: usize = 0;
    while a < added.len()
        invariant
            0 <= a <= added.len(),
            roster@.len() == keep + a,
            keep <= displays@.len(),
            forall|x: int| 0 <= x < keep ==> roster@[x]@ == displays@[x]@,
            forall|x: int| 0 <= x < a ==> roster@[keep + x]@ == added@[x]@,
        decreases added.len() - a,
    {
        roster.push(added[a].clone());
        a += 1;
    }
    roster
}

/// Decides which rule, if any, refuses resizing table `t`.
fn check_resize(
    t: &TableFootprint,
    new_rows: u32,
    new_cols: u32,
    added: &Vec<String>,
    removed: &Vec<String>,
    bounds: Result<(), String>,
    tables: &Vec<TableFootprint>,
    displays: &Vec<String>,
    anchors: &Vec<CellAddr>,
) -> (r: Option<TableRule>)
    requires
        displays@.len() == t.cols,
    ensures
        r == resize_table_rule(
            *t,
            new_rows,
            new_cols,
            texts(displays@),
            texts(added@),
            texts(removed@),
            bounds,
            tables@,
            anchors@,
        ),
{
    let old_cols = t.cols;
    if new_rows == 0 || new_cols == 0 {
        return Some(TableRule::EmptyFootprint);
    }
    if let Err(why) = bounds {
        return Some(TableRule::FootprintOutOfBounds(why));
    }
    if removed.len() > old_cols as usize {
        return Some(TableRule::TooManyRemovedColumns);
    }
    if new_cols as u128 + removed.len() as u128 != old_cols as u128 + added.len() as u128 {
        return Some(TableRule::ColumnArithmeticMismatch);
    }
    if !removed_are_trailing(displays, removed) {
        return Some(TableRule::RemovedColumnsNotTrailing);
    }
    if has_empty(added) {
        return Some(TableRule::EmptyAddedColumnName);
    }
    let keep: usize = old_cols as usize - removed.len();
    let roster = final_roster(displays, keep, added);
    if !all_distinct_ci(&roster) {
        return Some(TableRule::DuplicateColumnName);
    }
    let claim = Claim {
        sheet: t.sheet,
        top_row: t.top_row,
        top_col: t.top_col,
        new_rows,
        new_cols,
        old_rows: t.rows,
        old_cols,
    };
    match first_conflict(claim, tables, Some(t.name.as_str()), anchors) {
        FootprintConflict::Table => Some(TableRule::OverlapsTable),
        FootprintConflict::SpillAnchor => Some(TableRule::ContainsSpillAnchor),
        FootprintConflict::Clear => None,
    }
}

impl WorkbookRuntime {
    /// Records the `PutFormula` op of every rewrite that changed its formula,
    /// in order, and returns how many did (the count a rename reports).
    pub fn record_formula_rewrites(&mut self, rewrites: &Vec<FormulaRewrite>) -> (n: usize)
        ensures
            n == rewrite_ops(rewrites@).len(),
            logged(old(self).recorded(), final(self).recorded(), rewrite_ops(rewrites@)),
            final(self).has_graph() == old(self).has_graph(),
    {
        let ghost start = self.recorded();
        let mut n: usize = 0;
        let mut i: usize = 0;
        while i < rewrites.len()
            invariant
                0 <= i <= rewrites.len(),
                n == rewrite_ops(rewrites@.take(i as int)).len(),
                n <= i,
                logged(start, self.recorded(), rewrite_ops(rewrites@.take(i as int))),
                self.has_graph() == old(self).has_graph(),
            decreases rewrites.len() - i,
        {
            assert(rewrites@.take(i + 1).drop_last() =~= rewrites@.take(i as int));
            let rw = &rewrites[i];
            match &rw.new_text {
                Some(t) => {
                    self.record(
                        Op::PutFormula { sheet: rw.sheet, row: rw.row, col: rw.col, text: t.clone() },
                    );
                    n += 1;
                    proof {
                        match start {
                            Some(b) => {
                                assert(b + rewrite_ops(rewrites@.take(i + 1)) =~= b + rewrite_ops(
                                    rewrites@.take(i as int),
                                ) + seq![
                                    Op::PutFormula {
                                        sheet: rw.sheet,
                                        row: rw.row,
                                        col: rw.col,
                                        text: *t,
                                    },
                                ]);
                            },
                            None => {},
                        }
                    }
                },
                None => {},
            }
            i += 1;
        }
        assert(rewrites@.take(rewrites@.len() as int) =~= rewrites@);
        n
    }

    /// Drops a table's metadata (cells are untouched). Refuses an unknown
    /// table; otherwise records `Op::DropTable` with the canonical name and
    /// returns that name.
    pub fn drop_table(&mut self, name: &str, tables: &Vec<TableFootprint>) -> (r: Result<
        String,
        RuntimeError,
    >)
        ensures
            !table_named(tables@, ascii_upper(name@)) ==> (r matches Err(
                RuntimeError::TableNotFound(n),
            ) && n@ == name@),
            table_named(tables@, ascii_upper(name@)) ==> r is Ok,
            r is Err ==> final(self).recorded() == old(self).recorded(),
            r matches Ok(c) ==> c@ == ascii_upper(name@) && logged(
                old(self).recorded(),
                final(self).recorded(),
                seq![Op::DropTable { name: c }],
            ),
            final(self).has_graph() == old(self).has_graph(),
    {
        let canonical = to_upper(name);
        if !has_table_named(tables, &canonical) {
            return Err(RuntimeError::TableNotFound(name.to_owned()));
        }
        self.record(Op::DropTable { name: canonical.clone() });
        Ok(canonical)
    }

    /// Renames a table. Refuses an unknown source; a rename to the same
    /// canonical name is a no-op (`Ok(None)`, nothing recorded); refuses a
    /// target that names an existing table or (`defined_name_exists`, read
    /// from the defined-name table for the target's canonical name) a
    /// defined name. Otherwise records, as one edit, `Op::RenameTable`
    /// followed by a `PutFormula` for each stored formula that `rewrites`
    /// (the stored formulas with the table reference renamed) changed.
    pub fn rename_table(
        &mut self,
        old_name: &str,
        new_name: &str,
        defined_name_exists: bool,
        tables: &Vec<TableFootprint>,
        rewrites: &Vec<FormulaRewrite>,
    ) -> (r: Result<Option<TableRename>, RuntimeError>)
        ensures
            !table_named(tables@, ascii_upper(old_name@)) ==> (r matches Err(
                RuntimeError::TableNotFound(n),
            ) && n@ == old_name@),
            table_named(tables@, ascii_upper(old_name@)) && ascii_upper(old_name@) == ascii_upper(
                new_name@,
            ) ==> r matches Ok(None),
            table_named(tables@, ascii_upper(old_name@)) && ascii_upper(old_name@) != ascii_upper(
                new_name@,
            ) ==> {
                if table_named(tables@, ascii_upper(new_name@)) {
                    r matches Err(RuntimeError::TableCreateRejected { name: n, reason }) && n@
                        == new_name@ && reason == TableRule::TargetTableNameTaken
                } else if defined_name_exists {
                    r matches Err(RuntimeError::TableCreateRejected { name: n, reason }) && n@
                        == new_name@ && reason == TableRule::TargetDefinedNameTaken
                } else {
                    r matches Ok(Some(_))
                }
            },
            !(r matches Ok(Some(_))) ==> final(self).recorded() == old(self).recorded(),
            r matches Ok(Some(t)) ==> {
                &&& t.old_canonical@ == ascii_upper(old_name@)
                &&& t.new_canonical@ == ascii_upper(new_name@)
                &&& t.new_display@ == new_name@
                &&& t.rewritten == rewrite_ops(rewrites@).len()
                &&& logged(
                    old(self).recorded(),
                    final(self).recorded(),
                    seq![
                        Op::RenameTable {
                            old_name: t.old_canonical,
                            new_name: t.new_canonical,
                        },
                    ] + rewrite_ops(rewrites@),
                )
            },
            final(self).has_graph() == old(self).has_graph(),
    {
        let old_canonical = to_upper(old_name);
        let new_canonical = to_upper(new_name);
        if !has_table_named(tables, &old_canonical) {
            return Err(RuntimeError::TableNotFound(old_name.to_owned()));
        }
        if old_canonical == new_canonical {
            return Ok(None);
        }
        if has_table_named(tables, &new_canonical) {
            return Err(
                RuntimeError::TableCreateRejected {
                    name: new_name.to_owned(),
                    reason: TableRule::TargetTableNameTaken,
                },
            );
        }
        if defined_name_exists {
            return Err(
                RuntimeError::TableCreateRejected {
                    name: new_name.to_owned(),
                    reason: TableRule::TargetDefinedNameTaken,
                },
            );
        }
        let ghost before = self.recorded();
        let op = Op::RenameTable { old_name: old_canonical.clone(), new_name: new_canonical.clone() };
        let ghost first = seq![op];
        self.record(op);
        let ghost mid = self.recorded();
        let rewritten = self.record_formula_rewrites(rewrites);
        proof {
            lemma_logged_compose(before, mid, self.recorded(), first, rewrite_ops(rewrites@));
        }
        Ok(
            Some(
                TableRename {
                    old_canonical,
                    new_canonical,
                    new_display: new_name.to_owned(),
                    rewritten,
                },
            ),
        )
    }

    /// Renames a column of a table. `old_col_exists` / `new_col_exists` are
    /// the table's case-insensitive column lookups of the two names. Refuses
    /// an unknown table, an unknown source column, an empty target; a rename
    /// to the same lower-case name is a no-op (`Ok(None)`); refuses a target
    /// that already names a column. Otherwise records, as one edit,
    /// `Op::RenameColumn` followed by a `PutFormula` for each stored formula
    /// that `rewrites` (the stored formulas with the column reference renamed)
    /// changed.
    pub fn rename_column(
        &mut self,
        table_name: &str,
        old_col: &str,
        new_col: &str,
        tables: &Vec<TableFootprint>,
        old_col_exists: bool,
        new_col_exists: bool,
        rewrites: &Vec<FormulaRewrite>,
    ) -> (r: Result<Option<ColumnRename>, RuntimeError>)
        ensures
            !table_named(tables@, ascii_upper(table_name@)) ==> (r matches Err(
                RuntimeError::TableNotFound(n),
            ) && n@ == table_name@),
            table_named(tables@, ascii_upper(table_name@)) ==> {
                if !old_col_exists {
                    r matches Err(RuntimeError::TableColumnNotFound { table: t, column: c }) && t@
                        == table_name@ && c@ == old_col@
                } else if new_col@.len() == 0 {
                    r matches Err(RuntimeError::TableColumnRejected { table: t, column: c, reason })
                        && t@ == table_name@ && c@ == new_col@ && reason
                        == TableRule::EmptyColumnRenameTarget
                } else if ascii_lower(old_col@) == ascii_lower(new_col@) {
                    r matches Ok(None)
                } else if new_col_exists {
                    r matches Err(RuntimeError::TableColumnRejected { table: t, column: c, reason })
                        && t@ == table_name@ && c@ == new_col@ && reason == TableRule::ColumnNameTaken
                } else {
                    r matches Ok(Some(_))
                }
            },
            !(r matches Ok(Some(_))) ==> final(self).recorded() == old(self).recorded(),
            r matches Ok(Some(c)) ==> {
                &&& c.table@ == ascii_upper(table_name@)
                &&& c.new_name@ == ascii_lower(new_col@)
                &&& c.new_display@ == new_col@
                &&& c.rewritten == rewrite_ops(rewrites@).len()
                &&& exists|o: String, n: String|
                    o@ == old_col@ && n@ == new_col@ && logged(
                        old(self).recorded(),
                        final(self).recorded(),
                        seq![Op::RenameColumn { table: c.table, old_name: o, new_name: n }]
                            + rewrite_ops(rewrites@),
                    )
            },
            final(self).has_graph() == old(self).has_graph(),
    {
        let table_canonical = to_upper(table_name);
        if !has_table_named(tables, &table_canonical) {
            return Err(RuntimeError::TableNotFound(table_name.to_owned()));
        }
        if !old_col_exists {
            return Err(
                RuntimeError::TableColumnNotFound {
                    table: table_name.to_owned(),
                    column: old_col.to_owned(),
                },
            );
        }
        if new_col.is_empty() {
            return Err(
                RuntimeError::TableColumnRejected {
                    table: table_name.to_owned(),
                    column: new_col.to_owned(),
                    reason: TableRule::EmptyColumnRenameTarget,
                },
            );
        }
        let old_lower = to_lower(old_col);
        let new_lower = to_lower(new_col);
        if old_lower == new_lower {
            return Ok(None);
        }
        if new_col_exists {
            return Err(
                RuntimeError::TableColumnRejected {
                    table: table_name.to_owned(),
                    column: new_col.to_owned(),
                    reason: TableRule::ColumnNameTaken,
                },
            );
        }
        let o = old_col.to_owned();
        let n = new_col.to_owned();
        let ghost before = self.recorded();
        let op = Op::RenameColumn { table: table_canonical.clone(), old_name: o, new_name: n };
        let ghost first = seq![op];
        let ghost og = op->RenameColumn_old_name;
        let ghost ng = op->RenameColumn_new_name;
        self.record(op);
        let ghost mid = self.recorded();
        let rewritten = self.record_formula_rewrites(rewrites);
        proof {
            lemma_logged_compose(before, mid, self.recorded(), first, rewrite_ops(rewrites@));
            assert(first == seq![
                Op::RenameColumn { table: table_canonical, old_name: og, new_name: ng },
            ]);
        }
        Ok(
            Some(
                ColumnRename {
                    table: table_canonical,
                    new_name: new_lower,
                    new_display: new_col.to_owned(),
                    rewritten,
                },
            ),
        )
    }

    /// Resizes a table: grow/shrink rows, append columns at the end, or drop
    /// trailing columns. `column_displays` are the table's column display
    /// names, left to right. Refuses an unknown table; an exact no-op (same
    /// size, nothing added or removed) returns `Ok(None)` and records
    /// nothing; otherwise refuses by [`resize_table_rule`] (only cells outside
    /// the old footprint are checked for other tables and spill anchors), or
    /// records `Op::ResizeTable` and returns the resize to apply.
    pub fn resize_table(
        &mut self,
        name: &str,
        new_rows: u32,
        new_cols: u32,
        added_columns: Vec<String>,
        removed_columns: Vec<String>,
        bounds: Result<(), String>,
        tables: &Vec<TableFootprint>,
        column_displays: &Vec<String>,
        spill_anchors: &Vec<CellAddr>,
    ) -> (r: Result<Option<TableResize>, RuntimeError>)
        requires
            forall|i: int|
                0 <= i < tables@.len() && tables@[i].name@ == ascii_upper(name@)
                    ==> column_displays@.len() == tables@[i].cols,
        ensures
            !table_named(tables@, ascii_upper(name@)) ==> (r matches Err(
                RuntimeError::TableNotFound(n),
            ) && n@ == name@),
            table_named(tables@, ascii_upper(name@)) ==> {
                let t = tables@[table_index(tables@, ascii_upper(name@))];
                if new_rows == t.rows && new_cols == t.cols && added_columns@.len() == 0
                    && removed_columns@.len() == 0 {
                    r matches Ok(None)
                } else {
                    match resize_table_rule(
                        t,
                        new_rows,
                        new_cols,
                        texts(column_displays@),
                        texts(added_columns@),
                        texts(removed_columns@),
                        bounds,
                        tables@,
                        spill_anchors@,
                    ) {
                        Some(rule) => r matches Err(
                            RuntimeError::TableResizeRejected { name: n, reason },
                        ) && n@ == name@ && reason == rule,
                        None => r matches Ok(Some(z)) && z.keep_columns == t.cols
                            - removed_columns@.len(),
                    }
                }
            },
            !(r matches Ok(Some(_))) ==> final(self).recorded() == old(self).recorded(),
            r matches Ok(Some(z)) ==> {
                &&& z.name@ == ascii_upper(name@)
                &&& z.new_rows == new_rows && z.new_cols == new_cols
                &&& z.added@.len() == added_columns@.len()
                &&& forall|i: int|
                    0 <= i < added_columns@.len() ==> z.added@[i].name@ == ascii_lower(
                        added_columns@[i]@,
                    ) && z.added@[i].display@ == added_columns@[i]@
                &&& logged(
                    old(self).recorded(),
                    final(self).recorded(),
                    seq![
                        Op::ResizeTable {
                            name: z.name,
                            new_rows,
                            new_cols,
                            added_columns,
                            removed_columns,
                        },
                    ],
                )
            },
            final(self).has_graph() == old(self).has_graph(),
    {
        let canonical = to_upper(name);
        let idx = match find_table(tables, &canonical) {
            Some(i) => i,
            None => {
                return Err(RuntimeError::TableNotFound(name.to_owned()));
            },
        };
        let t = &tables[idx];
        let ghost tv = tables@[idx as int];
        assert(tv.name@ == ascii_upper(name@));
        let old_rows = t.rows;
        let old_cols = t.cols;
        if new_rows == old_rows && new_cols == old_cols && added_columns.len() == 0
            && removed_columns.len() == 0 {
            return Ok(None);
        }
        let ghost rule = resize_table_rule(
            tv,
            new_rows,
            new_cols,
            texts(column_displays@),
            texts(added_columns@),
            texts(removed_columns@),
            bounds,
            tables@,
            spill_anchors@,
        );
        let reject = check_resize(
            t,
            new_rows,
            new_cols,
            &added_columns,
            &removed_columns,
            bounds,
            tables,
            column_displays,
            spill_anchors,
        );
        assert(reject == rule);
        if let Some(reason) = reject {
            return Err(RuntimeError::TableResizeRejected { name: name.to_owned(), reason });
        }
        let keep = (old_cols as usize - removed_columns.len()) as u32;
        let mut added: Vec<NewColumn> = Vec::new();
        let mut i: usize = 0;
        while i < added_columns.len()
            invariant
                0 <= i <= added_columns.len(),
                added@.len() == i,
                forall|k: int|
                    0 <= k < i ==> added@[k].name@ == ascii_lower(added_columns@[k]@)
                        && added@[k].display@ == added_columns@[k]@,
            decreases added_columns.len() - i,
        {
            let cn = added_columns[i].as_str();
            added.push(NewColumn { name: to_lower(cn), display: cn.to_owned() });
            i += 1;
        }
        self.record(
            Op::ResizeTable {
                name: canonical.clone(),
                new_rows,
                new_cols,
                added_columns,
                removed_columns,
            },
        );
        Ok(Some(TableResize { name: canonical, new_rows, new_cols, keep_columns: keep, added }))
    }
}

/// Some table on `sheet` covers cell `(r, c)`.
pub open spec fn covered_by_table(tables: Seq<TableFootprint>, sheet: SheetId, r: int, c: int) -> bool {
    exists|i: int|
        0 <= i < tables.len() && tables[i].sheet == sheet && in_rect(
            r,
            c,
            tables[i].top_row as int,
            tables[i].top_col as int,
            tables[i].rows as int,
            tables[i].cols as int,
        )
}

/// Creating a table is refused whenever some cell of its rectangle, the
/// top-left cell included, lies in an existing table on its sheet or is a
/// spill anchor there.
pub proof fn lemma_create_table_refuses_blocked_cells(
    name: Seq<char>,
    sheet: SheetId,
    top_row: RowId,
    top_col: ColId,
    rows: u32,
    cols: u32,
    column_names: Seq<Seq<char>>,
    bounds: Result<(), String>,
    defined_name_exists: bool,
    tables: Seq<TableFootprint>,
    anchors: Seq<CellAddr>,
    r: int,
    c: int,
)
    requires
        in_rect(r, c, top_row as int, top_col as int, rows as int, cols as int),
        covered_by_table(tables, sheet, r, c) || anchor_at(anchors, sheet, r, c),
    ensures
        create_table_rule(
            name,
            Claim {
                sheet,
                top_row,
                top_col,
                new_rows: rows,
                new_cols: cols,
                old_rows: 0,
                old_cols: 0,
            },
            column_names,
            bounds,
            defined_name_exists,
            tables,
            anchors,
        ) is Some,
{
    let claim = Claim {
        sheet,
        top_row,
        top_col,
        new_rows: rows,
        new_cols: cols,
        old_rows: 0,
        old_cols: 0,
    };
    assert(claim.claims(r, c));
    if covered_by_table(tables, sheet, r, c) {
        let i = choose|i: int|
            0 <= i < tables.len() && tables[i].sheet == sheet && in_rect(
                r,
                c,
                tables[i].top_row as int,
                tables[i].top_col as int,
                tables[i].rows as int,
                tables[i].cols as int,
            );
        assert(blocks(tables[i], sheet, None));
        assert(table_at(tables, sheet, None, r, c));
        assert(claim.table_hit(tables, None, r, c));
    } else {
        assert(claim.anchor_hit(anchors, r, c));
    }
    assert(claim.any_hit(tables, None, anchors));
}

/// Creating a table whose rectangle holds no table cell and no spill anchor
/// is accepted once its name and columns pass.
pub proof fn lemma_create_table_accepts_free_rectangle(
    name: Seq<char>,
    sheet: SheetId,
    top_row: RowId,
    top_col: ColId,
    rows: u32,
    cols: u32,
    column_names: Seq<Seq<char>>,
    defined_name_exists: bool,
    tables: Seq<TableFootprint>,
    anchors: Seq<CellAddr>,
)
    requires
        rows > 0,
        cols > 0,
        column_names.len() == cols,
        forall|i: int| 0 <= i < column_names.len() ==> column_names[i].len() > 0,
        forall|i: int, j: int|
            0 <= i < j < column_names.len() ==> ascii_lower(column_names[i]) != ascii_lower(
                column_names[j],
            ),
        forall|i: int| 0 <= i < tables.len() ==> tables[i].name@ != ascii_upper(name),
        !defined_name_exists,
        forall|r: int, c: int|
            in_rect(r, c, top_row as int, top_col as int, rows as int, cols as int) ==> !(
            covered_by_table(tables, sheet, r, c) || anchor_at(anchors, sheet, r, c)),
    ensures
        create_table_rule(
            name,
            Claim {
                sheet,
                top_row,
                top_col,
                new_rows: rows,
                new_cols: cols,
                old_rows: 0,
                old_cols: 0,
            },
            column_names,
            Ok(()),
            defined_name_exists,
            tables,
            anchors,
        ) is None,
{
    let claim = Claim {
        sheet,
        top_row,
        top_col,
        new_rows: rows,
        new_cols: cols,
        old_rows: 0,
        old_cols: 0,
    };
    assert forall|r: int, c: int|
        #![trigger claim.table_hit(tables, None, r, c)]
        #![trigger claim.anchor_hit(anchors, r, c)]
        !claim.table_hit(tables, None, r, c) && !claim.anchor_hit(anchors, r, c) by {
        if claim.claims(r, c) {
            assert(in_rect(r, c, top_row as int, top_col as int, rows as int, cols as int));
            assert(!(covered_by_table(tables, sheet, r, c) || anchor_at(anchors, sheet, r, c)));
        }
        if claim.table_hit(tables, None, r, c) {
            let i = choose|i: int|
                0 <= i < tables.len() && blocks(tables[i], sheet, None) && in_rect(
                    r,
                    c,
                    tables[i].top_row as int,
                    tables[i].top_col as int,
                    tables[i].rows as int,
                    tables[i].cols as int,
                );
            assert(covered_by_table(tables, sheet, r, c));
        }
    }
    assert(!claim.any_hit(tables, None, anchors));
    assert(!claim.table_first(tables, None, anchors));
}

/// Removing exactly the last `k` columns, listed left to right (each
/// matching its column's display ignoring ASCII case), is never refused as
/// not trailing; removing any other columns is, once the earlier rules pass.
pub proof fn lemma_resize_trailing_columns(
    t: TableFootprint,
    new_rows: u32,
    new_cols: u32,
    displays: Seq<Seq<char>>,
    added: Seq<Seq<char>>,
    removed: Seq<Seq<char>>,
    bounds: Result<(), String>,
    tables: Seq<TableFootprint>,
    anchors: Seq<CellAddr>,
)
    requires
        removed.len() <= displays.len(),
    ensures
        (forall|i: int|
            0 <= i < removed.len() ==> eq_ci(displays[displays.len() - removed.len() + i], removed[i]))
            ==> resize_table_rule(
            t,
            new_rows,
            new_cols,
            displays,
            added,
            removed,
            bounds,
            tables,
            anchors,
        ) != Some(TableRule::RemovedColumnsNotTrailing),
        (exists|i: int|
            0 <= i < removed.len() && !eq_ci(displays[displays.len() - removed.len() + i], removed[i]))
            && new_rows > 0 && new_cols > 0 && bounds is Ok && removed.len() <= t.cols && new_cols
            == t.cols + added.len() - removed.len() ==> resize_table_rule(
            t,
            new_rows,
            new_cols,
            displays,
            added,
            removed,
            bounds,
            tables,
            anchors,
        ) == Some(TableRule::RemovedColumnsNotTrailing),
{
}

/// The op that stores a changed formula's new text.
pub open spec fn put_op(rw: FormulaRewrite) -> Op {
    Op::PutFormula { sheet: rw.sheet, row: rw.row, col: rw.col, text: rw.new_text->Some_0 }
}

/// A rename's formula rewrites record exactly the changed formulas: one
/// `PutFormula` per rewrite with a new text, carrying that rewrite's cell and
/// text, in the order given; unchanged formulas record nothing.
pub proof fn lemma_rewrites_record_every_changed_formula(rw: Seq<FormulaRewrite>)
    ensures
        rewrite_ops(rw) == rw.filter(|x: FormulaRewrite| x.new_text is Some).map_values(
            |x: FormulaRewrite| put_op(x),
        ),
        forall|i: int|
            0 <= i < rw.len() && rw[i].new_text is Some ==> #[trigger] rewrite_ops(rw).contains(
                put_op(rw[i]),
            ),
        rewrite_ops(rw).len() <= rw.len(),
    decreases rw.len(),
{
    reveal(Seq::filter);
    let pred = |x: FormulaRewrite| x.new_text is Some;
    let op = |x: FormulaRewrite| put_op(x);
    if rw.len() > 0 {
        lemma_rewrites_record_every_changed_formula(rw.drop_last());
        let sub = rw.drop_last().filter(pred);
        if pred(rw.last()) {
            assert(rw.filter(pred) == sub.push(rw.last()));
            assert(sub.push(rw.last()).map_values(op) =~= sub.map_values(op).push(put_op(rw.last())));
        } else {
            assert(rw.filter(pred) == sub);
        }
    } else {
        assert(rw.filter(pred) =~= Seq::<FormulaRewrite>::empty());
        assert(rewrite_ops(rw) =~= Seq::<Op>::empty());
    }
    let f = rw.filter(pred);
    rw.lemma_filter_len(pred);
    assert forall|i: int|
        0 <= i < rw.len() && rw[i].new_text is Some implies #[trigger] rewrite_ops(rw).contains(
            put_op(rw[i]),
        ) by {
        rw.lemma_filter_contains(pred, i);
        let j = choose|j: int| 0 <= j < f.len() && f[j] == rw[i];
        assert(f.map_values(op)[j] == put_op(rw[i]));
    }
}

/// Growing a table is refused whenever some cell it newly claims (inside the
/// new size, outside the old one) lies in another table on its sheet or is a
/// spill anchor there.
pub proof fn lemma_resize_refuses_blocked_cells(
    t: TableFootprint,
    new_rows: u32,
    new_cols: u32,
    displays: Seq<Seq<char>>,
    added: Seq<Seq<char>>,
    removed: Seq<Seq<char>>,
    bounds: Result<(), String>,
    tables: Seq<TableFootprint>,
    anchors: Seq<CellAddr>,
    r: int,
    c: int,
)
    requires
        in_rect(r, c, t.top_row as int, t.top_col as int, new_rows as int, new_cols as int),
        !in_rect(r, c, t.top_row as int, t.top_col as int, t.rows as int, t.cols as int),
        (exists|i: int|
            0 <= i < tables.len() && tables[i].sheet == t.sheet && !eq_ci(tables[i].name@, t.name@)
                && in_rect(
                r,
                c,
                tables[i].top_row as int,
                tables[i].top_col as int,
                tables[i].rows as int,
                tables[i].cols as int,
            )) || anchor_at(anchors, t.sheet, r, c),
    ensures
        resize_table_rule(t, new_rows, new_cols, displays, added, removed, bounds, tables, anchors)
            is Some,
{
    let claim = Claim {
        sheet: t.sheet,
        top_row: t.top_row,
        top_col: t.top_col,
        new_rows,
        new_cols,
        old_rows: t.rows,
        old_cols: t.cols,
    };
    assert(claim.claims(r, c));
    if anchor_at(anchors, t.sheet, r, c) {
        assert(claim.anchor_hit(anchors, r, c));
    } else {
        let i = choose|i: int|
            0 <= i < tables.len() && tables[i].sheet == t.sheet && !eq_ci(tables[i].name@, t.name@)
                && in_rect(
                r,
                c,
                tables[i].top_row as int,
                tables[i].top_col as int,
                tables[i].rows as int,
                tables[i].cols as int,
            );
        assert(blocks(tables[i], t.sheet, Some(t.name@)));
        assert(table_at(tables, t.sheet, Some(t.name@), r, c));
        assert(claim.table_hit(tables, Some(t.name@), r, c));
    }
    assert(claim.any_hit(tables, Some(t.name@), anchors));
}

/// Creating a table is refused when its footprint is empty, the storage
/// bound check refuses it, the column count is wrong, some column name is
/// empty, two column names are equal ignoring ASCII case, a table already has
/// its upper-case name, or a defined name has it.
pub proof fn lemma_create_table_refusals(
    name: Seq<char>,
    claim: Claim,
    column_names: Seq<Seq<char>>,
    bounds: Result<(), String>,
    defined_name_exists: bool,
    tables: Seq<TableFootprint>,
    anchors: Seq<CellAddr>,
)
    ensures
        claim.new_rows == 0 || claim.new_cols == 0 ==> create_table_rule(
            name,
            claim,
            column_names,
            bounds,
            defined_name_exists,
            tables,
            anchors,
        ) == Some(TableRule::EmptyFootprint),
        (bounds is Err || column_names.len() != claim.new_cols || defined_name_exists || (exists|
            i: int,
        | 0 <= i < column_names.len() && column_names[i].len() == 0) || (exists|i: int, j: int|
            0 <= i < j < column_names.len() && ascii_lower(column_names[i]) == ascii_lower(
                column_names[j],
            )) || (exists|i: int| 0 <= i < tables.len() && tables[i].name@ == ascii_upper(name)))
            ==> create_table_rule(
            name,
            claim,
            column_names,
            bounds,
            defined_name_exists,
            tables,
            anchors,
        ) is Some,
{
}

/// Resizing a table is refused when its new footprint is empty, the storage
/// bound check refuses it, it removes more columns than the table has, the
/// column arithmetic is off, an added column name is empty, or an added name
/// equals (ignoring ASCII case) another added name or a kept column's name.
pub proof fn lemma_resize_table_refusals(
    t: TableFootprint,
    new_rows: u32,
    new_cols: u32,
    displays: Seq<Seq<char>>,
    added: Seq<Seq<char>>,
    removed: Seq<Seq<char>>,
    bounds: Result<(), String>,
    tables: Seq<TableFootprint>,
    anchors: Seq<CellAddr>,
)
    requires
        displays.len() == t.cols,
    ensures
        (new_rows == 0 || new_cols == 0 || bounds is Err || removed.len() > t.cols || (removed.len()
            <= t.cols && new_cols != t.cols + added.len() - removed.len()) || (exists|i: int|
            0 <= i < added.len() && added[i].len() == 0) || (removed.len() <= t.cols && exists|
            i: int,
            j: int,
        |
            0 <= i < j < added.len() && ascii_lower(added[i]) == ascii_lower(added[j])) || (
        removed.len() <= t.cols && exists|i: int, j: int|
            0 <= i < t.cols - removed.len() && 0 <= j < added.len() && ascii_lower(displays[i])
                == ascii_lower(added[j]))) ==> resize_table_rule(
            t,
            new_rows,
            new_cols,
            displays,
            added,
            removed,
            bounds,
            tables,
            anchors,
        ) is Some,
{
    let keep = t.cols - removed.len();
    if removed.len() <= t.cols {
        let roster = displays.take(keep) + added;
        if exists|i: int, j: int|
            0 <= i < j < added.len() && ascii_lower(added[i]) == ascii_lower(added[j]) {
            let (i, j) = choose|i: int, j: int|
                0 <= i < j < added.len() && ascii_lower(added[i]) == ascii_lower(added[j]);
            assert(roster[keep + i] == added[i] && roster[keep + j] == added[j]);
            assert(!distinct_ci(roster));
        }
        if exists|i: int, j: int|
            0 <= i < t.cols - removed.len() && 0 <= j < added.len() && ascii_lower(displays[i])
                == ascii_lower(added[j]) {
            let (i, j) = choose|i: int, j: int|
                0 <= i < t.cols - removed.len() && 0 <= j < added.len() && ascii_lower(displays[i])
                    == ascii_lower(added[j]);
            assert(roster[i] == displays[i] && roster[keep + j] == added[j]);
            assert(!distinct_ci(roster));
        }
    }
}

} // verus!
