use ql_exec::dirty::DirtyRecompute;
use ql_exec::error::{BindError, RecomputeFailure, RecomputeResult, RuntimeError};
use ql_exec::order::evaluation_order;
use ql_exec::recompute::{
    footprint_readers, hit_iteration_cap, keeps_saved_value, maps_to_name_error, needs_eval, plan_anchor, push_spill_body, skips_error_write,
    skips_write, DepState, DepSummary, FullRecompute, SpillShape, MAX_DIRTY_ITERATIONS,
};
use ql_exec::xlsx_recompute::EngineXlsxRecomputer;

fn shape(rows: u32, cols: u32) -> Option<SpillShape> {
    Some(SpillShape { rows, cols })
}

fn dep(dirty: bool, changed: bool, spill_anchor: bool) -> DepState {
    DepState { dirty, changed, spill_anchor }
}

#[test]
fn table_sheet_and_name_bind_failures_become_name_errors() {
    assert!(maps_to_name_error(&RuntimeError::Bind(BindError::UnknownTable("T".to_owned()))));
    assert!(maps_to_name_error(&RuntimeError::Bind(BindError::UnknownTableColumn {
        table: "T".to_owned(),
        column: "C".to_owned()
    })));
    assert!(maps_to_name_error(&RuntimeError::Bind(BindError::UnknownSheet("S".to_owned()))));
    assert!(maps_to_name_error(&RuntimeError::Bind(BindError::UnresolvedName("N".to_owned()))));
    assert!(!maps_to_name_error(&RuntimeError::Bind(BindError::Other("arity".to_owned()))));
    assert!(!maps_to_name_error(&RuntimeError::Parse("unexpected )".to_owned())));
}

#[test]
fn spill_body_is_listed_row_major_without_the_anchor() {
    let mut out = vec![(9, 9, 9)];
    push_spill_body(&mut out, 0, 1, 1, SpillShape { rows: 2, cols: 2 });
    assert_eq!(out, vec![(9, 9, 9), (0, 1, 2), (0, 2, 1), (0, 2, 2)]);
    let mut single = Vec::new();
    push_spill_body(&mut single, 0, 4, 4, SpillShape { rows: 1, cols: 1 });
    assert!(single.is_empty());
}

#[test]
fn value_equality_decision() {
    assert!(needs_eval(true, Some(&DepSummary { has_range_deps: false, cells: vec![dep(true, false, false)] })));
    assert!(needs_eval(false, None));
    assert!(needs_eval(false, Some(&DepSummary { has_range_deps: true, cells: vec![dep(true, false, false)] })));
    // Dirtied by an outside edit: no dirty dependency.
    assert!(needs_eval(false, Some(&DepSummary { has_range_deps: false, cells: vec![dep(false, false, false)] })));
    // A dirty dependency whose value changed.
    assert!(needs_eval(false, Some(&DepSummary {
        has_range_deps: false,
        cells: vec![dep(true, false, false), dep(true, true, false)]
    })));
    // A dirty dependency that anchors a spill.
    assert!(needs_eval(false, Some(&DepSummary { has_range_deps: false, cells: vec![dep(true, false, true)] })));
    // Every dependency was dirty and none changed: skip.
    assert!(!needs_eval(false, Some(&DepSummary {
        has_range_deps: false,
        cells: vec![dep(true, false, false), dep(false, true, true), dep(true, false, false)]
    })));
}

#[test]
fn write_skips() {
    assert!(skips_write(true, false, false));
    assert!(skips_write(true, true, true));
    assert!(!skips_write(true, true, false));
    assert!(!skips_write(false, false, false));
    assert!(skips_error_write(true, false));
    assert!(!skips_error_write(true, true));
    assert!(!skips_error_write(false, false));
}

#[test]
fn iteration_cap_needs_every_iteration_and_dirty_cells() {
    assert_eq!(MAX_DIRTY_ITERATIONS, 100);
    assert!(hit_iteration_cap(100, 1));
    assert!(!hit_iteration_cap(100, 0));
    assert!(!hit_iteration_cap(99, 5));
}

#[test]
fn plans_are_keyed_by_cell_only_with_implicit_intersection() {
    assert_eq!(plan_anchor("=Sales[@Amount]*2", 4, 7), Some((4, 7)));
    assert_eq!(plan_anchor("=@A1:A10", 0, 0), Some((0, 0)));
    assert_eq!(plan_anchor("=SUM(A1:A10)", 4, 7), None);
}

#[test]
fn evaluation_order_puts_scheduled_cells_first() {
    let entries = vec![(0, 5, 0), (0, 1, 0), (0, 3, 0), (1, 0, 0)];
    let schedule = vec![(0, 3, 0), (0, 5, 0), (0, 3, 0)];
    assert_eq!(evaluation_order(&entries, &schedule), vec![2, 0, 1, 3]);
    assert_eq!(evaluation_order(&entries, &vec![]), vec![1, 2, 0, 3]);
    assert!(evaluation_order(&vec![], &schedule).is_empty());
}

#[test]
fn full_recompute_without_spills_is_one_pass() {
    let mut d = FullRecompute::new(vec![(0, 0, 1), (0, 1, 1)], vec![]);
    assert!(!d.evaluated((0, 0, 1), true, None, None, false));
    assert!(!d.evaluated((0, 1, 1), false, None, None, false));
    assert!(!d.end_pass());
    assert!(d.is_finished());
    let r = d.into_result();
    assert_eq!((r.attempted, r.succeeded, r.skipped_value_equality, r.simd_classified), (2, 2, 0, 0));
    assert!(r.is_complete());
    assert_eq!(r.changed_cells, vec![(0, 0, 1), (0, 1, 1)]);
}

#[test]
fn full_recompute_reruns_after_a_new_spill_then_settles() {
    let mut d = FullRecompute::new(vec![(0, 0, 0)], vec![(0, 9, 9)]);
    assert!(d.evaluated((0, 0, 0), false, None, shape(2, 1), false));
    assert!(d.end_pass());
    assert!(!d.is_finished());
    assert!(!d.evaluated((0, 0, 0), false, shape(2, 1), shape(2, 1), false));
    assert!(!d.end_pass());
    let r = d.into_result();
    assert_eq!(r.succeeded, 1);
    assert_eq!(
        r.changed_cells,
        vec![(0, 9, 9), (0, 0, 0), (0, 1, 0), (0, 0, 0), (0, 1, 0), (0, 1, 0)]
    );
}

#[test]
fn full_recompute_failures_and_cycles() {
    let mut d = FullRecompute::new(vec![(0, 0, 0), (0, 1, 0), (0, 2, 0)], vec![]);
    d.cycled((0, 0, 0));
    assert!(d.failed(
        (0, 1, 0),
        "=Gone[Amount]".to_owned(),
        RuntimeError::Bind(BindError::UnknownTable("Gone".to_owned())),
        false,
        shape(1, 2),
    ));
    assert!(!d.failed((0, 2, 0), "=F(".to_owned(), RuntimeError::Parse("eof".to_owned()), false, None));
    // A dissolved spill involves a spill and moves a value: one more pass.
    assert!(d.end_pass());
    d.cycled((0, 0, 0));
    assert!(d.failed(
        (0, 1, 0),
        "=Gone[Amount]".to_owned(),
        RuntimeError::Bind(BindError::UnknownTable("Gone".to_owned())),
        true,
        None,
    ));
    assert!(!d.failed((0, 2, 0), "=F(".to_owned(), RuntimeError::Parse("eof".to_owned()), false, None));
    assert!(!d.end_pass());
    let r = d.into_result();
    assert_eq!(r.succeeded, 1);
    assert_eq!(r.failed_count(), 1);
    assert!(!r.is_complete());
    assert_eq!((r.failures[0].sheet, r.failures[0].row, r.failures[0].col), (0, 2, 0));
    assert_eq!(r.failures[0].formula_text, "=F(");
    assert_eq!(r.failures[0].error, RuntimeError::Parse("eof".to_owned()));
    assert_eq!(
        r.changed_cells,
        vec![(0, 0, 0), (0, 1, 0), (0, 1, 1), (0, 2, 0), (0, 0, 0), (0, 1, 0), (0, 2, 0)]
    );
}

#[test]
fn dirty_recompute_counts_each_outcome() {
    let mut d = DirtyRecompute::new();
    assert!(d.begin_iteration(4));
    let (write, body) = d.cycled((0, 0, 0), true, None);
    assert!(!write);
    assert!(body.is_empty());
    let (write, affected) = d.evaluated((0, 1, 0), true, None, None, true);
    assert!(!write);
    assert!(affected.is_empty());
    d.skip_unchanged();
    let mapped = d.failed(
        (0, 2, 0),
        "=Rate*2".to_owned(),
        RuntimeError::Bind(BindError::UnresolvedName("RATE".to_owned())),
        false,
        None,
    );
    assert_eq!(mapped, Some((true, vec![])));
    assert!(!d.begin_iteration(0));
    assert!(d.is_finished());
    let r = d.finish(0);
    assert_eq!((r.attempted, r.succeeded, r.skipped_value_equality, r.simd_classified), (4, 2, 3, 1));
    assert!(r.is_complete());
    assert_eq!(r.changed_cells, vec![(0, 2, 0)]);
}

#[test]
fn dirty_recompute_reports_structural_failures() {
    let mut d = DirtyRecompute::new();
    assert!(d.begin_iteration(1));
    let err = RuntimeError::Bind(BindError::Other("wrong arity".to_owned()));
    assert_eq!(d.failed((1, 3, 4), "=IF(1)".to_owned(), err.clone(), false, shape(2, 2)), None);
    let r = d.finish(0);
    assert_eq!(r.failed_count(), 1);
    assert_eq!((r.failures[0].sheet, r.failures[0].row, r.failures[0].col), (1, 3, 4));
    assert_eq!(r.failures[0].formula_text, "=IF(1)");
    assert_eq!(r.failures[0].error, err);
    assert!(r.changed_cells.is_empty());
}

#[test]
fn dirty_recompute_forces_the_write_when_a_spill_dissolves() {
    let mut d = DirtyRecompute::new();
    assert!(d.begin_iteration(2));
    let (write, affected) = d.evaluated((0, 0, 0), true, shape(2, 2), None, false);
    assert!(write);
    assert_eq!(affected, vec![(0, 0, 1), (0, 1, 0), (0, 1, 1)]);
    let (write, body) = d.cycled((0, 5, 5), true, shape(1, 2));
    assert!(write);
    assert_eq!(body, vec![(0, 5, 6)]);
    let r = d.finish(0);
    let mut changed = r.changed_cells.clone();
    changed.sort();
    assert_eq!(changed, vec![(0, 0, 0), (0, 0, 1), (0, 1, 0), (0, 1, 1), (0, 5, 5), (0, 5, 6)]);
}

#[test]
fn dirty_recompute_lists_each_changed_cell_once() {
    let mut d = DirtyRecompute::new();
    assert!(d.begin_iteration(1));
    let (_, affected) = d.evaluated((0, 0, 0), false, shape(2, 1), shape(3, 1), false);
    assert_eq!(affected, vec![(0, 1, 0), (0, 2, 0)]);
    assert!(d.begin_iteration(1));
    d.evaluated((0, 0, 0), false, shape(3, 1), shape(3, 1), false);
    assert!(d.was_changed((0, 2, 0)));
    assert!(!d.was_changed((0, 3, 0)));
    let r = d.finish(0);
    let mut changed = r.changed_cells.clone();
    changed.sort();
    assert_eq!(changed, vec![(0, 0, 0), (0, 1, 0), (0, 2, 0)]);
    assert_eq!(r.succeeded, 2);
}

#[test]
fn dirty_recompute_reports_the_iteration_cap() {
    let mut d = DirtyRecompute::new();
    let mut iterations = 0;
    while !d.is_finished() {
        assert!(d.begin_iteration(1));
        d.skip_unchanged();
        iterations += 1;
    }
    assert_eq!(iterations, 100);
    let r = d.finish(5);
    assert_eq!(r.attempted, 100);
    assert_eq!(r.failed_count(), 1);
    let f = &r.failures[0];
    assert_eq!((f.sheet, f.row, f.col), (0, 0, 0));
    assert_eq!(f.error, RuntimeError::RecomputeIterationCap);
    assert_eq!(
        f.formula_text,
        "recompute_dirty hit MAX_ITERATIONS=100 with 5 cells still dirty — possible runaway spill shape transition or workbook misconfiguration"
    );
}

#[test]
fn dirty_recompute_at_the_cap_without_dirty_cells_is_complete() {
    let mut d = DirtyRecompute::new();
    while !d.is_finished() {
        d.begin_iteration(1);
        d.pass_over();
    }
    let r = d.finish(0);
    assert!(r.is_complete());
    let mut d = DirtyRecompute::new();
    for _ in 0..99 {
        d.begin_iteration(1);
        d.skip_unchanged();
    }
    assert!(!d.is_finished());
}

#[test]
fn import_failures_report_every_structural_failure() {
    let err = RuntimeError::Bind(BindError::UnknownSheet("Old".to_owned()));
    let result = RecomputeResult {
        attempted: 3,
        succeeded: 2,
        failures: vec![RecomputeFailure { sheet: 0, row: 7, col: 2, formula_text: "=Old!A1".to_owned(), error: err.clone() }],
        skipped_value_equality: 0,
        simd_classified: 0,
        changed_cells: vec![],
    };
    let report = EngineXlsxRecomputer::default().import_failures(&result);
    assert_eq!(report.len(), 1);
    assert_eq!((report[0].sheet, report[0].row, report[0].col), (0, 7, 2));
    assert_eq!(report[0].formula, "=Old!A1");
    assert_eq!(report[0].reason, format!("{:?}", err));
    assert_eq!(report[0].reason, "Bind(UnknownSheet(\"Old\"))");
}

#[test]
fn a_failed_formula_makes_the_result_incomplete() {
    let mut d = FullRecompute::new(vec![(0, 0, 1), (0, 0, 2)], vec![]);
    assert!(!d.evaluated((0, 0, 1), true, None, None, false));
    assert!(!d.failed((0, 0, 2), "(((".to_owned(), RuntimeError::Parse("unexpected end".to_owned()), false, None));
    assert!(!d.end_pass());
    let r = d.into_result();
    assert!(!r.is_complete());
    assert_eq!(r.failed_count(), 1);
    assert_eq!(r.succeeded, 1);
    assert_eq!(r.attempted, 2);
}

#[test]
fn readers_of_a_reshaped_spill_are_listed_once_without_the_anchor() {
    let anchor = (0, 0, 0);
    let readers = vec![
        (7, Some((0, 5, 5))),
        (3, Some(anchor)),
        (9, None),
        (7, Some((0, 5, 5))),
        (4, Some((1, 0, 0))),
    ];
    assert_eq!(footprint_readers(anchor, &readers), vec![7, 4]);
    assert!(footprint_readers(anchor, &vec![]).is_empty());
}

#[test]
fn saved_udf_values_are_kept_only_on_load_without_a_worker() {
    assert!(keeps_saved_value(true, false, true));
    assert!(!keeps_saved_value(false, false, true));
    assert!(!keeps_saved_value(true, true, true));
    assert!(!keeps_saved_value(true, false, false));
}
