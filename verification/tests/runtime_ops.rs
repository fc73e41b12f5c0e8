use ql_exec::config::{Locale, ReferenceMode};
use ql_exec::error::RuntimeError;
use ql_exec::formats::{nudge_base, nudge_outcome, FormatId};
use ql_exec::ops::{ChartSpec, Op};
use ql_exec::runtime::WorkbookRuntime;
use ql_exec::styles::StyleId;

fn chart(name: &str) -> ChartSpec {
    ChartSpec {
        name: name.to_owned(),
        chart_type: "bar".to_owned(),
        sheet: 0,
        anchor_row: 2,
        anchor_col: 3,
        width_px: 400,
        height_px: 300,
        src_sheet: 0,
        src_start_row: 0,
        src_start_col: 0,
        src_end_row: 9,
        src_end_col: 1,
        title: Some("Sales".to_owned()),
    }
}

#[test]
fn constructors_attach_what_they_name() {
    let rt = WorkbookRuntime::new();
    assert!(!rt.oplog_attached());
    assert!(!rt.graph_attached());
    let rt = WorkbookRuntime::with_oplog();
    assert!(rt.oplog_attached());
    assert!(!rt.graph_attached());
    let rt = WorkbookRuntime::with_graph();
    assert!(!rt.oplog_attached());
    assert!(rt.graph_attached());
    let rt = WorkbookRuntime::with_oplog_and_graph();
    assert!(rt.oplog_attached());
    assert!(rt.graph_attached());
}

#[test]
fn runtime_without_oplog_records_nothing() {
    let mut rt = WorkbookRuntime::new();
    assert_eq!(rt.add_chart(7, chart("c")), 7);
    assert_eq!(rt.set_locale(Locale::EnUs, Locale::De), Some(Locale::De));
    assert!(rt.take_recorded().is_empty());
    assert!(!rt.oplog_attached());
}

#[test]
fn take_recorded_drains_the_log_in_order() {
    let mut rt = WorkbookRuntime::with_oplog();
    rt.add_chart(1, chart("a"));
    rt.remove_chart(1, true).unwrap();
    let ops = rt.take_recorded();
    assert_eq!(ops, vec![Op::AddChart { id: 1, chart: chart("a") }, Op::RemoveChart { id: 1 }]);
    assert!(rt.take_recorded().is_empty());
    assert!(rt.oplog_attached());
}

#[test]
fn setting_the_current_reference_mode_is_a_no_op() {
    let mut rt = WorkbookRuntime::with_oplog();
    assert_eq!(rt.set_reference_mode(ReferenceMode::A1, ReferenceMode::A1), None);
    assert!(rt.take_recorded().is_empty());
    assert_eq!(rt.set_reference_mode(ReferenceMode::A1, ReferenceMode::R1C1), Some(ReferenceMode::R1C1));
    assert_eq!(rt.take_recorded(), vec![Op::SetReferenceMode { mode: ReferenceMode::R1C1 }]);
}

#[test]
fn setting_the_current_locale_is_a_no_op() {
    let mut rt = WorkbookRuntime::with_oplog();
    assert_eq!(rt.set_locale(Locale::Fr, Locale::Fr), None);
    assert!(rt.take_recorded().is_empty());
    assert_eq!(rt.set_locale(Locale::Fr, Locale::EnUs), Some(Locale::EnUs));
    assert_eq!(rt.take_recorded(), vec![Op::SetLocale { locale: Locale::EnUs }]);
}

#[test]
fn chart_update_and_remove_refuse_unknown_ids() {
    let mut rt = WorkbookRuntime::with_oplog();
    assert_eq!(rt.update_chart(9, chart("x"), false), Err(RuntimeError::ChartNotFound(9)));
    assert_eq!(rt.remove_chart(9, false), Err(RuntimeError::ChartNotFound(9)));
    assert!(rt.take_recorded().is_empty());
    assert_eq!(rt.update_chart(9, chart("y"), true), Ok(()));
    assert_eq!(rt.take_recorded(), vec![Op::UpdateChart { id: 9, chart: chart("y") }]);
}

#[test]
fn set_name_upper_cases_and_records() {
    let mut rt = WorkbookRuntime::with_oplog();
    assert_eq!(rt.set_name("tax_rate", Ok(())), Ok("TAX_RATE".to_owned()));
    assert_eq!(rt.take_recorded(), vec![Op::SetName { scope: None, name: "TAX_RATE".to_owned() }]);
}

#[test]
fn set_name_refused_by_the_name_table_records_nothing() {
    let mut rt = WorkbookRuntime::with_oplog();
    assert_eq!(
        rt.set_name("A1", Err("looks like a cell reference".to_owned())),
        Err(RuntimeError::Name("looks like a cell reference".to_owned()))
    );
    assert!(rt.take_recorded().is_empty());
}

#[test]
fn sheet_scoped_name_checks_the_sheet_first() {
    let mut rt = WorkbookRuntime::with_oplog();
    assert_eq!(
        rt.set_sheet_scoped_name(3, "x", 2, Err("bad".to_owned())),
        Err(RuntimeError::InvalidSheet { sheet: 3, sheet_count: 2 })
    );
    assert_eq!(rt.set_sheet_scoped_name(1, "Local", 2, Ok(())), Ok("LOCAL".to_owned()));
    assert_eq!(rt.take_recorded(), vec![Op::SetName { scope: Some(1), name: "LOCAL".to_owned() }]);
}

#[test]
fn delete_name_reports_the_canonical_missing_name() {
    let mut rt = WorkbookRuntime::with_oplog();
    assert_eq!(
        rt.delete_name("gone", false),
        Err(RuntimeError::NameNotFound { name: "GONE".to_owned(), scope: None })
    );
    assert_eq!(rt.delete_name("rate", true), Ok("RATE".to_owned()));
    assert_eq!(rt.take_recorded(), vec![Op::RemoveName { scope: None, name: "RATE".to_owned() }]);
}

#[test]
fn delete_sheet_scoped_name_errors() {
    let mut rt = WorkbookRuntime::with_oplog();
    assert_eq!(
        rt.delete_sheet_scoped_name(5, "x", 1, true),
        Err(RuntimeError::InvalidSheet { sheet: 5, sheet_count: 1 })
    );
    assert_eq!(
        rt.delete_sheet_scoped_name(0, "x", 1, false),
        Err(RuntimeError::NameNotFound { name: "X".to_owned(), scope: Some(0) })
    );
    assert!(rt.take_recorded().is_empty());
    assert_eq!(rt.delete_sheet_scoped_name(0, "x", 1, true), Ok("X".to_owned()));
    assert_eq!(rt.take_recorded(), vec![Op::RemoveName { scope: Some(0), name: "X".to_owned() }]);
}

#[test]
fn intern_style_reuses_allocates_or_refuses() {
    let mut rt = WorkbookRuntime::with_oplog();
    let existing = StyleId { peer: 4, counter: 2 };
    assert_eq!(rt.intern_style(Some(existing), 10, 1), Ok(existing));
    assert!(rt.take_recorded().is_empty());
    assert_eq!(rt.intern_style(None, u32::MAX, 1), Err(RuntimeError::StyleCounterExhausted { peer: 1 }));
    assert!(rt.take_recorded().is_empty());
    let fresh = StyleId { peer: 1, counter: 10 };
    assert_eq!(rt.intern_style(None, 10, 1), Ok(fresh));
    assert_eq!(rt.take_recorded(), vec![Op::RegisterStyle { id: fresh }]);
}

#[test]
fn set_cell_style_collapses_the_empty_style() {
    let mut rt = WorkbookRuntime::with_oplog();
    let sid = StyleId { peer: 1, counter: 3 };
    assert_eq!(rt.set_cell_style(0, 1, 1, Some(sid), 1, Some(true)), Ok(None));
    assert_eq!(rt.set_cell_style(0, 1, 1, Some(sid), 1, Some(false)), Ok(Some(sid)));
    assert_eq!(rt.set_cell_style(0, 1, 1, None, 1, None), Ok(None));
    assert_eq!(
        rt.take_recorded(),
        vec![
            Op::SetCellStyle { sheet: 0, row: 1, col: 1, id: None },
            Op::SetCellStyle { sheet: 0, row: 1, col: 1, id: Some(sid) },
            Op::SetCellStyle { sheet: 0, row: 1, col: 1, id: None },
        ]
    );
}

#[test]
fn set_cell_style_refuses_unknown_ids_and_bad_cells() {
    let mut rt = WorkbookRuntime::with_oplog();
    let sid = StyleId { peer: 1, counter: 3 };
    assert_eq!(rt.set_cell_style(0, 0, 0, Some(sid), 1, None), Err(RuntimeError::UnknownStyleId(sid)));
    assert_eq!(
        rt.set_cell_style(2, 0, 0, Some(sid), 1, Some(false)),
        Err(RuntimeError::InvalidSheet { sheet: 2, sheet_count: 1 })
    );
    assert!(rt.take_recorded().is_empty());
}

#[test]
fn intern_format_reuses_allocates_or_refuses() {
    let mut rt = WorkbookRuntime::with_oplog();
    assert_eq!(rt.intern_format("0.00", Some(FormatId::Builtin(2)), 0, 9), Ok(FormatId::Builtin(2)));
    assert!(rt.take_recorded().is_empty());
    assert_eq!(
        rt.intern_format("0.00", None, u32::MAX, 9),
        Err(RuntimeError::FormatCounterExhausted { peer: 9 })
    );
    assert_eq!(rt.intern_format("0.000", None, 5, 9), Ok(FormatId::Custom(9, 5)));
    assert_eq!(
        rt.take_recorded(),
        vec![Op::RegisterFormat { id: FormatId::Custom(9, 5), string: "0.000".to_owned() }]
    );
}

#[test]
fn set_cell_format_requires_a_registered_id() {
    let mut rt = WorkbookRuntime::with_oplog();
    let id = FormatId::Custom(1, 1);
    assert_eq!(rt.set_cell_format(0, 0, 0, Some(id), 1, false), Err(RuntimeError::UnknownFormatId(id)));
    assert_eq!(rt.set_cell_format(0, 0, 0, Some(id), 1, true), Ok(()));
    assert_eq!(rt.set_cell_format(0, 0, 0, None, 1, false), Ok(()));
    assert_eq!(
        rt.take_recorded(),
        vec![
            Op::SetCellFormat { sheet: 0, row: 0, col: 0, id: Some(id) },
            Op::SetCellFormat { sheet: 0, row: 0, col: 0, id: None },
        ]
    );
}

#[test]
fn nudge_base_starts_general_and_unbound_cells_at_zero() {
    assert_eq!(nudge_base(1, 0, 0, 0, 1, None, None), Ok(Some("0".to_owned())));
    assert_eq!(
        nudge_base(1, 0, 0, 0, 1, Some(FormatId::Builtin(0)), Some("general")),
        Ok(Some("0".to_owned()))
    );
    assert_eq!(
        nudge_base(1, 0, 0, 0, -1, Some(FormatId::Builtin(4)), Some("#,##0.00")),
        Ok(Some("#,##0.00".to_owned()))
    );
}

#[test]
fn nudge_base_zero_delta_and_errors() {
    assert_eq!(nudge_base(1, 0, 0, 0, 0, Some(FormatId::Builtin(4)), None), Ok(None));
    assert_eq!(
        nudge_base(1, 0, 0, 0, 2, Some(FormatId::Custom(3, 3)), None),
        Err(RuntimeError::UnknownFormatId(FormatId::Custom(3, 3)))
    );
    assert!(matches!(
        nudge_base(1, 0, 2_000_000, 0, 1, None, None),
        Err(RuntimeError::InvalidCell { .. })
    ));
}

#[test]
fn nudge_outcome_maps_refusals_and_no_ops() {
    assert_eq!(
        nudge_outcome(None, None, Err("[Red] not supported".to_owned())),
        Err(RuntimeError::InvalidFormat("[Red] not supported".to_owned()))
    );
    assert_eq!(
        nudge_outcome(Some(FormatId::Builtin(2)), Some("0.00"), Ok("0.00".to_owned())),
        Ok(None)
    );
    assert_eq!(nudge_outcome(None, None, Ok("0.0".to_owned())), Ok(Some("0.0".to_owned())));
}

#[test]
fn nudge_cell_decimals_interns_then_binds() {
    let mut rt = WorkbookRuntime::with_oplog();
    assert_eq!(rt.nudge_cell_decimals(0, 0, 0, Ok(None), 1, None, 0, 2), Ok(None));
    assert!(rt.take_recorded().is_empty());
    let id = FormatId::Custom(2, 7);
    assert_eq!(rt.nudge_cell_decimals(0, 4, 4, Ok(Some("0.0".to_owned())), 1, None, 7, 2), Ok(Some(id)));
    assert_eq!(
        rt.take_recorded(),
        vec![
            Op::RegisterFormat { id, string: "0.0".to_owned() },
            Op::SetCellFormat { sheet: 0, row: 4, col: 4, id: Some(id) },
        ]
    );
}

#[test]
fn nudge_cell_decimals_reuses_an_interned_code_and_checks_the_cell() {
    let mut rt = WorkbookRuntime::with_oplog();
    let id = FormatId::Builtin(2);
    assert_eq!(rt.nudge_cell_decimals(0, 1, 1, Ok(Some("0.00".to_owned())), 1, Some(id), 7, 2), Ok(Some(id)));
    assert_eq!(rt.take_recorded(), vec![Op::SetCellFormat { sheet: 0, row: 1, col: 1, id: Some(id) }]);
    assert_eq!(
        rt.nudge_cell_decimals(3, 1, 1, Ok(Some("0.00".to_owned())), 1, None, 7, 2),
        Err(RuntimeError::InvalidSheet { sheet: 3, sheet_count: 1 })
    );
    assert!(rt.take_recorded().is_empty());
}
