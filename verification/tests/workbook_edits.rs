use ql_exec::config::{Locale, ReferenceMode};
use ql_exec::dirty::DirtyRecompute;
use ql_exec::error::{BindError, RuntimeError, TableRule};
use ql_exec::footprint::TableFootprint;
use ql_exec::formats::{nudge_base, nudge_outcome, FormatId};
use ql_exec::grid::MAX_ROW;
use ql_exec::ops::{BatchItem, Op};
use ql_exec::recompute::{needs_eval, DepState, DepSummary, FullRecompute, SpillShape};
use ql_exec::runtime::WorkbookRuntime;
use ql_exec::sheets::NamedFormulaRewrite;
use ql_exec::styles::StyleId;
use ql_exec::tables::FormulaRewrite;

/// The local peer of the workbooks these cases build.
const PEER: u64 = 0;

fn tf(name: &str, top_row: u32, top_col: u32, rows: u32, cols: u32) -> TableFootprint {
    TableFootprint { name: name.to_owned(), sheet: 0, top_row, top_col, rows, cols }
}

fn strings(v: &[&str]) -> Vec<String> {
    v.iter().map(|s| s.to_string()).collect()
}

// ---- config ------------------------------------------------------------

#[test]
fn set_reference_mode_updates_workbook_and_emits_op() {
    let mut rt = WorkbookRuntime::with_oplog();
    assert_eq!(rt.set_reference_mode(ReferenceMode::A1, ReferenceMode::R1C1), Some(ReferenceMode::R1C1));
    assert_eq!(rt.take_recorded().len(), 1);
}

#[test]
fn set_reference_mode_noop_when_unchanged_emits_no_op() {
    let mut rt = WorkbookRuntime::with_oplog();
    assert_eq!(rt.set_reference_mode(ReferenceMode::A1, ReferenceMode::A1), None);
    assert_eq!(rt.take_recorded().len(), 0);
}

#[test]
fn set_locale_updates_workbook_and_emits_op() {
    let mut rt = WorkbookRuntime::with_oplog();
    assert_eq!(rt.set_locale(Locale::EnUs, Locale::De), Some(Locale::De));
    assert_eq!(rt.take_recorded().len(), 1);
}

#[test]
fn set_locale_noop_when_unchanged_emits_no_op() {
    let mut rt = WorkbookRuntime::with_oplog();
    assert_eq!(rt.set_locale(Locale::EnUs, Locale::EnUs), None);
    assert_eq!(rt.take_recorded().len(), 0);
}

// ---- formats -----------------------------------------------------------

#[test]
fn intern_format_returns_existing_builtin_id_no_oplog_op() {
    let mut rt = WorkbookRuntime::with_oplog();
    assert_eq!(rt.intern_format("General", Some(FormatId::Builtin(0)), 0, PEER), Ok(FormatId::Builtin(0)));
    assert_eq!(rt.intern_format("0.00", Some(FormatId::Builtin(2)), 0, PEER), Ok(FormatId::Builtin(2)));
    assert_eq!(rt.take_recorded().len(), 0, "built-ins must not emit RegisterFormat ops");
}

#[test]
fn intern_format_new_string_emits_register_op() {
    let mut rt = WorkbookRuntime::with_oplog();
    let id = rt.intern_format("\"€\" #,##0.00", None, 0, PEER).unwrap();
    assert_eq!(id, FormatId::Custom(PEER, 0));
    let ops = rt.take_recorded();
    assert_eq!(ops.len(), 1);
    assert_eq!(ops[0], Op::RegisterFormat { id: FormatId::Custom(PEER, 0), string: "\"€\" #,##0.00".to_owned() });
}

#[test]
fn intern_format_duplicate_call_idempotent_no_second_op() {
    let mut rt = WorkbookRuntime::with_oplog();
    let id1 = rt.intern_format("\"⚓\" #,##0", None, 0, PEER).unwrap();
    // The second call finds the code the first one registered.
    let id2 = rt.intern_format("\"⚓\" #,##0", Some(id1), 1, PEER).unwrap();
    assert_eq!(id1, id2);
    assert_eq!(rt.take_recorded().len(), 1, "second intern must not emit a duplicate op");
}

#[test]
fn set_cell_format_emits_op_and_updates_overlay() {
    let mut rt = WorkbookRuntime::with_oplog();
    rt.set_cell_format(0, 3, 5, Some(FormatId::Builtin(14)), 1, true).unwrap();
    let ops = rt.take_recorded();
    assert!(ops.iter().any(|o| matches!(o, Op::SetCellFormat { id: Some(FormatId::Builtin(14)), .. })));
}

#[test]
fn set_cell_format_with_none_clears_overlay_and_emits_op() {
    let mut rt = WorkbookRuntime::with_oplog();
    rt.set_cell_format(0, 0, 0, None, 1, false).unwrap();
    let ops = rt.take_recorded();
    assert!(ops.iter().any(|o| matches!(o, Op::SetCellFormat { id: None, .. })));
}

#[test]
fn set_cell_format_unknown_id_is_runtime_error() {
    let mut rt = WorkbookRuntime::new();
    let bad_id = FormatId::Builtin(9999);
    let err = rt.set_cell_format(0, 0, 0, Some(bad_id), 1, false).unwrap_err();
    assert!(matches!(err, RuntimeError::UnknownFormatId(fid) if fid == bad_id));
}

/// The preview of a nudge on cell (0, 0) of a one-sheet workbook, given the
/// cell's binding and the nudger's answer for the base code.
fn preview(
    delta: i32,
    bound: Option<FormatId>,
    bound_text: Option<&str>,
    nudger: impl Fn(&str) -> Result<String, String>,
) -> Result<Option<String>, RuntimeError> {
    match nudge_base(1, 0, 0, 0, delta, bound, bound_text)? {
        None => Ok(None),
        Some(base) => nudge_outcome(bound, bound_text, nudger(&base)),
    }
}

#[test]
fn nudge_increase_adds_a_decimal_place() {
    let p = preview(1, Some(FormatId::Builtin(2)), Some("0.00"), |_| Ok("0.000".to_owned()));
    assert_eq!(p, Ok(Some("0.000".to_owned())));
    let mut rt = WorkbookRuntime::new();
    let new = rt.nudge_cell_decimals(0, 0, 0, p, 1, None, 0, PEER).unwrap();
    assert!(new.is_some(), "increase must (re)bind a format");
}

#[test]
fn nudge_unbound_increase_binds_one_decimal() {
    let p = preview(1, None, None, |base| {
        assert_eq!(base, "0");
        Ok("0.0".to_owned())
    });
    let mut rt = WorkbookRuntime::with_oplog();
    let new = rt.nudge_cell_decimals(0, 0, 0, p, 1, None, 0, PEER).unwrap();
    assert!(new.is_some());
    let ops = rt.take_recorded();
    assert_eq!(ops[0], Op::RegisterFormat { id: FormatId::Custom(PEER, 0), string: "0.0".to_owned() });
}

#[test]
fn nudge_delta_zero_is_noop() {
    let p = preview(0, None, None, |_| panic!("no nudge for a zero delta"));
    let mut rt = WorkbookRuntime::with_oplog();
    assert_eq!(rt.nudge_cell_decimals(0, 0, 0, p, 1, None, 0, PEER).unwrap(), None);
    assert!(rt.take_recorded().is_empty());
}

#[test]
fn nudge_emits_register_and_set_format_ops() {
    let p = preview(1, Some(FormatId::Builtin(2)), Some("0.00"), |_| Ok("0.000".to_owned()));
    let mut rt = WorkbookRuntime::with_oplog();
    rt.nudge_cell_decimals(0, 0, 0, p, 1, None, 0, PEER).unwrap();
    let ops = rt.take_recorded();
    assert!(ops.iter().any(|o| matches!(o, Op::RegisterFormat { .. })));
    assert!(ops.iter().any(|o| matches!(o, Op::SetCellFormat { id: Some(_), .. })));
}

#[test]
fn preview_and_apply_agree_on_the_nudged_string() {
    let previewed = preview(1, None, None, |_| Ok("0.0".to_owned()));
    let mut rt = WorkbookRuntime::with_oplog();
    let id = rt.nudge_cell_decimals(0, 0, 0, previewed.clone(), 1, None, 3, PEER).unwrap().unwrap();
    let ops = rt.take_recorded();
    assert_eq!(
        ops,
        vec![
            Op::RegisterFormat { id, string: previewed.unwrap().unwrap() },
            Op::SetCellFormat { sheet: 0, row: 0, col: 0, id: Some(id) },
        ]
    );
}

#[test]
fn preview_noop_returns_none() {
    let bound = Some(FormatId::Builtin(1));
    assert_eq!(preview(0, bound, Some("0"), |_| panic!("no nudge for a zero delta")), Ok(None));
    assert_eq!(preview(-1, bound, Some("0"), |_| Ok("0".to_owned())), Ok(None));
}

#[test]
fn nudge_decrease_at_zero_decimals_is_noop() {
    let p = preview(-1, Some(FormatId::Builtin(1)), Some("0"), |_| Ok("0".to_owned()));
    let mut rt = WorkbookRuntime::with_oplog();
    assert_eq!(rt.nudge_cell_decimals(0, 0, 0, p, 1, Some(FormatId::Builtin(1)), 0, PEER).unwrap(), None);
    let ops = rt.take_recorded();
    assert_eq!(ops.iter().filter(|o| matches!(o, Op::SetCellFormat { .. })).count(), 0);
}

#[test]
fn preview_explicit_general_format_uses_base() {
    let p = preview(1, Some(FormatId::Builtin(0)), Some("General"), |base| {
        assert_eq!(base, "0");
        Ok("0.0".to_owned())
    });
    assert_eq!(p.unwrap().as_deref(), Some("0.0"));
}

#[test]
fn nudge_v2_unsupported_format_surfaces_invalid_format() {
    let p = preview(1, Some(FormatId::Custom(PEER, 0)), Some("[Red]0.00"), |_| Err("[Red] is not supported".to_owned()));
    let mut rt = WorkbookRuntime::with_oplog();
    let err = rt.nudge_cell_decimals(0, 0, 0, p, 1, None, 1, PEER).unwrap_err();
    assert!(matches!(err, RuntimeError::InvalidFormat(_)));
    assert!(rt.take_recorded().is_empty());
}

// ---- names -------------------------------------------------------------

#[test]
fn set_sheet_scoped_name_invalid_sheet_errors() {
    let mut rt = WorkbookRuntime::new();
    let err = rt.set_sheet_scoped_name(42, "R", 1, Ok(())).unwrap_err();
    assert!(matches!(err, RuntimeError::InvalidSheet { sheet: 42, .. }));
}

#[test]
fn set_sheet_scoped_name_reserved_name_rejected() {
    let mut rt = WorkbookRuntime::with_oplog();
    let err = rt.set_sheet_scoped_name(0, "AI", 1, Err("reserved name".to_owned())).unwrap_err();
    assert!(matches!(err, RuntimeError::Name(_)));
    assert!(rt.take_recorded().is_empty());
}

#[test]
fn set_sheet_scoped_name_emits_op_with_scope() {
    let mut rt = WorkbookRuntime::with_oplog();
    rt.set_sheet_scoped_name(0, "R", 1, Ok(())).unwrap();
    let ops = rt.take_recorded();
    assert_eq!(ops, vec![Op::SetName { scope: Some(0), name: "R".to_owned() }]);
}

#[test]
fn delete_name_emits_remove_op_and_clears() {
    let mut rt = WorkbookRuntime::with_oplog();
    rt.set_name("TaxRate", Ok(())).unwrap();
    rt.delete_name("TaxRate", true).unwrap();
    let ops = rt.take_recorded();
    assert_eq!(ops.len(), 2);
    assert!(matches!(&ops[0], Op::SetName { name, .. } if name == "TAXRATE"));
    assert_eq!(ops[1], Op::RemoveName { scope: None, name: "TAXRATE".to_owned() });
}

#[test]
fn delete_name_unknown_errors_and_appends_nothing() {
    let mut rt = WorkbookRuntime::with_oplog();
    let err = rt.delete_name("NOPE", false).unwrap_err();
    assert!(matches!(err, RuntimeError::NameNotFound { scope: None, .. }));
    assert!(rt.take_recorded().is_empty());
}

#[test]
fn delete_sheet_scoped_name_emits_scoped_remove_op() {
    let mut rt = WorkbookRuntime::with_oplog();
    rt.set_sheet_scoped_name(0, "R", 1, Ok(())).unwrap();
    rt.delete_sheet_scoped_name(0, "R", 1, true).unwrap();
    let ops = rt.take_recorded();
    assert_eq!(ops.len(), 2);
    assert_eq!(ops[1], Op::RemoveName { scope: Some(0), name: "R".to_owned() });
}

#[test]
fn delete_sheet_scoped_name_invalid_sheet_errors() {
    let mut rt = WorkbookRuntime::new();
    let err = rt.delete_sheet_scoped_name(42, "R", 1, false).unwrap_err();
    assert!(matches!(err, RuntimeError::InvalidSheet { sheet: 42, .. }));
}

// ---- sheets ------------------------------------------------------------

#[test]
fn add_sheet_rejects_canonical_duplicate() {
    let mut rt = WorkbookRuntime::new();
    let err = rt.add_sheet("SHEET1", 16, 1, Err("duplicate sheet name".to_owned())).unwrap_err();
    assert!(matches!(err, RuntimeError::SheetName(_)));
}

#[test]
fn add_sheet_rejects_reserved_char() {
    let mut rt = WorkbookRuntime::new();
    let err = rt.add_sheet("Bad/Sheet", 16, 0, Err("reserved character".to_owned())).unwrap_err();
    assert!(matches!(err, RuntimeError::SheetName(_)));
}

#[test]
fn add_sheet_with_bad_name_emits_no_oplog_entry() {
    let mut rt = WorkbookRuntime::with_oplog();
    let _ = rt.add_sheet("Sheet1", 16, 1, Err("duplicate sheet name".to_owned())).unwrap_err();
    assert_eq!(rt.take_recorded().len(), 0);
}

#[test]
fn add_sheet_rejects_zero_chunk_rows() {
    let mut rt = WorkbookRuntime::with_oplog();
    assert_eq!(rt.add_sheet("Bad", 0, 0, Ok(())), Err(RuntimeError::InvalidChunkRows(0)));
    assert!(rt.take_recorded().is_empty(), "op log must stay empty on validation failure");
}

#[test]
fn rename_sheet_duplicate_target_rejected_runtime() {
    let mut rt = WorkbookRuntime::new();
    let err = rt
        .rename_sheet(0, "s2", Some("S1"), 2, false, Err("duplicate sheet name".to_owned()), &vec![], &vec![])
        .unwrap_err();
    assert!(matches!(err, RuntimeError::SheetName(_)));
}

#[test]
fn rename_sheet_unknown_id_rejected_runtime() {
    let mut rt = WorkbookRuntime::new();
    let err = rt.rename_sheet(42, "X", None, 1, false, Ok(()), &vec![], &vec![]).unwrap_err();
    assert!(matches!(err, RuntimeError::InvalidSheet { .. }));
}

#[test]
fn rename_sheet_case_only_rename_runtime() {
    let mut rt = WorkbookRuntime::with_oplog();
    // Storage's duplicate check sees the sheet's own name; a case-only
    // rename skips it.
    rt.rename_sheet(0, "SHEET1", Some("Sheet1"), 1, true, Err("duplicate sheet name".to_owned()), &vec![], &vec![])
        .unwrap();
    assert_eq!(rt.take_recorded().len(), 1);
}

// ---- styles ------------------------------------------------------------

#[test]
fn intern_style_new_emits_register_op() {
    let mut rt = WorkbookRuntime::with_oplog();
    assert_eq!(rt.intern_style(None, 0, PEER), Ok(StyleId { peer: PEER, counter: 0 }));
    let ops = rt.take_recorded();
    assert_eq!(ops.len(), 1);
    assert!(matches!(ops[0], Op::RegisterStyle { .. }));
}

#[test]
fn intern_style_duplicate_call_idempotent_no_second_op() {
    let mut rt = WorkbookRuntime::with_oplog();
    let a = rt.intern_style(None, 0, PEER).unwrap();
    let b = rt.intern_style(Some(a), 1, PEER).unwrap();
    assert_eq!(a, b);
    assert_eq!(rt.take_recorded().len(), 1, "repeat intern must not emit a duplicate op");
}

#[test]
fn set_cell_style_emits_op_and_updates_overlay() {
    let mut rt = WorkbookRuntime::with_oplog();
    let sid = rt.intern_style(None, 0, PEER).unwrap();
    assert_eq!(rt.set_cell_style(0, 3, 5, Some(sid), 1, Some(false)), Ok(Some(sid)));
    let ops = rt.take_recorded();
    assert!(ops.iter().any(|o| matches!(o, Op::SetCellStyle { id: Some(_), .. })));
}

#[test]
fn set_cell_style_none_clears_overlay_and_emits_op() {
    let mut rt = WorkbookRuntime::with_oplog();
    let sid = rt.intern_style(None, 0, PEER).unwrap();
    rt.set_cell_style(0, 0, 0, Some(sid), 1, Some(false)).unwrap();
    assert_eq!(rt.set_cell_style(0, 0, 0, None, 1, None), Ok(None));
    let ops = rt.take_recorded();
    assert!(ops.iter().any(|o| matches!(o, Op::SetCellStyle { id: None, .. })));
}

#[test]
fn fe9_set_cell_style_empty_collapses_to_clear() {
    let mut rt = WorkbookRuntime::with_oplog();
    let empty_id = rt.intern_style(None, 0, PEER).unwrap();
    rt.set_cell_style(0, 0, 0, Some(empty_id), 1, Some(true)).unwrap();
    let ops = rt.take_recorded();
    assert!(ops.iter().any(|o| matches!(o, Op::SetCellStyle { id: None, .. })));
    assert!(!ops.iter().any(|o| matches!(o, Op::SetCellStyle { id: Some(_), .. })));
}

#[test]
fn set_cell_style_unknown_id_is_runtime_error() {
    let mut rt = WorkbookRuntime::new();
    let bad = StyleId { peer: PEER, counter: 999 };
    let err = rt.set_cell_style(0, 0, 0, Some(bad), 1, None).unwrap_err();
    assert!(matches!(err, RuntimeError::UnknownStyleId(sid) if sid == bad));
}

// ---- visibility --------------------------------------------------------

#[test]
fn set_rows_hidden_emits_op_and_updates_sheet() {
    let mut rt = WorkbookRuntime::with_oplog();
    assert_eq!(rt.set_rows_hidden(0, &vec![2, 4], true, 1, &vec![false, false]), Ok(vec![2, 4]));
    let ops = rt.take_recorded();
    assert!(ops.iter().any(|o| matches!(o, Op::SetRowsHidden { hidden: true, .. })));
}

#[test]
fn set_rows_hidden_no_op_when_state_unchanged_emits_no_op() {
    let mut rt = WorkbookRuntime::with_oplog();
    rt.set_rows_hidden(0, &vec![2], true, 1, &vec![false]).unwrap();
    rt.set_rows_hidden(0, &vec![2], true, 1, &vec![true]).unwrap();
    rt.set_rows_hidden(0, &vec![9], false, 1, &vec![false]).unwrap();
    let ops = rt.take_recorded();
    assert_eq!(ops.iter().filter(|o| matches!(o, Op::SetRowsHidden { .. })).count(), 1);
}

#[test]
fn set_rows_hidden_show_clears_membership() {
    let mut rt = WorkbookRuntime::with_oplog();
    assert_eq!(rt.set_rows_hidden(0, &vec![2, 4], true, 1, &vec![false, false]), Ok(vec![2, 4]));
    assert_eq!(rt.set_rows_hidden(0, &vec![2], false, 1, &vec![true]), Ok(vec![2]));
}

#[test]
fn set_rows_hidden_invalid_sheet_errors() {
    let mut rt = WorkbookRuntime::with_oplog();
    let err = rt.set_rows_hidden(42, &vec![0], true, 1, &vec![false]).unwrap_err();
    assert!(matches!(err, RuntimeError::InvalidSheet { sheet: 42, .. }));
}

#[test]
fn set_rows_hidden_row_past_max_errors_atomically() {
    let mut rt = WorkbookRuntime::with_oplog();
    let result = rt.set_rows_hidden(0, &vec![3, MAX_ROW + 1], true, 1, &vec![false, false]);
    assert!(matches!(result, Err(RuntimeError::InvalidCell { .. })));
    assert!(rt.take_recorded().is_empty());
}

// ---- tables ------------------------------------------------------------

#[test]
fn create_table_happy_path_registers_and_emits_op() {
    let mut rt = WorkbookRuntime::with_oplog();
    let t = rt
        .create_table("Sales", 0, 0, 0, 5, 3, true, false, strings(&["Region", "Qty", "Price"]), 1, Ok(()), false, &vec![], &vec![])
        .unwrap();
    assert_eq!(t.name, "SALES");
    assert_eq!(t.display_name, "Sales");
    assert_eq!(t.cols, 3);
    assert_eq!(t.rows, 5);
    assert!(t.has_header);
    assert!(!t.has_totals);
    let ops = rt.take_recorded();
    assert_eq!(ops.len(), 1);
    assert!(matches!(&ops[0], Op::CreateTable { name, .. } if name == "SALES"));
}

#[test]
fn rename_table_target_collision_with_table_errors() {
    let mut rt = WorkbookRuntime::new();
    let tables = vec![tf("A", 0, 0, 2, 1), tf("B", 0, 5, 2, 1)];
    match rt.rename_table("A", "B", false, &tables, &vec![]).unwrap_err() {
        RuntimeError::TableCreateRejected { reason, .. } => {
            assert_eq!(reason, TableRule::TargetTableNameTaken);
            assert!(reason.message(false).contains("rename target"), "reason: {}", reason.message(false));
        }
        other => panic!("expected TableCreateRejected, got {other:?}"),
    }
}

#[test]
fn rename_table_missing_source_errors() {
    let mut rt = WorkbookRuntime::new();
    match rt.rename_table("Nope", "Yep", false, &vec![], &vec![]).unwrap_err() {
        RuntimeError::TableNotFound(n) => assert_eq!(n, "Nope"),
        other => panic!("expected TableNotFound, got {other:?}"),
    }
}

#[test]
fn rename_table_emits_ops() {
    let mut rt = WorkbookRuntime::with_oplog();
    rt.create_table("S", 0, 0, 0, 2, 1, true, false, strings(&["Q"]), 1, Ok(()), false, &vec![], &vec![]).unwrap();
    // The formula stored at (0, 5, 0).
    rt.record_formula_rewrites(&vec![FormulaRewrite { sheet: 0, row: 5, col: 0, new_text: Some("SUM(S[Q])".to_owned()) }]);
    let tables = vec![tf("S", 0, 0, 2, 1)];
    let rewrites = vec![FormulaRewrite { sheet: 0, row: 5, col: 0, new_text: Some("SUM(T[Q])".to_owned()) }];
    let r = rt.rename_table("S", "T", false, &tables, &rewrites).unwrap().unwrap();
    assert_eq!(r.rewritten, 1);
    let ops = rt.take_recorded();
    assert_eq!(ops.len(), 4, "got {ops:?}");
    assert!(matches!(&ops[2], Op::RenameTable { old_name, new_name } if old_name == "S" && new_name == "T"));
    match &ops[3] {
        Op::PutFormula { text, .. } => assert!(text.contains('T')),
        other => panic!("expected PutFormula for rewrite, got {other:?}"),
    }
}

#[test]
fn rename_column_target_collision_errors() {
    let mut rt = WorkbookRuntime::new();
    let tables = vec![tf("SALES", 0, 0, 2, 2)];
    match rt.rename_column("Sales", "Qty", "Price", &tables, true, true, &vec![]).unwrap_err() {
        RuntimeError::TableColumnRejected { reason, .. } => {
            assert_eq!(reason, TableRule::ColumnNameTaken);
            assert!(reason.message(false).contains("rename target"), "reason: {}", reason.message(false));
        }
        other => panic!("expected TableColumnRejected, got {other:?}"),
    }
}

#[test]
fn rename_column_missing_source_errors() {
    let mut rt = WorkbookRuntime::new();
    let tables = vec![tf("SALES", 0, 0, 2, 1)];
    match rt.rename_column("Sales", "Nope", "Whatever", &tables, false, false, &vec![]).unwrap_err() {
        RuntimeError::TableColumnNotFound { table, column } => {
            assert_eq!(table, "Sales");
            assert_eq!(column, "Nope");
        }
        other => panic!("expected TableColumnNotFound, got {other:?}"),
    }
}

#[test]
fn rename_column_unknown_table_errors() {
    let mut rt = WorkbookRuntime::new();
    match rt.rename_column("Nope", "A", "B", &vec![], false, false, &vec![]).unwrap_err() {
        RuntimeError::TableNotFound(n) => assert_eq!(n, "Nope"),
        other => panic!("expected TableNotFound, got {other:?}"),
    }
}

#[test]
fn rename_column_empty_target_errors() {
    let mut rt = WorkbookRuntime::new();
    let tables = vec![tf("SALES", 0, 0, 2, 1)];
    match rt.rename_column("Sales", "Qty", "", &tables, true, false, &vec![]).unwrap_err() {
        RuntimeError::TableColumnRejected { reason, .. } => {
            assert_eq!(reason, TableRule::EmptyColumnRenameTarget);
            assert!(reason.message(false).contains("cannot be empty"), "reason: {}", reason.message(false));
        }
        other => panic!("expected TableColumnRejected, got {other:?}"),
    }
}

#[test]
fn rename_column_same_canonical_is_noop() {
    let mut rt = WorkbookRuntime::with_oplog();
    rt.create_table("Sales", 0, 0, 0, 2, 1, true, false, strings(&["Qty"]), 1, Ok(()), false, &vec![], &vec![]).unwrap();
    let tables = vec![tf("SALES", 0, 0, 2, 1)];
    assert!(rt.rename_column("Sales", "Qty", "QTY", &tables, true, true, &vec![]).unwrap().is_none());
    let ops = rt.take_recorded();
    assert_eq!(ops.len(), 1, "got {ops:?}");
    assert!(matches!(&ops[0], Op::CreateTable { .. }));
}

#[test]
fn rename_column_emits_ops() {
    let mut rt = WorkbookRuntime::with_oplog();
    rt.create_table("S", 0, 0, 0, 2, 1, true, false, strings(&["Q"]), 1, Ok(()), false, &vec![], &vec![]).unwrap();
    rt.record_formula_rewrites(&vec![FormulaRewrite { sheet: 0, row: 5, col: 0, new_text: Some("SUM(S[Q])".to_owned()) }]);
    let tables = vec![tf("S", 0, 0, 2, 1)];
    let rewrites = vec![FormulaRewrite { sheet: 0, row: 5, col: 0, new_text: Some("SUM(S[R])".to_owned()) }];
    let c = rt.rename_column("S", "Q", "R", &tables, true, false, &rewrites).unwrap().unwrap();
    assert_eq!(c.rewritten, 1);
    let ops = rt.take_recorded();
    assert_eq!(ops.len(), 4, "got {ops:?}");
    assert!(matches!(&ops[2], Op::RenameColumn { table, old_name, new_name }
        if table == "S" && old_name == "Q" && new_name == "R"));
    match &ops[3] {
        Op::PutFormula { text, .. } => {
            assert!(text.contains('R'), "text: {text}");
            assert!(!text.contains('Q'), "text: {text}");
        }
        other => panic!("expected PutFormula for rewrite, got {other:?}"),
    }
}

fn resize_sales(
    tables: &Vec<TableFootprint>,
    displays: &[&str],
    new_rows: u32,
    new_cols: u32,
    added: &[&str],
    removed: &[&str],
) -> Result<Option<ql_exec::tables::TableResize>, RuntimeError> {
    let mut rt = WorkbookRuntime::new();
    rt.resize_table("Sales", new_rows, new_cols, strings(added), strings(removed), Ok(()), tables, &strings(displays), &vec![])
}

fn resize_reason(r: Result<Option<ql_exec::tables::TableResize>, RuntimeError>) -> TableRule {
    match r {
        Err(RuntimeError::TableResizeRejected { reason, .. }) => reason,
        other => panic!("expected TableResizeRejected, got {other:?}"),
    }
}

#[test]
fn resize_table_unknown_table_errors() {
    let mut rt = WorkbookRuntime::new();
    match rt.resize_table("Nope", 5, 1, vec![], vec![], Ok(()), &vec![], &vec![], &vec![]).unwrap_err() {
        RuntimeError::TableNotFound(n) => assert_eq!(n, "Nope"),
        other => panic!("expected TableNotFound, got {other:?}"),
    }
}

#[test]
fn resize_table_zero_dims_rejected() {
    let t = vec![tf("SALES", 0, 0, 3, 1)];
    assert_eq!(resize_reason(resize_sales(&t, &["Qty"], 0, 1, &[], &[])), TableRule::EmptyFootprint);
    assert!(TableRule::EmptyFootprint.message(true).contains("> 0"));
}

#[test]
fn resize_table_arithmetic_mismatch_rejected() {
    let t = vec![tf("SALES", 0, 0, 3, 1)];
    assert_eq!(resize_reason(resize_sales(&t, &["Qty"], 3, 3, &["Price"], &[])), TableRule::ColumnArithmeticMismatch);
    assert!(TableRule::ColumnArithmeticMismatch.message(true).contains("does not match"));
}

#[test]
fn resize_table_removed_columns_not_trailing_rejected() {
    let t = vec![tf("SALES", 0, 0, 3, 3)];
    assert_eq!(
        resize_reason(resize_sales(&t, &["A", "B", "C"], 3, 2, &[], &["A"])),
        TableRule::RemovedColumnsNotTrailing
    );
    assert!(TableRule::RemovedColumnsNotTrailing.message(true).contains("do not match trailing"));
}

#[test]
fn resize_table_overlap_with_other_table_rejected() {
    let t = vec![tf("SALES", 0, 0, 3, 1), tf("ORDERS", 5, 0, 3, 1)];
    assert_eq!(resize_reason(resize_sales(&t, &["Qty"], 10, 1, &[], &[])), TableRule::OverlapsTable);
    assert!(TableRule::OverlapsTable.message(true).contains("overlaps"));
}

#[test]
fn resize_table_added_column_duplicate_rejected() {
    let t = vec![tf("SALES", 0, 0, 3, 1)];
    assert_eq!(resize_reason(resize_sales(&t, &["Qty"], 3, 2, &["qty"], &[])), TableRule::DuplicateColumnName);
    assert!(TableRule::DuplicateColumnName.message(true).contains("duplicate canonical names"));
}

#[test]
fn resize_table_removed_columns_excess_count_rejected() {
    let t = vec![tf("SALES", 0, 0, 3, 1)];
    assert_eq!(
        resize_reason(resize_sales(&t, &["Qty"], 3, 1, &[], &["Qty", "Phantom"])),
        TableRule::TooManyRemovedColumns
    );
    assert!(TableRule::TooManyRemovedColumns.message(true).contains("exceeds existing column count"));
}

#[test]
fn resize_table_emits_ops() {
    let mut rt = WorkbookRuntime::with_oplog();
    rt.create_table("Sales", 0, 0, 0, 3, 1, true, false, strings(&["Qty"]), 1, Ok(()), false, &vec![], &vec![]).unwrap();
    let t = vec![tf("SALES", 0, 0, 3, 1)];
    rt.resize_table("Sales", 5, 2, strings(&["Price"]), vec![], Ok(()), &t, &strings(&["Qty"]), &vec![]).unwrap();
    let ops = rt.take_recorded();
    assert_eq!(ops.len(), 2, "got {ops:?}");
    assert_eq!(
        ops[1],
        Op::ResizeTable {
            name: "SALES".to_owned(),
            new_rows: 5,
            new_cols: 2,
            added_columns: vec!["Price".to_owned()],
            removed_columns: vec![],
        }
    );
}

#[test]
fn resize_table_exact_noop_emits_nothing() {
    let mut rt = WorkbookRuntime::with_oplog();
    rt.create_table("Sales", 0, 0, 0, 3, 2, true, false, strings(&["Qty", "Price"]), 1, Ok(()), false, &vec![], &vec![])
        .unwrap();
    let t = vec![tf("SALES", 0, 0, 3, 2)];
    let r = rt
        .resize_table("Sales", 3, 2, vec![], vec![], Ok(()), &t, &strings(&["Qty", "Price"]), &vec![])
        .expect("exact no-op must succeed silently");
    assert!(r.is_none());
    let ops = rt.take_recorded();
    assert_eq!(ops.len(), 1, "got {ops:?}");
    assert!(matches!(&ops[0], Op::CreateTable { .. }));
}

// ---- recompute ---------------------------------------------------------

#[test]
fn recompute_result_is_complete_is_single_source_of_truth() {
    // One good formula (A1 + 1) and one that does not parse.
    let mut d = FullRecompute::new(vec![(0, 0, 1), (0, 0, 2)], vec![]);
    d.evaluated((0, 0, 1), true, None, None, false);
    d.failed((0, 0, 2), "(((".to_owned(), RuntimeError::Parse("unexpected end of input".to_owned()), false, None);
    assert!(!d.end_pass());
    let result = d.into_result();
    assert!(!result.is_complete());
    assert_eq!(result.failed_count(), 1);
    assert_eq!(result.succeeded, 1);
    assert_eq!(result.attempted, 2);
}

#[test]
fn veq_does_not_skip_volatile_formulas() {
    let deps = DepSummary { has_range_deps: false, cells: vec![DepState { dirty: true, changed: false, spill_anchor: false }] };
    assert!(needs_eval(true, Some(&deps)));
    assert!(!needs_eval(false, Some(&deps)));
}

#[test]
fn recompute_dirty_name_error_forces_anchor_write_past_veq() {
    let mut d = DirtyRecompute::new();
    assert!(d.begin_iteration(1));
    let plan = d.failed(
        (0, 0, 0),
        "=Gone[Amount]".to_owned(),
        RuntimeError::Bind(BindError::UnknownTable("Gone".to_owned())),
        true,
        Some(SpillShape { rows: 3, cols: 1 }),
    );
    let (write, body) = plan.unwrap();
    assert!(write, "a dissolved spill must rewrite its anchor even when #NAME? was already there");
    assert_eq!(body, vec![(0, 1, 0), (0, 2, 0)]);
}

#[test]
fn recompute_dirty_spill_dissolved_to_scalar_forces_anchor_write_past_veq() {
    let mut d = DirtyRecompute::new();
    assert!(d.begin_iteration(1));
    let (write, affected) = d.evaluated((0, 0, 0), true, Some(SpillShape { rows: 2, cols: 1 }), None, false);
    assert!(write);
    assert_eq!(affected, vec![(0, 1, 0)]);
    let r = d.finish(0);
    assert!(r.changed_cells.contains(&(0, 0, 0)));
}

#[test]
fn nudge_decrease_removes_a_decimal_place() {
    let p = preview(-1, Some(FormatId::Builtin(2)), Some("0.00"), |_| Ok("0.0".to_owned()));
    let mut rt = WorkbookRuntime::with_oplog();
    let id = rt.nudge_cell_decimals(0, 0, 0, p, 1, None, 0, PEER).unwrap().unwrap();
    assert_eq!(rt.take_recorded()[0], Op::RegisterFormat { id, string: "0.0".to_owned() });
}

#[test]
fn nudge_decrease_from_general_binds_integer_zero() {
    let p = preview(-1, None, None, |base| Ok(base.to_owned()));
    assert_eq!(p, Ok(Some("0".to_owned())));
    let mut rt = WorkbookRuntime::with_oplog();
    // "0" is a built-in code, already interned.
    let new = rt.nudge_cell_decimals(0, 0, 0, p, 1, Some(FormatId::Builtin(1)), 0, PEER).unwrap();
    assert_eq!(new, Some(FormatId::Builtin(1)));
    assert_eq!(rt.take_recorded(), vec![Op::SetCellFormat { sheet: 0, row: 0, col: 0, id: Some(FormatId::Builtin(1)) }]);
}

#[test]
fn preview_increase_returns_more_decimals_without_mutating() {
    let p = preview(1, Some(FormatId::Builtin(2)), Some("0.00"), |base| {
        assert_eq!(base, "0.00");
        Ok("0.000".to_owned())
    });
    assert_eq!(p.unwrap().as_deref(), Some("0.000"));
}

#[test]
fn preview_decrease_returns_fewer_decimals() {
    let p = preview(-1, Some(FormatId::Builtin(2)), Some("0.00"), |_| Ok("0.0".to_owned()));
    assert_eq!(p.unwrap().as_deref(), Some("0.0"));
}

#[test]
fn preview_unbound_increase_uses_general_base() {
    let p = preview(1, None, None, |base| {
        assert_eq!(base, "0");
        Ok("0.0".to_owned())
    });
    assert_eq!(p.unwrap().as_deref(), Some("0.0"));
}

#[test]
fn nudge_date_format_is_noop() {
    // The nudger leaves a date code as it is.
    let p = preview(1, Some(FormatId::Builtin(14)), Some("m/d/yyyy"), |base| Ok(base.to_owned()));
    let mut rt = WorkbookRuntime::with_oplog();
    assert_eq!(rt.nudge_cell_decimals(0, 0, 0, p, 1, Some(FormatId::Builtin(14)), 0, PEER).unwrap(), None);
    assert!(rt.take_recorded().is_empty());
}

#[test]
fn nudge_multi_step_increase() {
    let p = preview(3, Some(FormatId::Builtin(1)), Some("0"), |_| Ok("0.000".to_owned()));
    assert_eq!(p, Ok(Some("0.000".to_owned())));
}

#[test]
fn nudge_increase_at_max_decimals_is_noop() {
    let at_cap = format!("0.{}", "0".repeat(30));
    let p = preview(1, Some(FormatId::Custom(PEER, 0)), Some(at_cap.as_str()), |base| Ok(base.to_owned()));
    let mut rt = WorkbookRuntime::with_oplog();
    assert_eq!(rt.nudge_cell_decimals(0, 0, 0, p, 1, Some(FormatId::Custom(PEER, 0)), 1, PEER).unwrap(), None);
    assert!(rt.take_recorded().is_empty());
}

#[test]
fn set_sheet_scoped_name_lands_on_sheet_table() {
    let mut rt = WorkbookRuntime::with_oplog();
    assert_eq!(rt.set_sheet_scoped_name(0, "R", 1, Ok(())), Ok("R".to_owned()));
    assert_eq!(rt.take_recorded(), vec![Op::SetName { scope: Some(0), name: "R".to_owned() }]);
}

#[test]
fn rename_sheet_named_formula_emits_set_name_op() {
    let mut rt = WorkbookRuntime::with_oplog();
    let named = vec![NamedFormulaRewrite { scope: None, name: "Profit".to_owned(), new_body: "Renamed!A1 - 1".to_owned() }];
    rt.rename_sheet(0, "Renamed", Some("S1"), 1, false, Ok(()), &vec![], &named).unwrap();
    let mut found = false;
    for op in rt.take_recorded() {
        if let Op::BatchCommit { ops } = op {
            for item in ops {
                if let BatchItem::SetNamedFormula { name, body, .. } = item {
                    if name == "PROFIT" {
                        assert!(body.contains("Renamed!A1"), "got {body:?}");
                        found = true;
                    }
                }
            }
        }
    }
    assert!(found, "rename batch must emit SetName for the named formula");
}
