//! Defined names: set and delete, workbook-scoped and sheet-scoped.

use vstd::prelude::*;

use crate::error::RuntimeError;
use crate::grid::SheetId;
use crate::ops::Op;
use crate::runtime::{logged, WorkbookRuntime};
use crate::text::{ascii_upper, to_upper};

verus! {

impl WorkbookRuntime {
    /// Registers a workbook-scoped defined name. `would_accept` is the
    /// name table's pre-check of `name` (its refusal message, e.g. for a
    /// reserved name). Records `Op::SetName` with the upper-cased name and
    /// returns that name; the caller then stores the name with its target.
    pub fn set_name(&mut self, name: &str, would_accept: Result<(), String>) -> (r: Result<
        String,
        RuntimeError,
    >)
        ensures
            would_accept is Err ==> r == Err::<String, RuntimeError>(
                RuntimeError::Name(would_accept->Err_0),
            ),
            would_accept is Ok ==> r is Ok,
            r is Err ==> final(self).recorded() == old(self).recorded(),
            r matches Ok(n) ==> n@ == ascii_upper(name@) && logged(
                old(self).recorded(),
                final(self).recorded(),
                seq![Op::SetName { scope: None, name: n }],
            ),
            final(self).has_graph() == old(self).has_graph(),
    {
        if let Err(why) = would_accept {
            return Err(RuntimeError::Name(why));
        }
        let canonical = to_upper(name);
        self.record(Op::SetName { scope: None, name: canonical.clone() });
        Ok(canonical)
    }

    /// Registers a name scoped to `sheet`. Refuses an unknown sheet, then a
    /// name the (workbook-global) reserved-name check refuses. Records
    /// `Op::SetName` with the sheet scope and the upper-cased name and
    /// returns that name.
    pub fn set_sheet_scoped_name(
        &mut self,
        sheet: SheetId,
        name: &str,
        sheet_count: usize,
        would_accept: Result<(), String>,
    ) -> (r: Result<String, RuntimeError>)
        ensures
            sheet as int >= sheet_count ==> r == Err::<String, RuntimeError>(
                RuntimeError::InvalidSheet { sheet, sheet_count },
            ),
            (sheet as int) < sheet_count && would_accept is Err ==> r == Err::<String, RuntimeError>(
                RuntimeError::Name(would_accept->Err_0),
            ),
            (sheet as int) < sheet_count && would_accept is Ok ==> r is Ok,
            r is Err ==> final(self).recorded() == old(self).recorded(),
            r matches Ok(n) ==> n@ == ascii_upper(name@) && logged(
                old(self).recorded(),
                final(self).recorded(),
                seq![Op::SetName { scope: Some(sheet), name: n }],
            ),
            final(self).has_graph() == old(self).has_graph(),
    {
        if sheet as usize >= sheet_count {
            return Err(RuntimeError::InvalidSheet { sheet, sheet_count });
        }
        if let Err(why) = would_accept {
            return Err(RuntimeError::Name(why));
        }
        let canonical = to_upper(name);
        self.record(Op::SetName { scope: Some(sheet), name: canonical.clone() });
        Ok(canonical)
    }

    /// Removes a workbook-scoped defined name. `exists` is the name table's
    /// case-insensitive lookup of `name`. An unknown name is refused (nothing
    /// recorded); otherwise records `Op::RemoveName` with the upper-cased name
    /// and returns it.
    pub fn delete_name(&mut self, name: &str, exists: bool) -> (r: Result<String, RuntimeError>)
        ensures
            !exists ==> (r matches Err(RuntimeError::NameNotFound { name: n, scope }) && n@
                == ascii_upper(name@) && scope is None),
            exists ==> r is Ok,
            r is Err ==> final(self).recorded() == old(self).recorded(),
            r matches Ok(n) ==> n@ == ascii_upper(name@) && logged(
                old(self).recorded(),
                final(self).recorded(),
                seq![Op::RemoveName { scope: None, name: n }],
            ),
            final(self).has_graph() == old(self).has_graph(),
    {
        let canonical = to_upper(name);
        if !exists {
            return Err(RuntimeError::NameNotFound { name: canonical, scope: None });
        }
        self.record(Op::RemoveName { scope: None, name: canonical.clone() });
        Ok(canonical)
    }

    /// Removes a name scoped to `sheet`. `exists` is the sheet's scoped-name
    /// table's case-insensitive lookup of `name`. Refuses an unknown sheet,
    /// then an unknown name; otherwise records `Op::RemoveName` with the sheet
    /// scope and the upper-cased name and returns it.
    pub fn delete_sheet_scoped_name(
        &mut self,
        sheet: SheetId,
        name: &str,
        sheet_count: usize,
        exists: bool,
    ) -> (r: Result<String, RuntimeError>)
        ensures
            sheet as int >= sheet_count ==> r == Err::<String, RuntimeError>(
                RuntimeError::InvalidSheet { sheet, sheet_count },
            ),
            (sheet as int) < sheet_count && !exists ==> (r matches Err(
                RuntimeError::NameNotFound { name: n, scope },
            ) && n@ == ascii_upper(name@) && scope == Some(sheet)),
            (sheet as int) < sheet_count && exists ==> r is Ok,
            r is Err ==> final(self).recorded() == old(self).recorded(),
            r matches Ok(n) ==> n@ == ascii_upper(name@) && logged(
                old(self).recorded(),
                final(self).recorded(),
                seq![Op::RemoveName { scope: Some(sheet), name: n }],
            ),
            final(self).has_graph() == old(self).has_graph(),
    {
        if sheet as usize >= sheet_count {
            return Err(RuntimeError::InvalidSheet { sheet, sheet_count });
        }
        let canonical = to_upper(name);
        if !exists {
            return Err(RuntimeError::NameNotFound { name: canonical, scope: Some(sheet) });
        }
        self.record(Op::RemoveName { scope: Some(sheet), name: canonical.clone() });
        Ok(canonical)
    }
}

} // verus!
