//! Workbook display configuration: reference mode and locale.

use vstd::prelude::*;

use crate::ops::Op;
use crate::runtime::{logged, WorkbookRuntime};

verus! {

/// How formula references are spelled to the user.
#[derive(Debug, Clone, Copy, PartialEq, Eq, Structural)]
pub enum ReferenceMode {
    A1,
    R1C1,
}

/// Formula input/display locale.
#[derive(Debug, Clone, Copy, PartialEq, Eq, Structural)]
pub enum Locale {
    EnUs,
    De,
    Fr,
}

impl WorkbookRuntime {
    /// Sets the workbook's reference mode. Setting the current mode is a
    /// no-op that records nothing. Returns the mode storage must switch to,
    /// or `None` when nothing changes.
    pub fn set_reference_mode(&mut self, current: ReferenceMode, mode: ReferenceMode) -> (r:
        Option<ReferenceMode>)
        ensures
            current == mode ==> r is None && final(self).recorded() == old(self).recorded(),
            current != mode ==> r == Some(mode) && logged(
                old(self).recorded(),
                final(self).recorded(),
                seq![Op::SetReferenceMode { mode }],
            ),
            final(self).has_graph() == old(self).has_graph(),
    {
        if current == mode {
            return None;
        }
        self.record(Op::SetReferenceMode { mode });
        Some(mode)
    }

    /// Sets the workbook's locale. Setting the current locale is a no-op that
    /// records nothing. Returns the locale storage must switch to, or `None`
    /// when nothing changes.
    pub fn set_locale(&mut self, current: Locale, locale: Locale) -> (r: Option<Locale>)
        ensures
            current == locale ==> r is None && final(self).recorded() == old(self).recorded(),
            current != locale ==> r == Some(locale) && logged(
                old(self).recorded(),
                final(self).recorded(),
                seq![Op::SetLocale { locale }],
            ),
            final(self).has_graph() == old(self).has_graph(),
    {
        if current == locale {
            return None;
        }
        self.record(Op::SetLocale { locale });
        Some(locale)
    }
}

} // verus!
