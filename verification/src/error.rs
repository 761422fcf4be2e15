//! What can go wrong at the edges: enumerating displays, applying a setting
//! to one monitor, reading or writing the stored configuration. Every
//! failure becomes a value that can be shown; none ends the session.

use vstd::prelude::*;
use vstd::string::StringExecFns;

verus! {

/// The display driver could not be queried at all.
#[derive(Debug, Clone)]
pub struct EnumerationError {
    pub detail: String,
}

/// The stored configuration could not be read or written.
#[derive(Debug, Clone)]
pub struct PersistError {
    pub detail: String,
}

/// Which driver call failed.
#[derive(Debug, Clone, Copy, PartialEq, Eq, Structural)]
pub enum ApplyKind {
    Resolution,
    Orientation,
    Revert,
}

/// One monitor refused one change. The other monitors are not affected.
#[derive(Debug, Clone)]
pub struct ApplyError {
    pub kind: ApplyKind,
    /// The user-facing name of the monitor.
    pub monitor_name: String,
    /// What the driver said, unchanged.
    pub detail: String,
}

impl ApplyKind {
    /// The word that opens the report of a failure of this kind.
    pub open spec fn label(self) -> Seq<char> {
        match self {
            ApplyKind::Resolution => "Res "@,
            ApplyKind::Orientation => "Orient "@,
            ApplyKind::Revert => "Revert "@,
        }
    }

    pub fn prefix(self) -> (text: &'static str)
        ensures
            text@ == self.label(),
    {
        match self {
            ApplyKind::Resolution => "Res ",
            ApplyKind::Orientation => "Orient ",
            ApplyKind::Revert => "Revert ",
        }
    }
}

impl ApplyError {
    /// The report as one line: kind, monitor name, a colon and the driver's
    /// words.
    pub open spec fn text(&self) -> Seq<char> {
        self.kind.label() + self.monitor_name@ + ": "@ + self.detail@
    }

    pub fn message(&self) -> (text: String)
        ensures
            text@ == self.text(),
    {
        let mut text = String::from_str(self.kind.prefix());
        text.append(self.monitor_name.as_str());
        text.append(": ");
        text.append(self.detail.as_str());
        text
    }
}

impl EnumerationError {
    pub fn message(&self) -> (text: String)
        ensures
            text@ == self.detail@,
    {
        self.detail.clone()
    }
}

impl PersistError {
    pub fn message(&self) -> (text: String)
        ensures
            text@ == self.detail@,
    {
        self.detail.clone()
    }
}

/// The report lines of a list of failures, in order.
pub open spec fn report_lines(errors: Seq<ApplyError>) -> Seq<Seq<char>> {
    errors.map_values(|e: ApplyError| e.text())
}

} // verus!
