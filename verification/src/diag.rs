//! Structured diagnostics.
//!
//! Every error the generator can detect is static: a malformed annotation,
//! a contradictory directive set, or a reference to an undeclared view.
//! Each diagnostic carries its kind, the offending identifier where one
//! exists, and the source location to report it at.

use vstd::prelude::*;
use vstd::string::StringExecFns;

verus! {

/// The kind of a diagnostic.
#[derive(Clone, Copy, PartialEq, Eq, Structural, Debug)]
pub enum DiagKind {
    /// An annotation that is not a list `category(arg, ...)`.
    NotAList,
    /// A directive argument written as a multi-segment path.
    MultiSegment,
    /// An annotation category other than `hide`, `show` or `optional`.
    UnknownCategory,
    /// A `hide` block after a `show` block, or the reverse, on one field.
    DoubleOverride,
    /// The same pseudonym named in both `show` and `hide` for one field.
    ShowHideConflict,
    /// The same pseudonym named in both `hide` and `optional` for one field.
    HideOptionalConflict,
    /// A directive pseudonym with no declared view mapping.
    UndeclaredView,
}

/// One diagnostic: its kind, the identifier it names (the offending
/// pseudonym, category or field; empty where the kind names none), and
/// the source location it is reported at.
#[derive(Debug)]
pub struct Diagnostic {
    pub kind: DiagKind,
    pub name: String,
    pub loc: u64,
}

/// Mathematical model of a diagnostic.
pub ghost struct DiagModel {
    pub kind: DiagKind,
    pub name: Seq<char>,
    pub loc: u64,
}

impl View for Diagnostic {
    type V = DiagModel;

    open spec fn view(&self) -> DiagModel {
        DiagModel { kind: self.kind, name: self.name@, loc: self.loc }
    }
}

/// The message text of a diagnostic of kind `kind` naming `name`.
pub open spec fn message_of(kind: DiagKind, name: Seq<char>) -> Seq<char> {
    match kind {
        DiagKind::NotAList => "expected a directive list"@,
        DiagKind::MultiSegment => "expected single-segment identifier"@,
        DiagKind::UnknownCategory => "unknown directive: "@ + name,
        DiagKind::DoubleOverride => "conflicting visibility declarations for field "@ + name,
        DiagKind::ShowHideConflict => "conflicting show/hide for "@ + name,
        DiagKind::HideOptionalConflict => "conflicting hide/optional for "@ + name,
        DiagKind::UndeclaredView => "undeclared view: "@ + name,
    }
}

impl Diagnostic {
    /// Render the human-readable message of this diagnostic.
    pub fn message(&self) -> (r: String)
        ensures
            r@ == message_of(self.kind, self.name@),
    {
        match self.kind {
            DiagKind::NotAList => "expected a directive list".to_owned(),
            DiagKind::MultiSegment => "expected single-segment identifier".to_owned(),
            DiagKind::UnknownCategory => {
                let mut m = "unknown directive: ".to_owned();
                m.append(self.name.as_str());
                m
            },
            DiagKind::DoubleOverride => {
                let mut m = "conflicting visibility declarations for field ".to_owned();
                m.append(self.name.as_str());
                m
            },
            DiagKind::ShowHideConflict => {
                let mut m = "conflicting show/hide for ".to_owned();
                m.append(self.name.as_str());
                m
            },
            DiagKind::HideOptionalConflict => {
                let mut m = "conflicting hide/optional for ".to_owned();
                m.append(self.name.as_str());
                m
            },
            DiagKind::UndeclaredView => {
                let mut m = "undeclared view: ".to_owned();
                m.append(self.name.as_str());
                m
            },
        }
    }
}

} // verus!
