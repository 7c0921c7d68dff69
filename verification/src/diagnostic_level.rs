use vstd::prelude::*;

verus! {

/// Severity level for a source diagnostic.
#[derive(Debug, Clone, Copy, PartialEq, Eq, Hash, Structural)]
pub enum DiagnosticLevel {
    Error,
    Warning,
}

} // verus!
