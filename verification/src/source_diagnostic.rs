use crate::diagnostic_level::DiagnosticLevel;
use crate::source_excerpt::{SourceExcerpt, SourceExcerptView};
use vstd::prelude::*;
use vstd::string::StringExecFns;

verus! {

/// Structured source diagnostic with excerpts and inline annotations.
#[derive(Debug, Clone, PartialEq, Eq)]
pub struct SourceDiagnostic {
    /// Severity level of the diagnostic.
    pub level: DiagnosticLevel,
    /// Primary file associated with the diagnostic.
    pub file_path: String,
    /// User-facing summary message.
    pub message: String,
    /// Relevant excerpts that help explain the diagnostic.
    pub excerpts: Vec<SourceExcerpt>,
}

/// Specification view of a [`SourceDiagnostic`].
pub struct SourceDiagnosticView {
    pub level: DiagnosticLevel,
    pub file_path: Seq<char>,
    pub message: Seq<char>,
    pub excerpts: Seq<SourceExcerptView>,
}

impl View for SourceDiagnostic {
    type V = SourceDiagnosticView;

    open spec fn view(&self) -> SourceDiagnosticView {
        SourceDiagnosticView {
            level: self.level,
            file_path: self.file_path@,
            message: self.message@,
            excerpts: self.excerpts@.map_values(|e: SourceExcerpt| e@),
        }
    }
}

impl SourceDiagnostic {
    /// Creates a source diagnostic from its level, file path, and message.
    pub fn new(level: DiagnosticLevel, file_path: &str, message: &str) -> (diagnostic: Self)
        ensures
            diagnostic@ == (SourceDiagnosticView {
                level,
                file_path: file_path@,
                message: message@,
                excerpts: Seq::empty(),
            }),
    {
        let diagnostic = SourceDiagnostic {
            level,
            file_path: String::from_str(file_path),
            message: String::from_str(message),
            excerpts: Vec::new(),
        };
        assert(diagnostic@.excerpts =~= Seq::<SourceExcerptView>::empty());
        diagnostic
    }

    /// Returns this diagnostic with one appended excerpt.
    pub fn with_excerpt(self, excerpt: SourceExcerpt) -> (diagnostic: Self)
        ensures
            diagnostic@ == (SourceDiagnosticView {
                excerpts: self@.excerpts.push(excerpt@),
                ..self@
            }),
    {
        let mut diagnostic = self;
        diagnostic.excerpts.push(excerpt);
        assert(diagnostic@.excerpts =~= self@.excerpts.push(excerpt@));
        diagnostic
    }
}

} // verus!
