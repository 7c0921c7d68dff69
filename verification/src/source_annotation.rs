use crate::span::Span;
use vstd::prelude::*;
use vstd::string::StringExecFns;

verus! {

/// Message attached to one highlighted source span.
#[derive(Debug, Clone, PartialEq, Eq)]
pub struct SourceAnnotation {
    /// Byte span highlighted by this annotation.
    pub span: Span,
    /// User-facing annotation message.
    pub message: String,
}

/// Specification view of a [`SourceAnnotation`].
pub struct SourceAnnotationView {
    pub span: (usize, usize),
    pub message: Seq<char>,
}

impl View for SourceAnnotation {
    type V = SourceAnnotationView;

    open spec fn view(&self) -> SourceAnnotationView {
        SourceAnnotationView { span: self.span@, message: self.message@ }
    }
}

impl SourceAnnotation {
    /// Creates a source annotation from its span and message.
    pub fn new(span: Span, message: &str) -> (annotation: Self)
        ensures
            annotation@ == (SourceAnnotationView { span: span@, message: message@ }),
    {
        SourceAnnotation { span, message: String::from_str(message) }
    }
}

} // verus!
