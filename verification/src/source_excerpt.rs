use crate::source_annotation::{SourceAnnotation, SourceAnnotationView};
use vstd::prelude::*;
use vstd::string::StringExecFns;

verus! {

/// One rendered source line plus inline annotations.
#[derive(Debug, Clone, PartialEq, Eq)]
pub struct SourceExcerpt {
    /// Logical path for the excerpted source line.
    pub file_path: String,
    /// One-based line number in the source file.
    pub line_number: usize,
    /// Full source line text.
    pub source_line: String,
    /// Span annotations attached to this line.
    pub annotations: Vec<SourceAnnotation>,
}

/// Specification view of a [`SourceExcerpt`].
pub struct SourceExcerptView {
    pub file_path: Seq<char>,
    pub line_number: usize,
    pub source_line: Seq<char>,
    pub annotations: Seq<SourceAnnotationView>,
}

impl View for SourceExcerpt {
    type V = SourceExcerptView;

    open spec fn view(&self) -> SourceExcerptView {
        SourceExcerptView {
            file_path: self.file_path@,
            line_number: self.line_number,
            source_line: self.source_line@,
            annotations: self.annotations@.map_values(|a: SourceAnnotation| a@),
        }
    }
}

impl SourceExcerpt {
    /// Creates a source excerpt from its file path, line number, and source text.
    pub fn new(file_path: &str, line_number: usize, source_line: &str) -> (excerpt: Self)
        ensures
            excerpt@ == (SourceExcerptView {
                file_path: file_path@,
                line_number,
                source_line: source_line@,
                annotations: Seq::empty(),
            }),
    {
        let excerpt = SourceExcerpt {
            file_path: String::from_str(file_path),
            line_number,
            source_line: String::from_str(source_line),
            annotations: Vec::new(),
        };
        assert(excerpt@.annotations =~= Seq::<SourceAnnotationView>::empty());
        excerpt
    }

    /// Returns this excerpt with one appended annotation.
    pub fn with_annotation(self, annotation: SourceAnnotation) -> (excerpt: Self)
        ensures
            excerpt@ == (SourceExcerptView {
                annotations: self@.annotations.push(annotation@),
                ..self@
            }),
    {
        let mut excerpt = self;
        excerpt.annotations.push(annotation);
        assert(excerpt@.annotations =~= self@.annotations.push(annotation@));
        excerpt
    }
}

} // verus!
