use vstd::prelude::*;
use vstd::string::StringExecFns;

verus! {

/// Source file contents together with their logical path.
#[derive(Debug, Clone, PartialEq, Eq, Default)]
pub struct SourceFile {
    pub path: String,
    pub source: String,
}

/// Specification view of a [`SourceFile`].
pub struct SourceFileView {
    pub path: Seq<char>,
    pub source: Seq<char>,
}

impl View for SourceFile {
    type V = SourceFileView;

    open spec fn view(&self) -> SourceFileView {
        SourceFileView { path: self.path@, source: self.source@ }
    }
}

impl SourceFile {
    /// Creates a source file from its path and source contents.
    pub fn new(path: &str, source: &str) -> (file: Self)
        ensures
            file@ == (SourceFileView { path: path@, source: source@ }),
    {
        SourceFile { path: String::from_str(path), source: String::from_str(source) }
    }

    /// Returns the source contents as a string slice.
    pub fn source(&self) -> (source: &str)
        ensures
            source@ == self@.source,
    {
        self.source.as_str()
    }
}

} // verus!
