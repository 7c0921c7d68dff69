use vstd::prelude::*;

verus! {

/// Compilation stage that can report expected source-level failures.
#[derive(Debug, Clone, Copy, PartialEq, Eq, Hash, Structural)]
pub enum CompilationStage {
    Lexer,
    Parser,
    Resolver,
}

/// The lowercase name under which a stage is displayed.
pub open spec fn stage_name(stage: CompilationStage) -> Seq<char> {
    match stage {
        CompilationStage::Lexer => "lexer"@,
        CompilationStage::Parser => "parser"@,
        CompilationStage::Resolver => "resolver"@,
    }
}

impl CompilationStage {
    /// Returns the lowercase display name of the stage.
    pub fn to_string(&self) -> (name: String)
        ensures
            name@ == stage_name(*self),
    {
        match self {
            CompilationStage::Lexer => String::from_str("lexer"),
            CompilationStage::Parser => String::from_str("parser"),
            CompilationStage::Resolver => String::from_str("resolver"),
        }
    }
}

} // verus!
