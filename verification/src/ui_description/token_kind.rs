use vstd::prelude::*;

verus! {

/// Token kinds produced by the UI description lexer.
#[derive(Debug, Clone, PartialEq, Eq)]
pub enum TokenKind {
    LessThan,
    GreaterThan,
    LessThanSlash,
    SlashGreaterThan,
    Equals,
    Identifier(String),
    StringLiteral(String),
}

/// Specification view of a [`TokenKind`].
pub enum TokenKindView {
    LessThan,
    GreaterThan,
    LessThanSlash,
    SlashGreaterThan,
    Equals,
    Identifier(Seq<char>),
    StringLiteral(Seq<char>),
}

impl View for TokenKind {
    type V = TokenKindView;

    open spec fn view(&self) -> TokenKindView {
        match self {
            TokenKind::LessThan => TokenKindView::LessThan,
            TokenKind::GreaterThan => TokenKindView::GreaterThan,
            TokenKind::LessThanSlash => TokenKindView::LessThanSlash,
            TokenKind::SlashGreaterThan => TokenKindView::SlashGreaterThan,
            TokenKind::Equals => TokenKindView::Equals,
            TokenKind::Identifier(s) => TokenKindView::Identifier(s@),
            TokenKind::StringLiteral(s) => TokenKindView::StringLiteral(s@),
        }
    }
}

impl TokenKind {
    /// Returns a copy of this token kind.
    pub fn duplicate(&self) -> (kind: Self)
        ensures
            kind@ == self@,
    {
        match self {
            TokenKind::LessThan => TokenKind::LessThan,
            TokenKind::GreaterThan => TokenKind::GreaterThan,
            TokenKind::LessThanSlash => TokenKind::LessThanSlash,
            TokenKind::SlashGreaterThan => TokenKind::SlashGreaterThan,
            TokenKind::Equals => TokenKind::Equals,
            TokenKind::Identifier(s) => TokenKind::Identifier(s.clone()),
            TokenKind::StringLiteral(s) => TokenKind::StringLiteral(s.clone()),
        }
    }
}

} // verus!
