use crate::span::Span;
use crate::ui_description::token_kind::{TokenKind, TokenKindView};
use vstd::prelude::*;

verus! {

/// Single token with its source span.
#[derive(Debug, Clone, PartialEq, Eq)]
pub struct Token {
    pub kind: TokenKind,
    pub span: Span,
}

/// Specification view of a [`Token`].
pub struct TokenView {
    pub kind: TokenKindView,
    pub span: (usize, usize),
}

impl View for Token {
    type V = TokenView;

    open spec fn view(&self) -> TokenView {
        TokenView { kind: self.kind@, span: self.span@ }
    }
}

impl Token {
    /// Returns a copy of this token.
    pub fn duplicate(&self) -> (token: Self)
        ensures
            token@ == self@,
    {
        Token { kind: self.kind.duplicate(), span: self.span }
    }
}

/// The views of a sequence of tokens.
pub open spec fn tokens_view(tokens: Seq<Token>) -> Seq<TokenView> {
    tokens.map_values(|t: Token| t@)
}

} // verus!
