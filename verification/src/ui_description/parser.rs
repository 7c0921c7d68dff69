//! Parser for the JSX-like UI description language.
use crate::error::{ErrorKindView, PixuiError, PixuiErrorView, root_error};
use crate::source_file::{SourceFile, SourceFileView};
use crate::span::Span;
use crate::text::{bytes_of, decimal, push_decimal, push_str, utf8};
use crate::ui_description::ast::ui_element::{UiElement, UiElementView, element_view};
use crate::ui_description::ast::ui_property::{UiProperty, UiPropertyView};
use crate::ui_description::lexer::{lex, lex_result, lex_source_file, lexable};
use crate::ui_description::token::{Token, TokenView, tokens_view};
use crate::ui_description::token_kind::{TokenKind, TokenKindView};
use vstd::prelude::*;
use vstd::string::StringExecFns;

verus! {

/// Punctuation tokens that the parser expects at fixed places.
#[derive(Clone, Copy)]
pub enum Punctuation {
    LessThan,
    GreaterThan,
    LessThanSlash,
    Equals,
}

/// `kind` is the punctuation token `p`.
pub open spec fn is_punctuation(kind: TokenKindView, p: Punctuation) -> bool {
    match p {
        Punctuation::LessThan => kind is LessThan,
        Punctuation::GreaterThan => kind is GreaterThan,
        Punctuation::LessThanSlash => kind is LessThanSlash,
        Punctuation::Equals => kind is Equals,
    }
}

/// The text of an identifier or string literal token.
pub open spec fn token_text(kind: TokenKindView) -> Seq<char> {
    match kind {
        TokenKindView::Identifier(s) => s,
        TokenKindView::StringLiteral(s) => s,
        _ => Seq::empty(),
    }
}

/// The message for a failed expectation at `pos`: the byte where the
/// offending token starts is appended, unless the tokens ran out.
pub open spec fn expectation_failure(t: Seq<TokenView>, pos: int, message: Seq<char>) -> Seq<char> {
    if 0 <= pos < t.len() {
        message + " at byte "@ + decimal(t[pos].span.0 as nat)
    } else {
        message
    }
}

/// Consumes the punctuation `p` at `pos`: its span and the next position.
pub open spec fn expect_punctuation(
    t: Seq<TokenView>,
    pos: int,
    p: Punctuation,
    message: Seq<char>,
) -> Result<((usize, usize), int), Seq<char>> {
    if 0 <= pos < t.len() && is_punctuation(t[pos].kind, p) {
        Ok((t[pos].span, pos + 1))
    } else {
        Err(expectation_failure(t, pos, message))
    }
}

/// Consumes an identifier token at `pos`.
pub open spec fn expect_identifier(t: Seq<TokenView>, pos: int, message: Seq<char>) -> Result<
    (TokenView, int),
    Seq<char>,
> {
    if 0 <= pos < t.len() && t[pos].kind is Identifier {
        Ok((t[pos], pos + 1))
    } else {
        Err(expectation_failure(t, pos, message))
    }
}

/// Consumes a string literal token at `pos`.
pub open spec fn expect_string_literal(t: Seq<TokenView>, pos: int, message: Seq<char>) -> Result<
    (TokenView, int),
    Seq<char>,
> {
    if 0 <= pos < t.len() && t[pos].kind is StringLiteral {
        Ok((t[pos], pos + 1))
    } else {
        Err(expectation_failure(t, pos, message))
    }
}

/// Parses `name = "value"` at `pos`.
pub open spec fn parse_property(t: Seq<TokenView>, pos: int) -> Result<(UiPropertyView, int), Seq<char>> {
    match expect_identifier(t, pos, "Expected a property name"@) {
        Err(m) => Err(m),
        Ok((name, p1)) => match expect_punctuation(
            t,
            p1,
            Punctuation::Equals,
            "Expected `=` after a property name"@,
        ) {
            Err(m) => Err(m),
            Ok((_, p2)) => match expect_string_literal(t, p2, "Expected a string literal after `=`"@) {
                Err(m) => Err(m),
                Ok((value, p3)) => Ok(
                    (
                        UiPropertyView {
                            name: token_text(name.kind),
                            value: token_text(value.kind),
                            span: (name.span.0, value.span.1),
                        },
                        p3,
                    ),
                ),
            },
        },
    }
}

/// Parses the properties that follow a tag name: as long as an identifier comes next.
pub open spec fn parse_properties(t: Seq<TokenView>, pos: int) -> Result<
    (Seq<UiPropertyView>, int),
    Seq<char>,
>
    decreases t.len() - pos,
{
    if 0 <= pos < t.len() && t[pos].kind is Identifier {
        match parse_property(t, pos) {
            Err(m) => Err(m),
            Ok((property, q)) => match parse_properties(t, q) {
                Err(m) => Err(m),
                Ok((rest, r)) => Ok((seq![property] + rest, r)),
            },
        }
    } else {
        Ok((Seq::empty(), pos))
    }
}

/// The message for a closing tag that does not match its opening tag.
pub open spec fn mismatched_closing_tag(tag: Seq<char>, closing: Seq<char>) -> Seq<char> {
    "Mismatched closing tag: expected `</"@ + tag + ">` but found `</"@ + closing + ">`"@
}

/// Parses the element that starts at `pos`: the element and the position after it.
pub open spec fn parse_element(t: Seq<TokenView>, pos: int) -> Result<(UiElementView, int), Seq<char>>
    decreases t.len() - pos, 0int,
{
    match expect_punctuation(t, pos, Punctuation::LessThan, "Expected `<` to start an element"@) {
        Err(m) => Err(m),
        Ok((start_span, p1)) => match expect_identifier(t, p1, "Expected a tag name after `<`"@) {
            Err(m) => Err(m),
            Ok((tag_token, p2)) => {
                let tag = token_text(tag_token.kind);
                match parse_properties(t, p2) {
                    Err(m) => Err(m),
                    Ok((properties, p3)) => if 0 <= p3 < t.len() && t[p3].kind is SlashGreaterThan {
                        Ok(
                            (
                                UiElementView {
                                    tag_name: tag,
                                    properties,
                                    children: Seq::empty(),
                                    span: (start_span.0, t[p3].span.1),
                                },
                                p3 + 1,
                            ),
                        )
                    } else {
                        match expect_punctuation(
                            t,
                            p3,
                            Punctuation::GreaterThan,
                            "Expected `>` or `/>` after an opening tag"@,
                        ) {
                            Err(m) => Err(m),
                            Ok((_, p4)) => if pos < p4 <= t.len() {
                                match parse_children(t, p4, tag) {
                                    Err(m) => Err(m),
                                    Ok((children, p5)) => match expect_punctuation(
                                        t,
                                        p5,
                                        Punctuation::LessThanSlash,
                                        "Expected `</` to close the element"@,
                                    ) {
                                        Err(m) => Err(m),
                                        Ok((_, p6)) => match expect_identifier(
                                            t,
                                            p6,
                                            "Expected a tag name after `</`"@,
                                        ) {
                                            Err(m) => Err(m),
                                            Ok((closing_token, p7)) => {
                                                let closing = token_text(closing_token.kind);
                                                if closing != tag {
                                                    Err(mismatched_closing_tag(tag, closing))
                                                } else {
                                                    match expect_punctuation(
                                                        t,
                                                        p7,
                                                        Punctuation::GreaterThan,
                                                        "Expected `>` after a closing tag"@,
                                                    ) {
                                                        Err(m) => Err(m),
                                                        Ok((end_span, p8)) => Ok(
                                                            (
                                                                UiElementView {
                                                                    tag_name: tag,
                                                                    properties,
                                                                    children,
                                                                    span: (start_span.0, end_span.1),
                                                                },
                                                                p8,
                                                            ),
                                                        ),
                                                    }
                                                }
                                            },
                                        },
                                    },
                                }
                            } else {
                                // the opening tag always consumes tokens
                                Err(Seq::empty())
                            },
                        }
                    },
                }
            },
        },
    }
}

/// Parses the children of an element named `tag`, up to its closing `</`.
pub open spec fn parse_children(t: Seq<TokenView>, pos: int, tag: Seq<char>) -> Result<
    (Seq<UiElementView>, int),
    Seq<char>,
>
    decreases t.len() - pos, 1int,
{
    if pos < 0 || pos >= t.len() {
        Err("Missing closing tag for `<"@ + tag + ">`"@)
    } else {
        match t[pos].kind {
            TokenKindView::LessThan => match parse_element(t, pos) {
                Err(m) => Err(m),
                Ok((child, q)) => if pos < q <= t.len() {
                    match parse_children(t, q, tag) {
                        Err(m) => Err(m),
                        Ok((rest, r)) => Ok((seq![child] + rest, r)),
                    }
                } else {
                    // an element always consumes tokens
                    Err(Seq::empty())
                },
            },
            TokenKindView::LessThanSlash => Ok((Seq::empty(), pos)),
            _ => Err(
                "Unexpected token inside `<"@ + tag + ">` at byte "@ + decimal(
                    t[pos].span.0 as nat,
                ),
            ),
        }
    }
}

/// Parses a whole token sequence into one element; tokens left over are an error.
pub open spec fn parse_tokens(t: Seq<TokenView>) -> Result<UiElementView, Seq<char>> {
    match parse_element(t, 0) {
        Err(m) => Err(m),
        Ok((element, p)) => if 0 <= p < t.len() {
            Err("Unexpected trailing token at byte "@ + decimal(t[p].span.0 as nat))
        } else {
            Ok(element)
        },
    }
}

/// What parsing a token sequence gives, with failures as message errors.
pub open spec fn parse_result(t: Seq<TokenView>) -> Result<UiElementView, PixuiErrorView> {
    match parse_tokens(t) {
        Ok(element) => Ok(element),
        Err(m) => Err(root_error(ErrorKindView::Message(m), None)),
    }
}

/// What parsing a UI description file gives: lexing errors first, then parsing errors.
pub open spec fn parse_file_result(file: SourceFileView) -> Result<UiElementView, PixuiErrorView> {
    match lex_result(file) {
        Err(e) => Err(e),
        Ok(t) => parse_result(t),
    }
}

/// Token spans that are non-empty, in order and disjoint.
pub open spec fn tokens_ordered(t: Seq<TokenView>) -> bool {
    &&& forall|k: int| 0 <= k < t.len() ==> (#[trigger] t[k]).span.0 < t[k].span.1
    &&& forall|a: int, c: int| 0 <= a < c < t.len() ==> (#[trigger] t[a]).span.1 <= (#[trigger] t[c]).span.0
}

/// An element whose span holds its properties and then its children, each
/// non-empty, in order and disjoint, strictly inside its own span, and
/// whose children are nested in the same way.
pub open spec fn well_nested(e: UiElementView) -> bool
    decreases e,
{
    let ps = e.properties;
    let cs = e.children;
    &&& e.span.0 < e.span.1
    &&& forall|k: int| 0 <= k < ps.len() ==> e.span.0 < (#[trigger] ps[k]).span.0 < ps[k].span.1 < e.span.1
    &&& forall|a: int, c: int| 0 <= a < c < ps.len() ==> (#[trigger] ps[a]).span.1 <= (#[trigger] ps[c]).span.0
    &&& forall|k: int|
        0 <= k < cs.len() ==> e.span.0 < (#[trigger] cs[k]).span.0 && cs[k].span.1 < e.span.1 && well_nested(
            cs[k],
        )
    &&& forall|a: int, c: int| 0 <= a < c < cs.len() ==> (#[trigger] cs[a]).span.1 <= (#[trigger] cs[c]).span.0
    &&& forall|a: int, c: int|
        0 <= a < ps.len() && 0 <= c < cs.len() ==> (#[trigger] ps[a]).span.1 <= (#[trigger] cs[c]).span.0
}

/// The properties parsed from `pos` lie, in order and disjoint, within the
/// tokens they were parsed from.
pub proof fn lemma_properties_nest(t: Seq<TokenView>, pos: int)
    requires
        tokens_ordered(t),
        0 <= pos <= t.len(),
        parse_properties(t, pos) is Ok,
    ensures
        ({
            let (ps, r) = parse_properties(t, pos)->Ok_0;
            &&& pos <= r <= t.len()
            &&& ps.len() > 0 ==> pos < r
            &&& forall|k: int|
                0 <= k < ps.len() ==> t[pos].span.0 <= (#[trigger] ps[k]).span.0 < ps[k].span.1 <= t[r - 1].span.1
            &&& forall|a: int, c: int| 0 <= a < c < ps.len() ==> (#[trigger] ps[a]).span.1 <= (#[trigger] ps[c]).span.0
        }),
    decreases t.len() - pos,
{
    if 0 <= pos < t.len() && t[pos].kind is Identifier {
        let (property, q) = parse_property(t, pos)->Ok_0;
        assert(q == pos + 3);
        lemma_properties_nest(t, q);
        let (rest, r) = parse_properties(t, q)->Ok_0;
        let ps = parse_properties(t, pos)->Ok_0.0;
        assert(ps == seq![property] + rest);
        assert(t[pos].span.1 <= t[pos + 2].span.0);
        if r - 1 > pos + 2 {
            assert(t[pos + 2].span.1 <= t[r - 1].span.0);
        }
        assert forall|k: int| 0 <= k < ps.len() implies t[pos].span.0 <= (#[trigger] ps[k]).span.0
            < ps[k].span.1 <= t[r - 1].span.1 by {
            if k > 0 {
                assert(ps[k] == rest[k - 1]);
                assert(t[pos].span.1 <= t[q].span.0);
            }
        }
        assert forall|a: int, c: int| 0 <= a < c < ps.len() implies (#[trigger] ps[a]).span.1
            <= (#[trigger] ps[c]).span.0 by {
            assert(ps[c] == rest[c - 1]);
            if a > 0 {
                assert(ps[a] == rest[a - 1]);
            } else {
                assert(t[pos + 2].span.1 <= t[q].span.0);
            }
        }
    }
}

/// An element parsed from `pos` spans from its first to its last token and
/// is well nested.
pub proof fn lemma_element_nests(t: Seq<TokenView>, pos: int)
    requires
        tokens_ordered(t),
        0 <= pos,
        parse_element(t, pos) is Ok,
    ensures
        ({
            let (e, q) = parse_element(t, pos)->Ok_0;
            &&& pos < q <= t.len()
            &&& e.span == (t[pos].span.0, t[q - 1].span.1)
            &&& well_nested(e)
        }),
    decreases t.len() - pos, 0int,
{
    let p1 = pos + 1;
    let p2 = pos + 2;
    lemma_properties_nest(t, p2);
    let (ps, p3) = parse_properties(t, p2)->Ok_0;
    let (e, q) = parse_element(t, pos)->Ok_0;
    assert(t[pos].span.1 <= t[p2].span.0);
    if p3 > p2 {
        assert(t[pos].span.0 < t[p2].span.0);
    }
    if 0 <= p3 < t.len() && t[p3].kind is SlashGreaterThan {
        assert(q == p3 + 1);
        if p3 - 1 >= p2 {
            assert(t[p3 - 1].span.1 <= t[p3].span.0);
        }
        assert(e.children =~= Seq::<UiElementView>::empty());
        assert(t[pos].span.1 <= t[p3].span.0);
    } else {
        let p4 = p3 + 1;
        lemma_children_nest(t, p4, token_text(t[p1].kind));
        let (cs, p5) = parse_children(t, p4, token_text(t[p1].kind))->Ok_0;
        let p8 = p5 + 3;
        assert(q == p8);
        assert(t[pos].span.1 <= t[p4].span.0);
        assert(t[p5].span.1 <= t[p8 - 1].span.0);
        assert(t[p3].span.1 <= t[p4].span.0);
        if p3 - 1 >= p2 {
            assert(t[p3 - 1].span.1 <= t[p3].span.0);
        }
        assert(t[p3].span.1 <= t[p5].span.0 || p3 == p5);
        assert forall|a: int, c: int| 0 <= a < ps.len() && 0 <= c < cs.len() implies (#[trigger] ps[a]).span.1
            <= (#[trigger] cs[c]).span.0 by {
            assert(cs[c].span.0 >= t[p4].span.0);
        }
        assert forall|k: int| 0 <= k < ps.len() implies e.span.0 < (#[trigger] ps[k]).span.0 < ps[k].span.1
            < e.span.1 by {
            assert(t[p3].span.0 < t[p3].span.1);
            assert(t[p3].span.1 <= t[p8 - 1].span.0);
        }
        assert forall|k: int| 0 <= k < cs.len() implies e.span.0 < (#[trigger] cs[k]).span.0 && cs[k].span.1
            < e.span.1 && well_nested(cs[k]) by {
            assert(t[p5].span.0 < t[p5].span.1);
        }
    }
}

/// The children parsed from `pos` lie, in order and disjoint, between the
/// token at `pos` and the closing token where they end, and are well nested.
pub proof fn lemma_children_nest(t: Seq<TokenView>, pos: int, tag: Seq<char>)
    requires
        tokens_ordered(t),
        0 <= pos,
        parse_children(t, pos, tag) is Ok,
    ensures
        ({
            let (cs, r) = parse_children(t, pos, tag)->Ok_0;
            &&& pos <= r < t.len()
            &&& forall|k: int|
                0 <= k < cs.len() ==> t[pos].span.0 <= (#[trigger] cs[k]).span.0 && cs[k].span.1 <= t[r].span.0
                    && well_nested(cs[k])
            &&& forall|a: int, c: int| 0 <= a < c < cs.len() ==> (#[trigger] cs[a]).span.1 <= (#[trigger] cs[c]).span.0
        }),
    decreases t.len() - pos, 1int,
{
    if t[pos].kind is LessThan {
        lemma_element_nests(t, pos);
        let (child, q) = parse_element(t, pos)->Ok_0;
        lemma_children_nest(t, q, tag);
        let (rest, r) = parse_children(t, q, tag)->Ok_0;
        let cs = parse_children(t, pos, tag)->Ok_0.0;
        assert(cs == seq![child] + rest);
        assert(t[q - 1].span.1 <= t[r].span.0);
        if q < t.len() {
            assert(t[pos].span.0 < t[q].span.0);
            assert(t[q - 1].span.1 <= t[q].span.0 || q - 1 == q);
        }
        assert forall|k: int| 0 <= k < cs.len() implies t[pos].span.0 <= (#[trigger] cs[k]).span.0
            && cs[k].span.1 <= t[r].span.0 && well_nested(cs[k]) by {
            if k > 0 {
                assert(cs[k] == rest[k - 1]);
            }
        }
        assert forall|a: int, c: int| 0 <= a < c < cs.len() implies (#[trigger] cs[a]).span.1
            <= (#[trigger] cs[c]).span.0 by {
            assert(cs[c] == rest[c - 1]);
            if a > 0 {
                assert(cs[a] == rest[a - 1]);
            } else {
                assert(t[q - 1].span.1 <= t[q].span.0);
            }
        }
    }
}

/// A parsed UI description file is one element that lies within the
/// file's bytes, with properties and children nested inside it in order
/// and without overlapping.
pub proof fn law_parsed_elements_nest(file: SourceFileView)
    requires
        lexable(file),
        parse_file_result(file) is Ok,
    ensures
        well_nested(parse_file_result(file)->Ok_0),
        parse_file_result(file)->Ok_0.span.1 <= utf8(file.source).len(),
{
    crate::ui_description::lexer::law_lexed_tokens_are_ordered(file);
    let t = lex_result(file)->Ok_0;
    lemma_element_nests(t, 0);
}

/// An element parsed from `pos` ends within the tokens.
pub proof fn lemma_element_ends_within(t: Seq<TokenView>, pos: int)
    requires
        parse_element(t, pos) is Ok,
    ensures
        parse_element(t, pos)->Ok_0.1 <= t.len(),
{
}

/// A description parses only as one element that consumes every token:
/// the parse gives exactly the element that starts at the first token, and
/// parsing that element stops at the end of the tokens; an element that
/// leaves tokens behind makes the parse fail.
pub proof fn law_parse_consumes_every_token(t: Seq<TokenView>)
    ensures
        parse_tokens(t) is Ok ==> {
            &&& parse_element(t, 0) is Ok
            &&& parse_element(t, 0)->Ok_0.1 == t.len()
            &&& parse_tokens(t)->Ok_0 == parse_element(t, 0)->Ok_0.0
        },
        (parse_element(t, 0) is Ok && parse_element(t, 0)->Ok_0.1 < t.len()) ==> parse_tokens(t) is Err,
{
    if parse_element(t, 0) is Ok {
        lemma_element_ends_within(t, 0);
    }
}

/// Parses a UI description held in a string.
pub fn parse_ui_description(source: &str) -> (element: Result<UiElement, PixuiError>)
    requires
        bytes_of(source).len() < usize::MAX,
    ensures
        match (element, parse_file_result(SourceFileView { path: "<ui_description>"@, source: source@ })) {
            (Ok(e), Ok(expected)) => e@ == expected,
            (Err(e), Err(expected)) => e@ == expected,
            _ => false,
        },
{
    let tokens = match lex(source) {
        Ok(tokens) => tokens,
        Err(error) => return Err(error),
    };
    Parser::new(tokens).parse()
}

/// Parses a UI description source file.
pub fn parse_ui_description_source_file(source_file: &SourceFile) -> (element: Result<UiElement, PixuiError>)
    requires
        lexable(source_file@),
    ensures
        match (element, parse_file_result(source_file@)) {
            (Ok(e), Ok(expected)) => e@ == expected,
            (Err(e), Err(expected)) => e@ == expected,
            _ => false,
        },
{
    let tokens = match lex_source_file(source_file) {
        Ok(tokens) => tokens,
        Err(error) => return Err(error),
    };
    Parser::new(tokens).parse()
}

/// The message error for a failed expectation.
fn failure(message: &str, t: &Vec<Token>, pos: usize) -> (error: PixuiError)
    ensures
        error@ == root_error(
            ErrorKindView::Message(expectation_failure(tokens_view(t@), pos as int, message@)),
            None,
        ),
{
    let mut text = String::from_str(message);
    if pos < t.len() {
        push_str(&mut text, " at byte ");
        push_decimal(&mut text, t[pos].span.start());
    }
    PixuiError::message_string(text)
}

/// Parser for the JSX-like UI description language.
pub struct Parser {
    tokens: Vec<Token>,
    position: usize,
}

impl Parser {
    /// The views of the tokens being parsed.
    pub closed spec fn tokens(&self) -> Seq<TokenView> {
        tokens_view(self.tokens@)
    }

    /// The index of the next token.
    pub closed spec fn position(&self) -> usize {
        self.position
    }

    /// Creates a parser at the first of `tokens`.
    pub fn new(tokens: Vec<Token>) -> (parser: Self)
        ensures
            parser.tokens() == tokens_view(tokens@),
            parser.position() == 0,
    {
        Parser { tokens, position: 0 }
    }

    /// Parses the tokens into one element.
    pub fn parse(self) -> (element: Result<UiElement, PixuiError>)
        requires
            self.position() == 0,
        ensures
            match (element, parse_result(self.tokens())) {
                (Ok(e), Ok(expected)) => e@ == expected,
                (Err(e), Err(expected)) => e@ == expected,
                _ => false,
            },
    {
        let mut parser = self;
        let element = match parser.parse_element() {
            Ok(element) => element,
            Err(error) => return Err(error),
        };
        if parser.position < parser.tokens.len() {
            let mut text = String::from_str("Unexpected trailing token at byte ");
            push_decimal(&mut text, parser.tokens[parser.position].span.start());
            return Err(PixuiError::message_string(text));
        }
        Ok(element)
    }

    /// The next token is an identifier.
    fn at_identifier(&self) -> (r: bool)
        ensures
            r == (self.position < self.tokens@.len() && self.tokens()[self.position as int].kind is Identifier),
    {
        self.position < self.tokens.len() && match &self.tokens[self.position].kind {
            TokenKind::Identifier(_) => true,
            _ => false,
        }
    }

    /// The next token is `<`.
    fn at_less_than(&self) -> (r: bool)
        ensures
            r == (self.position < self.tokens@.len() && self.tokens()[self.position as int].kind is LessThan),
    {
        self.position < self.tokens.len() && match &self.tokens[self.position].kind {
            TokenKind::LessThan => true,
            _ => false,
        }
    }

    /// Consumes the punctuation `p`, returning its span.
    fn expect_punctuation(&mut self, p: Punctuation, message: &str) -> (span: Result<Span, PixuiError>)
        ensures
            final(self).tokens@ == old(self).tokens@,
            match (span, expect_punctuation(old(self).tokens(), old(self).position as int, p, message@)) {
                (Ok(s), Ok((expected, next))) => s@ == expected && final(self).position == next,
                (Err(e), Err(m)) => e@ == root_error(ErrorKindView::Message(m), None),
                _ => false,
            },
    {
        let pos = self.position;
        if pos < self.tokens.len() {
            let matches = match (&self.tokens[pos].kind, p) {
                (TokenKind::LessThan, Punctuation::LessThan) => true,
                (TokenKind::GreaterThan, Punctuation::GreaterThan) => true,
                (TokenKind::LessThanSlash, Punctuation::LessThanSlash) => true,
                (TokenKind::Equals, Punctuation::Equals) => true,
                _ => false,
            };
            if matches {
                self.position = pos + 1;
                return Ok(self.tokens[pos].span);
            }
        }
        Err(failure(message, &self.tokens, pos))
    }

    /// Consumes an identifier or, when `literal` is set, a string literal token.
    fn expect_text_token(&mut self, literal: bool, message: &str) -> (token: Result<Token, PixuiError>)
        ensures
            final(self).tokens@ == old(self).tokens@,
            match (
                token,
                if literal {
                    expect_string_literal(old(self).tokens(), old(self).position as int, message@)
                } else {
                    expect_identifier(old(self).tokens(), old(self).position as int, message@)
                },
            ) {
                (Ok(t), Ok((expected, next))) => t@ == expected && final(self).position == next,
                (Err(e), Err(m)) => e@ == root_error(ErrorKindView::Message(m), None),
                _ => false,
            },
    {
        let pos = self.position;
        if pos < self.tokens.len() {
            let matches = match &self.tokens[pos].kind {
                TokenKind::Identifier(_) => !literal,
                TokenKind::StringLiteral(_) => literal,
                _ => false,
            };
            if matches {
                self.position = pos + 1;
                return Ok(self.tokens[pos].duplicate());
            }
        }
        Err(failure(message, &self.tokens, pos))
    }

    /// Parses one `name = "value"` property.
    fn parse_property(&mut self) -> (property: Result<UiProperty, PixuiError>)
        ensures
            final(self).tokens@ == old(self).tokens@,
            match (property, parse_property(old(self).tokens(), old(self).position as int)) {
                (Ok(p), Ok((expected, next))) => p@ == expected && final(self).position == next,
                (Err(e), Err(m)) => e@ == root_error(ErrorKindView::Message(m), None),
                _ => false,
            },
    {
        let name_token = match self.expect_text_token(false, "Expected a property name") {
            Ok(t) => t,
            Err(e) => return Err(e),
        };
        match self.expect_punctuation(Punctuation::Equals, "Expected `=` after a property name") {
            Ok(_) => {},
            Err(e) => return Err(e),
        }
        let value_token = match self.expect_text_token(true, "Expected a string literal after `=`") {
            Ok(t) => t,
            Err(e) => return Err(e),
        };
        let span = Span::new(name_token.span.start(), value_token.span.end());
        let name = match name_token.kind {
            TokenKind::Identifier(name) => name,
            _ => String::new(),
        };
        let value = match value_token.kind {
            TokenKind::StringLiteral(value) => value,
            _ => String::new(),
        };
        Ok(UiProperty { name, value, span })
    }

    /// Parses the element that starts at the current position.
    #[verifier::loop_isolation(false)]
    fn parse_element(&mut self) -> (element: Result<UiElement, PixuiError>)
        ensures
            final(self).tokens@ == old(self).tokens@,
            match (element, parse_element(old(self).tokens(), old(self).position as int)) {
                (Ok(e), Ok((expected, next))) => {
                    &&& e@ == expected
                    &&& final(self).position == next
                    &&& old(self).position < next <= old(self).tokens@.len()
                },
                (Err(e), Err(m)) => e@ == root_error(ErrorKindView::Message(m), None),
                _ => false,
            },
        decreases old(self).tokens@.len() - old(self).position,
    {
        let ghost t = self.tokens();
        let ghost pos0 = self.position as int;
        let start_span = match self.expect_punctuation(
            Punctuation::LessThan,
            "Expected `<` to start an element",
        ) {
            Ok(s) => s,
            Err(e) => return Err(e),
        };
        let tag_token = match self.expect_text_token(false, "Expected a tag name after `<`") {
            Ok(t) => t,
            Err(e) => return Err(e),
        };
        let tag_name = match tag_token.kind {
            TokenKind::Identifier(name) => name,
            _ => String::new(),
        };
        let ghost p2 = self.position as int;
        let mut properties: Vec<UiProperty> = Vec::new();
        while self.at_identifier()
            invariant
                self.tokens() == t,
                self.tokens@ == old(self).tokens@,
                t == old(self).tokens(),
                pos0 == old(self).position as int,
                pos0 < p2 <= self.position <= t.len(),
                tag_name@ == token_text(tag_token@.kind),
                parse_properties(t, p2) == match parse_properties(t, self.position as int) {
                    Ok((rest, r)) => Ok((properties@.map_values(|p: UiProperty| p@) + rest, r)),
                    Err(m) => Err(m),
                },
            decreases t.len() - self.position,
        {
            let ghost here = self.position as int;
            let property = match self.parse_property() {
                Ok(p) => p,
                Err(e) => {
                    assert(parse_property(t, here) is Err);
                    assert(parse_properties(t, here) == Err::<(Seq<UiPropertyView>, int), Seq<char>>(parse_property(t, here)->Err_0));
                    assert(parse_properties(t, p2) is Err);
                    return Err(e);
                },
            };
            let ghost before = properties@.map_values(|p: UiProperty| p@);
            properties.push(property);
            proof {
                assert(properties@.map_values(|p: UiProperty| p@) =~= before.push(property@));
                match parse_properties(t, self.position as int) {
                    Ok((rest, r)) => {
                        assert(before + (seq![property@] + rest) =~= properties@.map_values(
                            |p: UiProperty| p@,
                        ) + rest);
                    },
                    Err(_) => {},
                }
            }
        }
        let ghost properties_view = properties@.map_values(|p: UiProperty| p@);
        assert(parse_properties(t, self.position as int) == Ok::<(Seq<UiPropertyView>, int), Seq<char>>((Seq::empty(), self.position as int)));
        assert(properties_view + Seq::<UiPropertyView>::empty() =~= properties_view);
        let p3 = self.position;
        if p3 < self.tokens.len() && match &self.tokens[p3].kind {
            TokenKind::SlashGreaterThan => true,
            _ => false,
        } {
            let end_span = self.tokens[p3].span;
            self.position = p3 + 1;
            let element = UiElement {
                tag_name,
                properties,
                children: Vec::new(),
                span: Span::new(start_span.start(), end_span.end()),
            };
            assert(element@.children =~= Seq::<UiElementView>::empty());
            return Ok(element);
        }
        match self.expect_punctuation(
            Punctuation::GreaterThan,
            "Expected `>` or `/>` after an opening tag",
        ) {
            Ok(_) => {},
            Err(e) => return Err(e),
        }
        let ghost p4 = self.position as int;
        let ghost tag = tag_name@;
        let mut children: Vec<UiElement> = Vec::new();
        assert(children@.map_values(|c: UiElement| c@) + Seq::<UiElementView>::empty() =~= Seq::<UiElementView>::empty());
        while self.at_less_than()
            invariant
                self.tokens() == t,
                self.tokens@ == old(self).tokens@,
                t == old(self).tokens(),
                pos0 == old(self).position as int,
                pos0 < p4 <= self.position <= t.len(),
                tag_name@ == tag,
                parse_children(t, p4, tag) == match parse_children(t, self.position as int, tag) {
                    Ok((rest, r)) => Ok((children@.map_values(|c: UiElement| c@) + rest, r)),
                    Err(m) => Err(m),
                },
            decreases t.len() - self.position,
        {
            let ghost here = self.position as int;
            let child = match self.parse_element() {
                Ok(c) => c,
                Err(e) => {
                    assert(parse_element(t, here) is Err);
                    assert(parse_children(t, here, tag) == Err::<(Seq<UiElementView>, int), Seq<char>>(parse_element(t, here)->Err_0));
                    assert(parse_children(t, p4, tag) is Err);
                    return Err(e);
                },
            };
            let ghost before = children@.map_values(|c: UiElement| c@);
            children.push(child);
            proof {
                assert(children@.map_values(|c: UiElement| c@) =~= before.push(child@));
                match parse_children(t, self.position as int, tag) {
                    Ok((rest, r)) => {
                        assert(before + (seq![child@] + rest) =~= children@.map_values(
                            |c: UiElement| c@,
                        ) + rest);
                    },
                    Err(_) => {},
                }
            }
        }
        let pos = self.position;
        if pos >= self.tokens.len() {
            let mut text = String::from_str("Missing closing tag for `<");
            push_str(&mut text, tag_name.as_str());
            push_str(&mut text, ">`");
            return Err(PixuiError::message_string(text));
        }
        let at_closing = match &self.tokens[pos].kind {
            TokenKind::LessThanSlash => true,
            _ => false,
        };
        if !at_closing {
            let mut text = String::from_str("Unexpected token inside `<");
            push_str(&mut text, tag_name.as_str());
            push_str(&mut text, ">` at byte ");
            push_decimal(&mut text, self.tokens[pos].span.start());
            return Err(PixuiError::message_string(text));
        }
        let ghost children_view = children@.map_values(|c: UiElement| c@);
        assert(children_view + Seq::<UiElementView>::empty() =~= children_view);
        match self.expect_punctuation(Punctuation::LessThanSlash, "Expected `</` to close the element") {
            Ok(_) => {},
            Err(e) => return Err(e),
        }
        let closing_token = match self.expect_text_token(false, "Expected a tag name after `</`") {
            Ok(t) => t,
            Err(e) => return Err(e),
        };
        let closing_tag_name = match closing_token.kind {
            TokenKind::Identifier(name) => name,
            _ => String::new(),
        };
        if !(closing_tag_name == tag_name) {
            let mut text = String::from_str("Mismatched closing tag: expected `</");
            push_str(&mut text, tag_name.as_str());
            push_str(&mut text, ">` but found `</");
            push_str(&mut text, closing_tag_name.as_str());
            push_str(&mut text, ">`");
            return Err(PixuiError::message_string(text));
        }
        let end_span = match self.expect_punctuation(
            Punctuation::GreaterThan,
            "Expected `>` after a closing tag",
        ) {
            Ok(s) => s,
            Err(e) => return Err(e),
        };
        let element = UiElement {
            tag_name,
            properties,
            children,
            span: Span::new(start_span.start(), end_span.end()),
        };
        assert(element@.children =~= children_view);
        Ok(element)
    }
}

} // verus!
