//! Lexer for the JSX-like UI description language.
//!
//! The specification works on the UTF-8 bytes of the source: token spans are
//! byte offsets, and every position the lexer stops at is a character boundary.
use crate::error::{PixuiError, PixuiErrorView};
use crate::source_file::{SourceFile, SourceFileView};
use crate::span::Span;
use crate::text::{bytes_of, char_width, width_of, lemma_next_boundary, lemma_utf8_concat, push_char, push_str, substring, utf8};
use crate::ui_description::diagnostic::{ui_description_error, ui_description_error_ok, ui_description_error_view};
use crate::ui_description::token::{Token, TokenView, tokens_view};
use crate::ui_description::token_kind::{TokenKind, TokenKindView};
use vstd::prelude::*;
use vstd::string::StringExecFns;
use vstd::utf8::{decode_utf8, is_char_boundary, valid_utf8};

verus! {

broadcast use crate::text::group_utf8_facts;

/// ASCII letters and `_` start an identifier.
pub open spec fn is_identifier_start(x: u8) -> bool {
    (0x41u8 <= x <= 0x5Au8) || (0x61u8 <= x <= 0x7Au8) || x == 0x5Fu8
}

/// ASCII letters, digits, `_` and `-` continue an identifier.
pub open spec fn is_identifier_continue(x: u8) -> bool {
    is_identifier_start(x) || (0x30u8 <= x <= 0x39u8) || x == 0x2Du8
}

/// The character starting at byte `i` has the Unicode `White_Space` property
/// (`char::is_whitespace`): U+0009..U+000D, U+0020, U+0085, U+00A0, U+1680,
/// U+2000..U+200A, U+2028, U+2029, U+202F, U+205F and U+3000, matched here by
/// their UTF-8 encodings.
pub open spec fn whitespace_at(b: Seq<u8>, i: int) -> bool {
    let x = b[i];
    ||| x == 0x20u8
    ||| 0x09u8 <= x <= 0x0Du8
    ||| (x == 0xC2u8 && i + 1 < b.len() && (b[i + 1] == 0x85u8 || b[i + 1] == 0xA0u8))
    ||| (x == 0xE1u8 && i + 2 < b.len() && b[i + 1] == 0x9Au8 && b[i + 2] == 0x80u8)
    ||| (x == 0xE2u8 && i + 2 < b.len() && b[i + 1] == 0x80u8 && ((0x80u8 <= b[i + 2]
        <= 0x8Au8) || b[i + 2] == 0xA8u8 || b[i + 2] == 0xA9u8 || b[i + 2] == 0xAFu8))
    ||| (x == 0xE2u8 && i + 2 < b.len() && b[i + 1] == 0x81u8 && b[i + 2] == 0x9Fu8)
    ||| (x == 0xE3u8 && i + 2 < b.len() && b[i + 1] == 0x80u8 && b[i + 2] == 0x80u8)
}

/// The first position at or after `i` that does not start a whitespace character.
pub open spec fn skip_whitespace(b: Seq<u8>, i: int) -> int
    decreases b.len() - i,
{
    if 0 <= i < b.len() && whitespace_at(b, i) {
        skip_whitespace(b, i + char_width(b[i]))
    } else {
        i
    }
}

/// The end of the run of identifier characters starting at `i`.
pub open spec fn identifier_end(b: Seq<u8>, i: int) -> int
    decreases b.len() - i,
{
    if 0 <= i < b.len() && is_identifier_continue(b[i]) {
        identifier_end(b, i + 1)
    } else {
        i
    }
}

/// Why lexing stopped: the span to report, its summary and its annotation.
pub struct LexFailure {
    pub start: int,
    pub end: int,
    pub summary: Seq<char>,
    pub annotation: Seq<char>,
}

/// The failure for a string literal that starts at `start` and is not closed
/// before `end`, either because the input ends or because the line ends.
pub open spec fn unterminated(start: int, end: int, line_break: bool) -> LexFailure {
    LexFailure {
        start,
        end,
        summary: "Unterminated string literal"@,
        annotation: if line_break {
            "string literals cannot span multiple lines in this syntax"@
        } else {
            "this string literal is missing its closing quote"@
        },
    }
}

/// The byte that an escape sequence `\x` stands for, for the supported `x`.
pub open spec fn escaped_byte(x: u8) -> Option<u8> {
    if x == 0x22u8 {
        Some(0x22u8)
    } else if x == 0x5Cu8 {
        Some(0x5Cu8)
    } else if x == 0x6Eu8 {
        Some(0x0Au8)
    } else if x == 0x72u8 {
        Some(0x0Du8)
    } else if x == 0x74u8 {
        Some(0x09u8)
    } else {
        None
    }
}

/// Lexes the rest of a string literal that opened at `start`, from `pos`
/// onwards, with `value` the decoded bytes so far.  On success gives the
/// literal's bytes and the position just past its closing quote.
pub open spec fn string_literal(b: Seq<u8>, start: int, pos: int, value: Seq<u8>) -> Result<
    (Seq<u8>, int),
    LexFailure,
>
    decreases b.len() - pos,
{
    if pos < 0 || pos >= b.len() {
        Err(unterminated(start, pos, false))
    } else if b[pos] == 0x22u8 {
        Ok((value, pos + 1))
    } else if b[pos] == 0x5Cu8 {
        if pos + 1 >= b.len() {
            Err(unterminated(start, pos + 1, false))
        } else {
            match escaped_byte(b[pos + 1]) {
                Some(x) => string_literal(b, start, pos + 2, value.push(x)),
                None => {
                    let w = char_width(b[pos + 1]);
                    Err(
                        LexFailure {
                            start: pos,
                            end: pos + 1 + w,
                            summary: "Unsupported escape sequence `\\"@ + decode_utf8(
                                b.subrange(pos + 1, pos + 1 + w),
                            ) + "`"@,
                            annotation: "only \\\" \\\\ \\n \\r and \\t are supported"@,
                        },
                    )
                },
            }
        }
    } else if b[pos] == 0x0Au8 || b[pos] == 0x0Du8 {
        Err(unterminated(start, pos, true))
    } else if pos + char_width(b[pos]) <= b.len() {
        let w = char_width(b[pos]);
        string_literal(b, start, pos + w, value + b.subrange(pos, pos + w))
    } else {
        // a truncated character: impossible in valid UTF-8
        Err(unterminated(start, b.len() as int, false))
    }
}

/// Lexes the token that starts at `i`: its kind and the position just past it.
pub open spec fn token_at(b: Seq<u8>, i: int) -> Result<(TokenKindView, int), LexFailure> {
    let x = b[i];
    if x == 0x3Cu8 {
        if i + 1 < b.len() && b[i + 1] == 0x2Fu8 {
            Ok((TokenKindView::LessThanSlash, i + 2))
        } else {
            Ok((TokenKindView::LessThan, i + 1))
        }
    } else if x == 0x3Eu8 {
        Ok((TokenKindView::GreaterThan, i + 1))
    } else if x == 0x2Fu8 {
        if i + 1 < b.len() && b[i + 1] == 0x3Eu8 {
            Ok((TokenKindView::SlashGreaterThan, i + 2))
        } else {
            Err(
                LexFailure {
                    start: i,
                    end: i + 1,
                    summary: "Unexpected character `/`"@,
                    annotation: "expected `>` to complete `/>`"@,
                },
            )
        }
    } else if x == 0x3Du8 {
        Ok((TokenKindView::Equals, i + 1))
    } else if x == 0x22u8 {
        match string_literal(b, i, i + 1, Seq::empty()) {
            Ok((value, end)) => Ok((TokenKindView::StringLiteral(decode_utf8(value)), end)),
            Err(failure) => Err(failure),
        }
    } else if is_identifier_start(x) {
        let end = identifier_end(b, i + 1);
        Ok((TokenKindView::Identifier(decode_utf8(b.subrange(i, end))), end))
    } else {
        let w = char_width(x);
        Err(
            LexFailure {
                start: i,
                end: i + w,
                summary: "Unexpected character `"@ + decode_utf8(b.subrange(i, i + w)) + "`"@,
                annotation: "this character is not valid in the UI description syntax"@,
            },
        )
    }
}

/// Lexes the input from position `i` to its end.
pub open spec fn lex_from(b: Seq<u8>, i: int) -> Result<Seq<TokenView>, LexFailure>
    decreases b.len() - i,
{
    let j = skip_whitespace(b, i);
    if j < 0 || j >= b.len() {
        Ok(Seq::empty())
    } else {
        match token_at(b, j) {
            Err(failure) => Err(failure),
            Ok((kind, end)) => if i < end <= b.len() {
                match lex_from(b, end) {
                    Ok(rest) => Ok(
                        seq![TokenView { kind, span: (j as usize, end as usize) }] + rest,
                    ),
                    Err(failure) => Err(failure),
                }
            } else {
                // a token that does not advance: impossible, see `Lexer::lex_token`
                Ok(Seq::empty())
            },
        }
    }
}

/// The error that reports a lexing failure in `file`.
pub open spec fn lex_failure_error(file: SourceFileView, failure: LexFailure) -> PixuiErrorView {
    ui_description_error_view(
        file,
        (failure.start as usize, failure.end as usize),
        failure.summary,
        failure.annotation,
    )
}

/// What lexing `file` gives: its tokens, or the error for the first failure.
pub open spec fn lex_result(file: SourceFileView) -> Result<Seq<TokenView>, PixuiErrorView> {
    match lex_from(utf8(file.source), 0) {
        Ok(tokens) => Ok(tokens),
        Err(failure) => Err(lex_failure_error(file, failure)),
    }
}

/// Skipping white space never moves backwards.
pub proof fn lemma_skip_whitespace_forward(b: Seq<u8>, i: int)
    ensures
        skip_whitespace(b, i) >= i,
    decreases b.len() - i,
{
    if 0 <= i < b.len() && whitespace_at(b, i) {
        lemma_skip_whitespace_forward(b, i + char_width(b[i]));
    }
}

/// An identifier run never ends before it starts.
pub proof fn lemma_identifier_end_forward(b: Seq<u8>, i: int)
    ensures
        identifier_end(b, i) >= i,
    decreases b.len() - i,
{
    if 0 <= i < b.len() && is_identifier_continue(b[i]) {
        lemma_identifier_end_forward(b, i + 1);
    }
}

/// A lexed string literal ends past where its lexing continued.
pub proof fn lemma_string_literal_forward(b: Seq<u8>, start: int, pos: int, value: Seq<u8>)
    requires
        string_literal(b, start, pos, value) is Ok,
    ensures
        string_literal(b, start, pos, value)->Ok_0.1 > pos,
        string_literal(b, start, pos, value)->Ok_0.1 <= b.len(),
    decreases b.len() - pos,
{
    if 0 <= pos < b.len() && b[pos] != 0x22u8 {
        if b[pos] == 0x5Cu8 {
            if pos + 1 < b.len() {
                if let Some(x) = escaped_byte(b[pos + 1]) {
                    lemma_string_literal_forward(b, start, pos + 2, value.push(x));
                }
            }
        } else if b[pos] != 0x0Au8 && b[pos] != 0x0Du8 && pos + char_width(b[pos]) <= b.len() {
            let w = char_width(b[pos]);
            lemma_string_literal_forward(b, start, pos + w, value + b.subrange(pos, pos + w));
        }
    }
}

/// A lexed token ends past its start and within the input.
pub proof fn lemma_token_forward(b: Seq<u8>, i: int)
    requires
        0 <= i < b.len(),
        token_at(b, i) is Ok,
    ensures
        i < token_at(b, i)->Ok_0.1 <= b.len(),
{
    let x = b[i];
    if x == 0x22u8 {
        lemma_string_literal_forward(b, i, i + 1, Seq::empty());
    } else if is_identifier_start(x) && x != 0x3Cu8 && x != 0x3Eu8 && x != 0x2Fu8 && x != 0x3Du8 {
        lemma_identifier_end_forward(b, i + 1);
        if i + 1 < b.len() {
            assert(identifier_end(b, i + 1) <= b.len()) by {
                lemma_identifier_end_bounded(b, i + 1);
            }
        }
    }
}

/// An identifier run ends within the input.
pub proof fn lemma_identifier_end_bounded(b: Seq<u8>, i: int)
    requires
        i <= b.len(),
    ensures
        identifier_end(b, i) <= b.len(),
    decreases b.len() - i,
{
    if 0 <= i < b.len() && is_identifier_continue(b[i]) {
        lemma_identifier_end_bounded(b, i + 1);
    }
}

/// The tokens lexed from position `i` lie between `i` and the end of the
/// input, each non-empty, in order and without overlapping.
pub proof fn lemma_lex_from_ordered(b: Seq<u8>, i: int)
    requires
        0 <= i,
        b.len() < usize::MAX,
        lex_from(b, i) is Ok,
    ensures
        ({
            let tokens = lex_from(b, i)->Ok_0;
            &&& forall|k: int| 0 <= k < tokens.len() ==> i <= (#[trigger] tokens[k]).span.0 < tokens[k].span.1 <= b.len()
            &&& forall|a: int, c: int| 0 <= a < c < tokens.len() ==> (#[trigger] tokens[a]).span.1 <= (#[trigger] tokens[c]).span.0
        }),
    decreases b.len() - i,
{
    let j = skip_whitespace(b, i);
    lemma_skip_whitespace_forward(b, i);
    if 0 <= j < b.len() {
        if let Ok((kind, end)) = token_at(b, j) {
            if i < end <= b.len() {
                lemma_token_forward(b, j);
                lemma_lex_from_ordered(b, end);
                let rest = lex_from(b, end)->Ok_0;
                let tokens = lex_from(b, i)->Ok_0;
                let first = TokenView { kind, span: (j as usize, end as usize) };
                assert(tokens == seq![first] + rest);
                assert forall|k: int| 0 <= k < tokens.len() implies i <= (#[trigger] tokens[k]).span.0
                    < tokens[k].span.1 <= b.len() by {
                    if k > 0 {
                        assert(tokens[k] == rest[k - 1]);
                    }
                }
                assert forall|a: int, c: int| 0 <= a < c < tokens.len() implies (#[trigger] tokens[a]).span.1
                    <= (#[trigger] tokens[c]).span.0 by {
                    assert(tokens[c] == rest[c - 1]);
                    if a > 0 {
                        assert(tokens[a] == rest[a - 1]);
                    }
                }
            }
        }
    }
}

/// The tokens of a lexed file lie within its bytes, each non-empty, in
/// source order and without overlapping.
pub proof fn law_lexed_tokens_are_ordered(file: SourceFileView)
    requires
        lexable(file),
        lex_result(file) is Ok,
    ensures
        ({
            let tokens = lex_result(file)->Ok_0;
            &&& forall|k: int| 0 <= k < tokens.len() ==> (#[trigger] tokens[k]).span.0 < tokens[k].span.1 <= utf8(file.source).len()
            &&& forall|a: int, c: int| 0 <= a < c < tokens.len() ==> (#[trigger] tokens[a]).span.1 <= (#[trigger] tokens[c]).span.0
        }),
{
    lemma_lex_from_ordered(utf8(file.source), 0);
}

/// Inside a string literal an escape adds the character it stands for to
/// the value and lexing goes on after it: `\"` a quote, `\\` a backslash,
/// `\n` a line feed, `\r` a carriage return and `\t` a tab. Any other
/// escaped character makes the literal fail.
pub proof fn law_escapes_decode_to_standard_characters(b: Seq<u8>, start: int, pos: int, value: Seq<u8>)
    requires
        0 <= pos,
        pos + 1 < b.len(),
        b[pos] == '\\' as u8,
    ensures
        b[pos + 1] == '"' as u8 ==> string_literal(b, start, pos, value) == string_literal(
            b,
            start,
            pos + 2,
            value.push('"' as u8),
        ),
        b[pos + 1] == '\\' as u8 ==> string_literal(b, start, pos, value) == string_literal(
            b,
            start,
            pos + 2,
            value.push('\\' as u8),
        ),
        b[pos + 1] == 'n' as u8 ==> string_literal(b, start, pos, value) == string_literal(
            b,
            start,
            pos + 2,
            value.push('\n' as u8),
        ),
        b[pos + 1] == 'r' as u8 ==> string_literal(b, start, pos, value) == string_literal(
            b,
            start,
            pos + 2,
            value.push('\r' as u8),
        ),
        b[pos + 1] == 't' as u8 ==> string_literal(b, start, pos, value) == string_literal(
            b,
            start,
            pos + 2,
            value.push('\t' as u8),
        ),
        b[pos + 1] != '"' as u8 && b[pos + 1] != '\\' as u8 && b[pos + 1] != 'n' as u8 && b[pos + 1] != 'r' as u8
            && b[pos + 1] != 't' as u8 ==> string_literal(b, start, pos, value) is Err,
{
}

/// Source files short enough for every byte offset and line number to fit a `usize`.
pub open spec fn lexable(file: SourceFileView) -> bool {
    utf8(file.source).len() < usize::MAX
}

/// Lexes a UI description held in a string.
pub fn lex(source: &str) -> (tokens: Result<Vec<Token>, PixuiError>)
    requires
        bytes_of(source).len() < usize::MAX,
    ensures
        match (tokens, lex_result(SourceFileView { path: "<ui_description>"@, source: source@ })) {
            (Ok(t), Ok(expected)) => tokens_view(t@) == expected,
            (Err(e), Err(expected)) => e@ == expected,
            _ => false,
        },
{
    lex_source_file(&SourceFile::new("<ui_description>", source))
}

/// Lexes a UI description source file.
pub fn lex_source_file(source_file: &SourceFile) -> (tokens: Result<Vec<Token>, PixuiError>)
    requires
        lexable(source_file@),
    ensures
        match (tokens, lex_result(source_file@)) {
            (Ok(t), Ok(expected)) => tokens_view(t@) == expected,
            (Err(e), Err(expected)) => e@ == expected,
            _ => false,
        },
{
    Lexer::new(source_file).lex()
}

/// `is_identifier_start`, computed.
fn identifier_start(x: u8) -> (r: bool)
    ensures
        r == is_identifier_start(x),
{
    (0x41u8 <= x && x <= 0x5Au8) || (0x61u8 <= x && x <= 0x7Au8) || x == 0x5Fu8
}

/// `is_identifier_continue`, computed.
fn identifier_continue(x: u8) -> (r: bool)
    ensures
        r == is_identifier_continue(x),
{
    identifier_start(x) || (0x30u8 <= x && x <= 0x39u8) || x == 0x2Du8
}

/// The byte length of the whitespace character at `i`, or zero.
fn whitespace_width(bytes: &[u8], i: usize) -> (w: usize)
    requires
        i < bytes@.len(),
    ensures
        w == if whitespace_at(bytes@, i as int) {
            char_width(bytes@[i as int])
        } else {
            0
        },
{
    let x = bytes[i];
    let n = bytes.len();
    if x == 0x20u8 || (0x09u8 <= x && x <= 0x0Du8) {
        1
    } else if x == 0xC2u8 && n - i > 1 && (bytes[i + 1] == 0x85u8 || bytes[i + 1] == 0xA0u8) {
        2
    } else if x == 0xE1u8 && n - i > 2 && bytes[i + 1] == 0x9Au8 && bytes[i + 2] == 0x80u8 {
        3
    } else if x == 0xE2u8 && n - i > 2 && bytes[i + 1] == 0x80u8 && ((0x80u8 <= bytes[i + 2]
        && bytes[i + 2] <= 0x8Au8) || bytes[i + 2] == 0xA8u8 || bytes[i + 2] == 0xA9u8
        || bytes[i + 2] == 0xAFu8) {
        3
    } else if x == 0xE2u8 && n - i > 2 && bytes[i + 1] == 0x81u8 && bytes[i + 2] == 0x9Fu8 {
        3
    } else if x == 0xE3u8 && n - i > 2 && bytes[i + 1] == 0x80u8 && bytes[i + 2] == 0x80u8 {
        3
    } else {
        0
    }
}

/// Positions at which the lexer may stand in `b`.
pub open spec fn lexer_position(b: Seq<u8>, pos: int) -> bool {
    &&& valid_utf8(b)
    &&& 0 <= pos <= b.len()
    &&& is_char_boundary(b, pos)
    &&& b.len() < usize::MAX
}

/// Skips the whitespace that starts at `start`.
fn skip_whitespace_from(source: &str, start: usize) -> (end: usize)
    requires
        lexer_position(bytes_of(source), start as int),
    ensures
        end == skip_whitespace(bytes_of(source), start as int),
        start <= end,
        lexer_position(bytes_of(source), end as int),
{
    let bytes = source.as_bytes();
    let ghost b = bytes_of(source);
    let mut pos = start;
    while pos < bytes.len() && whitespace_width(bytes, pos) > 0
        invariant
            bytes@ == b,
            start <= pos,
            lexer_position(b, pos as int),
            skip_whitespace(b, pos as int) == skip_whitespace(b, start as int),
        decreases b.len() - pos,
    {
        proof {
            lemma_next_boundary(b, pos as int);
        }
        let w = whitespace_width(bytes, pos);
        pos = pos + w;
    }
    pos
}

/// The error for a lexing failure in `source_file`.
fn failure_error(
    source_file: &SourceFile,
    start: usize,
    end: usize,
    summary: &str,
    annotation: &str,
) -> (error: PixuiError)
    requires
        lexer_position(utf8(source_file@.source), start as int),
    ensures
        error@ == lex_failure_error(
            source_file@,
            LexFailure { start: start as int, end: end as int, summary: summary@, annotation: annotation@ },
        ),
{
    ui_description_error(source_file, Span::new(start, end), summary, annotation)
}

/// Lexes the identifier that starts at `start`.
fn lex_identifier(source: &str, start: usize) -> (lexed: (Token, usize))
    requires
        lexer_position(bytes_of(source), start as int),
        start < bytes_of(source).len(),
        is_identifier_start(bytes_of(source)[start as int]),
    ensures
        lexed.1 == identifier_end(bytes_of(source), start + 1),
        lexed.0@ == (TokenView {
            kind: TokenKindView::Identifier(decode_utf8(bytes_of(source).subrange(start as int, lexed.1 as int))),
            span: (start, lexed.1),
        }),
        start < lexed.1,
        lexer_position(bytes_of(source), lexed.1 as int),
{
    let bytes = source.as_bytes();
    let ghost b = bytes_of(source);
    proof {
        lemma_next_boundary(b, start as int);
    }
    let mut pos = start + 1;
    while pos < bytes.len() && identifier_continue(bytes[pos])
        invariant
            bytes@ == b,
            start < pos,
            lexer_position(b, pos as int),
            identifier_end(b, pos as int) == identifier_end(b, start + 1),
        decreases b.len() - pos,
    {
        proof {
            lemma_next_boundary(b, pos as int);
        }
        pos = pos + 1;
    }
    let text = substring(source, start, pos);
    (Token { kind: TokenKind::Identifier(String::from_str(text)), span: Span::new(start, pos) }, pos)
}

/// Pushes an ASCII character onto a literal's value, keeping track of its bytes.
fn push_ascii(value: &mut String, c: char, Ghost(acc): Ghost<Seq<u8>>)
    requires
        (c as u32) < 0x80,
        utf8(old(value)@) == acc,
    ensures
        utf8(final(value)@) == acc.push(c as u8),
{
    push_char(value, c);
    proof {
        lemma_utf8_concat(old(value)@, seq![c]);
        crate::text::lemma_utf8_ascii_char(c);
        assert(old(value)@.push(c) =~= old(value)@ + seq![c]);
        assert(acc + seq![c as u8] =~= acc.push(c as u8));
    }
}

/// Lexes the string literal whose opening quote is at `start`.
fn lex_string_literal(source_file: &SourceFile, start: usize) -> (lexed: Result<(Token, usize), PixuiError>)
    requires
        lexer_position(utf8(source_file@.source), start as int),
        start < utf8(source_file@.source).len(),
        utf8(source_file@.source)[start as int] == 0x22u8,
    ensures
        match (lexed, string_literal(utf8(source_file@.source), start as int, start + 1, Seq::empty())) {
            (Ok((t, end)), Ok((value, expected_end))) => {
                &&& end == expected_end
                &&& t@ == (TokenView { kind: TokenKindView::StringLiteral(decode_utf8(value)), span: (start, end) })
                &&& start < end
                &&& lexer_position(utf8(source_file@.source), end as int)
            },
            (Err(e), Err(failure)) => e@ == lex_failure_error(source_file@, failure),
            _ => false,
        },
{
    let source = source_file.source();
    let bytes = source.as_bytes();
    let ghost b = bytes_of(source);
    proof {
        lemma_next_boundary(b, start as int);
    }
    let mut pos = start + 1;
    let mut value = String::new();
    let ghost mut acc: Seq<u8> = Seq::empty();
    assert(utf8(value@) =~= acc);
    loop
        invariant
            bytes@ == b,
            b == utf8(source_file@.source),
            bytes_of(source) == b,
            start < pos,
            lexer_position(b, start as int),
            lexer_position(b, pos as int),
            utf8(value@) == acc,
            string_literal(b, start as int, pos as int, acc) == string_literal(
                b,
                start as int,
                start + 1,
                Seq::empty(),
            ),
        decreases b.len() - pos,
    {
        if pos >= bytes.len() {
            return Err(
                failure_error(
                    source_file,
                    start,
                    pos,
                    "Unterminated string literal",
                    "this string literal is missing its closing quote",
                ),
            );
        }
        let c = bytes[pos];
        proof {
            lemma_next_boundary(b, pos as int);
        }
        if c == 0x22u8 {
            assert(value@ == decode_utf8(acc));
            return Ok(
                (Token { kind: TokenKind::StringLiteral(value), span: Span::new(start, pos + 1) }, pos + 1),
            );
        } else if c == 0x5Cu8 {
            if pos + 1 >= bytes.len() {
                return Err(
                    failure_error(
                        source_file,
                        start,
                        pos + 1,
                        "Unterminated string literal",
                        "this string literal is missing its closing quote",
                    ),
                );
            }
            let e = bytes[pos + 1];
            proof {
                assert(b[pos as int] == 0x5Cu8);
                assert(char_width(b[pos as int]) == 1);
                assert(is_char_boundary(b, pos + 1));
                lemma_next_boundary(b, pos + 1);
                assert(b[pos + 1] == e);
            }
            if e == 0x22u8 {
                push_ascii(&mut value, '"', Ghost(acc));
            } else if e == 0x5Cu8 {
                push_ascii(&mut value, '\\', Ghost(acc));
            } else if e == 0x6Eu8 {
                push_ascii(&mut value, '\n', Ghost(acc));
            } else if e == 0x72u8 {
                push_ascii(&mut value, '\r', Ghost(acc));
            } else if e == 0x74u8 {
                push_ascii(&mut value, '\t', Ghost(acc));
            } else {
                let w = width_of(e);
                let other = substring(source, pos + 1, pos + 1 + w);
                let mut summary = String::from_str("Unsupported escape sequence `\\");
                push_str(&mut summary, other);
                push_str(&mut summary, "`");
                return Err(
                    failure_error(
                        source_file,
                        pos,
                        pos + 1 + w,
                        summary.as_str(),
                        "only \\\" \\\\ \\n \\r and \\t are supported",
                    ),
                );
            }
            proof {
                acc = acc.push(escaped_byte(e).unwrap());
                assert(char_width(b[pos + 1]) == 1);
            }
            pos = pos + 2;
        } else if c == 0x0Au8 || c == 0x0Du8 {
            return Err(
                failure_error(
                    source_file,
                    start,
                    pos,
                    "Unterminated string literal",
                    "string literals cannot span multiple lines in this syntax",
                ),
            );
        } else {
            let w = width_of(c);
            assert(w == char_width(b[pos as int]));
            let piece = substring(source, pos, pos + w);
            let ghost before = value@;
            push_str(&mut value, piece);
            proof {
                lemma_utf8_concat(before, piece@);
                acc = acc + b.subrange(pos as int, pos + w);
            }
            pos = pos + w;
        }
    }
}

/// Lexes the token that starts at `pos`.
fn lex_token(source_file: &SourceFile, pos: usize) -> (lexed: Result<(Token, usize), PixuiError>)
    requires
        lexer_position(utf8(source_file@.source), pos as int),
        pos < utf8(source_file@.source).len(),
    ensures
        match (lexed, token_at(utf8(source_file@.source), pos as int)) {
            (Ok((t, end)), Ok((kind, expected_end))) => {
                &&& end == expected_end
                &&& t@ == (TokenView { kind, span: (pos, end) })
                &&& pos < end
                &&& lexer_position(utf8(source_file@.source), end as int)
            },
            (Err(e), Err(failure)) => e@ == lex_failure_error(source_file@, failure),
            _ => false,
        },
{
    let source = source_file.source();
    let bytes = source.as_bytes();
    let ghost b = bytes_of(source);
    let c = bytes[pos];
    proof {
        lemma_next_boundary(b, pos as int);
        if pos + 1 < b.len() && b[pos as int] < 0x80u8 {
            lemma_next_boundary(b, pos + 1);
        }
    }
    if c == 0x3Cu8 {
        if pos + 1 < bytes.len() && bytes[pos + 1] == 0x2Fu8 {
            Ok((Token { kind: TokenKind::LessThanSlash, span: Span::new(pos, pos + 2) }, pos + 2))
        } else {
            Ok((Token { kind: TokenKind::LessThan, span: Span::new(pos, pos + 1) }, pos + 1))
        }
    } else if c == 0x3Eu8 {
        Ok((Token { kind: TokenKind::GreaterThan, span: Span::new(pos, pos + 1) }, pos + 1))
    } else if c == 0x2Fu8 {
        if pos + 1 < bytes.len() && bytes[pos + 1] == 0x3Eu8 {
            Ok((Token { kind: TokenKind::SlashGreaterThan, span: Span::new(pos, pos + 2) }, pos + 2))
        } else {
            Err(
                failure_error(
                    source_file,
                    pos,
                    pos + 1,
                    "Unexpected character `/`",
                    "expected `>` to complete `/>`",
                ),
            )
        }
    } else if c == 0x3Du8 {
        Ok((Token { kind: TokenKind::Equals, span: Span::new(pos, pos + 1) }, pos + 1))
    } else if c == 0x22u8 {
        lex_string_literal(source_file, pos)
    } else if identifier_start(c) {
        Ok(lex_identifier(source, pos))
    } else {
        let w = width_of(c);
        let text = substring(source, pos, pos + w);
        let mut summary = String::from_str("Unexpected character `");
        push_str(&mut summary, text);
        push_str(&mut summary, "`");
        Err(
            failure_error(
                source_file,
                pos,
                pos + w,
                summary.as_str(),
                "this character is not valid in the UI description syntax",
            ),
        )
    }
}

/// Prepends already lexed tokens to the result of lexing the rest.
pub open spec fn prepend_tokens(
    tokens: Seq<TokenView>,
    rest: Result<Seq<TokenView>, LexFailure>,
) -> Result<Seq<TokenView>, LexFailure> {
    match rest {
        Ok(more) => Ok(tokens + more),
        Err(failure) => Err(failure),
    }
}

/// Lexer for the JSX-like UI description language.
pub struct Lexer<'a> {
    source_file: &'a SourceFile,
    position: usize,
}

impl<'a> Lexer<'a> {
    /// The file being lexed.
    pub closed spec fn file(&self) -> SourceFileView {
        self.source_file@
    }

    /// The byte offset the lexer has reached.
    pub closed spec fn position(&self) -> usize {
        self.position
    }

    /// The lexer stands on a character boundary of its file.
    #[verifier::type_invariant]
    closed spec fn well_placed(&self) -> bool {
        &&& self.position <= utf8(self.source_file@.source).len()
        &&& is_char_boundary(utf8(self.source_file@.source), self.position as int)
    }

    /// Creates a lexer at the start of `source_file`.
    pub fn new(source_file: &'a SourceFile) -> (lexer: Self)
        ensures
            lexer.file() == source_file@,
            lexer.position() == 0,
    {
        Lexer { source_file, position: 0 }
    }

    /// Lexes the file from the current position to its end.
    pub fn lex(self) -> (tokens: Result<Vec<Token>, PixuiError>)
        requires
            lexable(self.file()),
        ensures
            match (tokens, lex_from(utf8(self.file().source), self.position() as int)) {
                (Ok(t), Ok(expected)) => tokens_view(t@) == expected,
                (Err(e), Err(failure)) => e@ == lex_failure_error(self.file(), failure),
                _ => false,
            },
    {
        proof {
            use_type_invariant(&self);
        }
        let source_file = self.source_file;
        let source = source_file.source();
        let ghost b = bytes_of(source);
        let ghost start = self.position as int;
        let mut pos = self.position;
        assert(vstd::utf8::valid_utf8(b));
        assert(lexer_position(b, pos as int));
        let mut tokens: Vec<Token> = Vec::new();
        assert(tokens_view(tokens@) =~= Seq::<TokenView>::empty());
        assert(prepend_tokens(tokens_view(tokens@), lex_from(b, pos as int)) =~= lex_from(b, start));
        loop
            invariant
                b == utf8(source_file@.source),
                bytes_of(source) == b,
                source_file@ == self.file(),
                start == self.position() as int,
                lexer_position(b, pos as int),
                prepend_tokens(tokens_view(tokens@), lex_from(b, pos as int)) == lex_from(b, start),
            decreases b.len() - pos,
        {
            let p = skip_whitespace_from(source, pos);
            if p >= source.len() {
                assert(lex_from(b, pos as int) == Ok::<Seq<TokenView>, LexFailure>(Seq::empty()));
                assert(tokens_view(tokens@) + Seq::<TokenView>::empty() =~= tokens_view(tokens@));
                return Ok(tokens);
            }
            match lex_token(source_file, p) {
                Ok((token, end)) => {
                    let ghost before = tokens_view(tokens@);
                    tokens.push(token);
                    proof {
                        assert(tokens_view(tokens@) =~= before.push(token@));
                        match lex_from(b, end as int) {
                            Ok(rest) => {
                                assert(before + (seq![token@] + rest) =~= tokens_view(tokens@) + rest);
                            },
                            Err(_) => {},
                        }
                    }
                    pos = end;
                },
                Err(error) => {
                    return Err(error);
                },
            }
        }
    }
}

} // verus!
