//! What a tokenizer cuts a source text into, as mathematical functions on
//! the characters of the text.
//!
//! A text is cut from front to back. Each token begins where the one before
//! it ended, so the tokens cover the text without gaps. A function in
//! brackets is one token, whatever stands between its brackets: its header
//! is cut into tokens of its own when the function is parsed.

use crate::escaping::spec_is_newline_char;
use crate::expr::{SizeView, Unit};
use crate::span::{saturating_difference, saturating_sum, Position, Span, Spanned};
use crate::tokens::TokenView;
use vstd::prelude::*;

verus! {

/// Whether a text is cut as the header of a function or as a body.
#[derive(Clone, Copy, Debug, PartialEq, Eq, Structural)]
pub enum TokenizationMode {
    /// The tokens of expressions.
    Header,
    /// Text, markup and functions.
    Body,
}

/// What was last seen in a block comment.
#[derive(Clone, Copy, Debug, PartialEq, Eq, Structural)]
pub enum Last {
    /// A slash that may open a nested comment.
    Slash,
    /// A star that may close the comment.
    Star,
    /// Anything else.
    Other,
}

/// Whether a character is whitespace, as `char::is_whitespace` tells.
pub uninterp spec fn whitespace(c: char) -> bool;

/// Whether a character is a letter, as `char::is_alphabetic` tells.
pub uninterp spec fn alphabetic(c: char) -> bool;

/// Whether a character is a number, as `char::is_numeric` tells.
pub uninterp spec fn numeric(c: char) -> bool;

/// Whether a character is a letter or a number.
pub open spec fn alphanumeric(c: char) -> bool {
    alphabetic(c) || numeric(c)
}

/// Whether a character is one of the ten digits.
pub open spec fn is_digit(c: char) -> bool {
    '0' <= c && c <= '9'
}

/// Whether a character is an ASCII letter.
pub open spec fn is_ascii_letter(c: char) -> bool {
    ('a' <= c && c <= 'z') || ('A' <= c && c <= 'Z')
}

/// Whether a character is an ASCII letter or digit.
pub open spec fn is_ascii_alphanumeric(c: char) -> bool {
    is_digit(c) || is_ascii_letter(c)
}

/// `char::is_whitespace` tells whether a character has the Unicode property
/// `White_Space`. The answer depends on the character alone. Of the ASCII
/// characters the space and the five from the tabulator to the carriage
/// return have the property, and no other.
pub assume_specification[ char::is_whitespace ](c: char) -> (b: bool)
    ensures
        b == whitespace(c),
        c <= '\x7f' ==> b == (c == ' ' || ('\x09' <= c && c <= '\x0d')),
;

/// `char::is_alphabetic` tells whether a character has the Unicode property
/// `Alphabetic`. The answer depends on the character alone. Of the ASCII
/// characters the letters have the property, and no other.
pub assume_specification[ char::is_alphabetic ](c: char) -> (b: bool)
    ensures
        b == alphabetic(c),
        c <= '\x7f' ==> b == is_ascii_letter(c),
;

/// `char::is_alphanumeric` tells whether a character is alphabetic, as
/// `char::is_alphabetic` tells, or numeric, as `char::is_numeric` tells.
/// Of the ASCII characters the letters and the digits are, and no other.
pub assume_specification[ char::is_alphanumeric ](c: char) -> (b: bool)
    ensures
        b == (alphabetic(c) || numeric(c)),
        c <= '\x7f' ==> b == is_ascii_alphanumeric(c),
;

/// The position behind the character at an index, given the position of
/// the character. A line ends behind a newline character, but not behind
/// a carriage return directly before a line feed. Lines and columns stop at
/// the largest machine integer.
pub open spec fn step(src: Seq<char>, index: int, pos: Position) -> Position {
    if spec_is_newline_char(src[index]) && !(src[index] == '\r' && index + 1 < src.len() && src[index
        + 1] == '\n') {
        Position { line: saturating_sum(pos.line, 1), column: 0 }
    } else {
        Position { line: pos.line, column: saturating_sum(pos.column, 1) }
    }
}

/// The position of the character at an index in a text that begins at
/// `start`.
pub open spec fn pos_at(src: Seq<char>, start: Position, index: int) -> Position
    decreases index,
{
    if index <= 0 {
        start
    } else {
        step(src, index - 1, pos_at(src, start, index - 1))
    }
}

/// What a run of characters ends before.
#[derive(Clone, Copy, Debug, PartialEq, Eq, Structural)]
pub enum Stop {
    /// A newline character.
    Newline,
    /// A character that is no whitespace.
    Content,
    /// A character that is no digit.
    NoDigit,
    /// A character that is no ASCII letter or digit.
    NoAlphanumeric,
}

impl Stop {
    /// Whether a run ends before a character.
    pub open spec fn stops(self, c: char) -> bool {
        match self {
            Stop::Newline => spec_is_newline_char(c),
            Stop::Content => !whitespace(c),
            Stop::NoDigit => !is_digit(c),
            Stop::NoAlphanumeric => !is_ascii_alphanumeric(c),
        }
    }
}

/// The index of the first character at or behind `from` that a run ends
/// before, or the length of the text if there is none.
pub open spec fn find(src: Seq<char>, from: int, stop: Stop) -> int
    decreases src.len() - from,
{
    if 0 <= from < src.len() && !stop.stops(src[from]) {
        find(src, from + 1, stop)
    } else {
        from
    }
}

/// The index at which a block comment ends: that of the slash of the `*/`
/// that closes it, or the length of the text if it is not closed. `depth`
/// counts the comments that were opened within it and not closed yet.
pub open spec fn comment_end(src: Seq<char>, from: int, depth: nat, last: Last) -> int
    decreases src.len() - from,
{
    if 0 <= from < src.len() {
        let c = src[from];
        if c == '/' {
            if last == Last::Star {
                if depth == 0 {
                    from
                } else {
                    comment_end(src, from + 1, (depth - 1) as nat, last)
                }
            } else {
                comment_end(src, from + 1, depth, Last::Slash)
            }
        } else if c == '*' {
            if last == Last::Slash {
                comment_end(src, from + 1, depth + 1, last)
            } else {
                comment_end(src, from + 1, depth, Last::Star)
            }
        } else {
            comment_end(src, from + 1, depth, Last::Other)
        }
    } else {
        from
    }
}

/// The index of the first `quote` at or behind `from` that no backslash
/// escapes, or the length of the text if there is none. `escaped` tells
/// whether the character at `from` is escaped.
pub open spec fn unescaped_end(src: Seq<char>, from: int, quote: char, escaped: bool) -> int
    decreases src.len() - from,
{
    if 0 <= from < src.len() {
        let c = src[from];
        if c == quote && !escaped {
            from
        } else {
            unescaped_end(src, from + 1, quote, c == '\\' && !escaped)
        }
    } else {
        from
    }
}

/// Whether a character ends a word. In a body a word ends before
/// whitespace, a bracket, a slash, a star, a backslash, an underscore and a
/// backtick. In a header it ends before whitespace, a bracket, a slash, a
/// star, the punctuation of expressions, and before a sign unless the sign
/// follows an `e`, where it may belong to the exponent of a number.
pub open spec fn ends_word(c: char, mode: TokenizationMode, last_was_e: bool) -> bool {
    whitespace(c) || c == '[' || c == ']' || c == '/' || c == '*' || match mode {
        TokenizationMode::Body => c == '\\' || c == '_' || c == '`',
        TokenizationMode::Header => c == ':' || c == '=' || c == ',' || c == '"' || c == '('
            || c == ')' || c == '{' || c == '}' || ((c == '+' || c == '-') && !last_was_e),
    }
}

/// The index at which the word ends that reaches to `from`.
pub open spec fn word_end(src: Seq<char>, from: int, mode: TokenizationMode, last_was_e: bool) -> int
    decreases src.len() - from,
{
    if 0 <= from < src.len() && !ends_word(src[from], mode, last_was_e) {
        word_end(src, from + 1, mode, src[from] == 'e' || src[from] == 'E')
    } else {
        from
    }
}

/// The index behind a closing character at `end`, if there is one.
pub open spec fn behind(src: Seq<char>, end: int) -> int {
    if end < src.len() {
        end + 1
    } else {
        end
    }
}

/// The index at which a part of a function ends, its header or its body:
/// that of the bracket that closes it, or the length of the text if it is
/// not closed. Brackets within functions, comments, strings and raw text
/// of the part do not close it, nor does a bracket behind a backslash.
pub open spec fn part_end(src: Seq<char>, from: int) -> int
    decreases src.len() - from, 1int,
{
    if 0 <= from < src.len() {
        let c = src[from];
        let next = from + 1;
        if c == ']' {
            from
        } else if c == '[' {
            let end = function_end(src, next);
            if from < end <= src.len() {
                part_end(src, end)
            } else {
                src.len() as int
            }
        } else if c == '/' && next < src.len() && src[next] == '/' {
            proof {
                lemma_find_bounds(src, next, Stop::Newline);
            }
            part_end(src, find(src, next, Stop::Newline))
        } else if c == '/' && next < src.len() && src[next] == '*' {
            proof {
                lemma_comment_end_bounds(src, next + 1, 0, Last::Other);
            }
            part_end(src, behind(src, comment_end(src, next + 1, 0, Last::Other)))
        } else if c == '"' || c == '`' {
            proof {
                lemma_unescaped_end_bounds(src, next, c, false);
            }
            part_end(src, behind(src, unescaped_end(src, next, c, false)))
        } else if c == '\\' {
            part_end(src, behind(src, next))
        } else {
            part_end(src, next)
        }
    } else {
        from
    }
}

/// The index behind a function whose header begins at `from`: behind the
/// bracket that closes its header, or, where a body follows at once, behind
/// the bracket that closes its body.
pub open spec fn function_end(src: Seq<char>, from: int) -> int
    decreases src.len() - from, 2int,
{
    if 0 <= from <= src.len() {
        let header_end = part_end(src, from);
        if from <= header_end <= src.len() {
            let body = behind(src, header_end);
            if body < src.len() && src[body] == '[' {
                behind(src, part_end(src, body + 1))
            } else {
                body
            }
        } else {
            src.len() as int
        }
    } else {
        from
    }
}

/// Finding moves forward, and not beyond the end.
pub proof fn lemma_find_bounds(src: Seq<char>, from: int, stop: Stop)
    requires
        0 <= from <= src.len(),
    ensures
        from <= find(src, from, stop) <= src.len(),
    decreases src.len() - from,
{
    if from < src.len() && !stop.stops(src[from]) {
        lemma_find_bounds(src, from + 1, stop);
    }
}

/// The end of a block comment lies ahead, and not beyond the end.
pub proof fn lemma_comment_end_bounds(src: Seq<char>, from: int, depth: nat, last: Last)
    requires
        0 <= from <= src.len(),
    ensures
        from <= comment_end(src, from, depth, last) <= src.len(),
    decreases src.len() - from,
{
    if from < src.len() {
        let c = src[from];
        if c == '/' {
            if last == Last::Star {
                if depth != 0 {
                    lemma_comment_end_bounds(src, from + 1, (depth - 1) as nat, last);
                }
            } else {
                lemma_comment_end_bounds(src, from + 1, depth, Last::Slash);
            }
        } else if c == '*' {
            if last == Last::Slash {
                lemma_comment_end_bounds(src, from + 1, depth + 1, last);
            } else {
                lemma_comment_end_bounds(src, from + 1, depth, Last::Star);
            }
        } else {
            lemma_comment_end_bounds(src, from + 1, depth, Last::Other);
        }
    }
}

/// The end of a quoted text lies ahead, and not beyond the end.
pub proof fn lemma_unescaped_end_bounds(src: Seq<char>, from: int, quote: char, escaped: bool)
    requires
        0 <= from <= src.len(),
    ensures
        from <= unescaped_end(src, from, quote, escaped) <= src.len(),
    decreases src.len() - from,
{
    if from < src.len() {
        let c = src[from];
        if !(c == quote && !escaped) {
            lemma_unescaped_end_bounds(src, from + 1, quote, c == '\\' && !escaped);
        }
    }
}

/// The end of a word lies ahead, and not beyond the end.
pub proof fn lemma_word_end_bounds(src: Seq<char>, from: int, mode: TokenizationMode, last_was_e: bool)
    requires
        0 <= from <= src.len(),
    ensures
        from <= word_end(src, from, mode, last_was_e) <= src.len(),
    decreases src.len() - from,
{
    if from < src.len() && !ends_word(src[from], mode, last_was_e) {
        lemma_word_end_bounds(src, from + 1, mode, src[from] == 'e' || src[from] == 'E');
    }
}

/// The end of a part of a function lies ahead, and not beyond the end.
pub proof fn lemma_part_end_bounds(src: Seq<char>, from: int)
    requires
        0 <= from <= src.len(),
    ensures
        from <= part_end(src, from) <= src.len(),
    decreases src.len() - from, 1int,
{
    if from < src.len() {
        let c = src[from];
        let next = from + 1;
        if c == ']' {
        } else if c == '[' {
            lemma_function_end_bounds(src, next);
            lemma_part_end_bounds(src, function_end(src, next));
        } else if c == '/' && next < src.len() && src[next] == '/' {
            lemma_find_bounds(src, next, Stop::Newline);
            lemma_part_end_bounds(src, find(src, next, Stop::Newline));
        } else if c == '/' && next < src.len() && src[next] == '*' {
            lemma_comment_end_bounds(src, next + 1, 0, Last::Other);
            lemma_part_end_bounds(src, behind(src, comment_end(src, next + 1, 0, Last::Other)));
        } else if c == '"' || c == '`' {
            lemma_unescaped_end_bounds(src, next, c, false);
            lemma_part_end_bounds(src, behind(src, unescaped_end(src, next, c, false)));
        } else if c == '\\' {
            lemma_part_end_bounds(src, behind(src, next));
        } else {
            lemma_part_end_bounds(src, next);
        }
    }
}

/// A function ends behind where its header begins, and not beyond the end.
pub proof fn lemma_function_end_bounds(src: Seq<char>, from: int)
    requires
        0 <= from <= src.len(),
    ensures
        from <= function_end(src, from) <= src.len(),
    decreases src.len() - from, 2int,
{
    lemma_part_end_bounds(src, from);
    let header_end = part_end(src, from);
    let body = behind(src, header_end);
    if body < src.len() && src[body] == '[' {
        lemma_part_end_bounds(src, body + 1);
    }
}

/// The index at which the digits end that begin at `from`.
pub open spec fn digits_end(text: Seq<char>, from: int) -> int {
    find(text, from, Stop::NoDigit)
}

/// The index behind a sign at `from`, if there is one.
pub open spec fn skip_sign(text: Seq<char>, from: int) -> int {
    if 0 <= from < text.len() && (text[from] == '+' || text[from] == '-') {
        from + 1
    } else {
        from
    }
}

/// Whether a text is a word, in whatever case of its letters.
pub open spec fn is_word(text: Seq<char>, word: Seq<char>) -> bool {
    &&& text.len() == word.len()
    &&& forall|i: int|
        0 <= i < text.len() ==> #[trigger] text[i] == word[i] || ('A' <= text[i] && text[i] <= 'Z'
            && text[i] as u32 + 32 == word[i] as u32)
}

/// Whether the text from `from` on is a decimal number: digits with at most
/// one point among them, before it or behind it or both, and behind them at
/// most one exponent, which is an `e`, a sign or none, and digits.
pub open spec fn is_decimal(text: Seq<char>, from: int) -> bool {
    let whole_end = digits_end(text, from);
    let pointed = whole_end < text.len() && text[whole_end] == '.';
    let mantissa_end = if pointed {
        digits_end(text, whole_end + 1)
    } else {
        whole_end
    };
    let digits = if pointed {
        mantissa_end - from - 1
    } else {
        mantissa_end - from
    };
    &&& digits > 0
    &&& mantissa_end == text.len() || {
        let exponent = skip_sign(text, mantissa_end + 1);
        &&& text[mantissa_end] == 'e' || text[mantissa_end] == 'E'
        &&& digits_end(text, exponent) > exponent
        &&& digits_end(text, exponent) == text.len()
    }
}

/// Whether a text is the literal of a number: behind a sign or none, a
/// decimal number, or in whatever case `inf`, `infinity` or `nan`. These
/// are the texts that the standard library reads as floating-point numbers.
pub open spec fn is_number(text: Seq<char>) -> bool {
    let from = skip_sign(text, 0);
    let unsigned = text.skip(from);
    is_decimal(text, from) || is_word(unsigned, seq!['i', 'n', 'f']) || is_word(
        unsigned,
        seq!['i', 'n', 'f', 'i', 'n', 'i', 't', 'y'],
    ) || is_word(unsigned, seq!['n', 'a', 'n'])
}

/// The unit that a text ends with.
pub open spec fn unit_of(text: Seq<char>) -> Option<Unit> {
    if text.len() < 2 {
        None
    } else {
        let a = text[text.len() - 2];
        let b = text[text.len() - 1];
        if a == 'p' && b == 't' {
            Some(Unit::Pt)
        } else if a == 'm' && b == 'm' {
            Some(Unit::Mm)
        } else if a == 'c' && b == 'm' {
            Some(Unit::Cm)
        } else if a == 'i' && b == 'n' {
            Some(Unit::In)
        } else {
            None
        }
    }
}

/// Whether a text is an identifier: a letter, an underscore or a hyphen,
/// and behind it letters, digits, underscores, hyphens and dots.
pub open spec fn is_identifier(text: Seq<char>) -> bool {
    &&& text.len() > 0
    &&& alphabetic(text[0]) || text[0] == '_' || text[0] == '-'
    &&& forall|i: int|
        0 < i < text.len() ==> alphanumeric(#[trigger] text[i]) || text[i] == '_' || text[i] == '-'
            || text[i] == '.'
}

/// The token that a word in a header is: a truth value, a number, a
/// length, an identifier, or none of them.
pub open spec fn classify(text: Seq<char>) -> TokenView {
    if text == seq!['t', 'r', 'u', 'e'] {
        TokenView::ExprBool(true)
    } else if text == seq!['f', 'a', 'l', 's', 'e'] {
        TokenView::ExprBool(false)
    } else if is_number(text) {
        TokenView::ExprNumber(text)
    } else if unit_of(text) is Some && is_number(text.take(text.len() - 2)) {
        TokenView::ExprSize(
            SizeView { value: text.take(text.len() - 2), unit: unit_of(text).unwrap() },
        )
    } else if is_identifier(text) {
        TokenView::ExprIdent(text)
    } else {
        TokenView::Invalid(text)
    }
}

/// Whether a backslash makes the character behind it text.
pub open spec fn is_escapable(c: char) -> bool {
    c == '[' || c == ']' || c == '\\' || c == '/' || c == '*' || c == '_' || c == '`'
}

/// The function that begins with the bracket at `index`, and the index
/// behind it. The span of its body is counted from the bracket at `index`;
/// it runs from the opening bracket of the body to its closing bracket.
pub open spec fn function_at(src: Seq<char>, start: Position, index: int) -> (TokenView, int) {
    let header_end = part_end(src, index + 1);
    let header = src.subrange(index + 1, header_end);
    let body = behind(src, header_end);
    if body < src.len() && src[body] == '[' {
        let body_end = part_end(src, body + 1);
        let origin = pos_at(src, start, index);
        (
            TokenView::Function {
                header,
                body: Some(
                    Spanned {
                        v: src.subrange(body + 1, body_end),
                        span: Span {
                            start: pos_at(src, start, body).spec_relative(origin),
                            end: pos_at(src, start, body_end).spec_relative(origin),
                        },
                    },
                ),
                terminated: body_end < src.len(),
            },
            behind(src, body_end),
        )
    } else {
        (TokenView::Function { header, body: None, terminated: header_end < src.len() }, body)
    }
}

/// The token that a single character is, if it is one by itself: a
/// closing bracket without a function, the star, in a header the punctuation
/// of expressions, in a body the underscore.
pub open spec fn single(c: char, mode: TokenizationMode) -> Option<TokenView> {
    if c == ']' {
        Some(TokenView::Invalid(seq![']']))
    } else if c == '*' {
        Some(TokenView::Star)
    } else {
        match mode {
            TokenizationMode::Header => if c == '(' {
                Some(TokenView::LeftParen)
            } else if c == ')' {
                Some(TokenView::RightParen)
            } else if c == '{' {
                Some(TokenView::LeftBrace)
            } else if c == '}' {
                Some(TokenView::RightBrace)
            } else if c == ':' {
                Some(TokenView::Colon)
            } else if c == ',' {
                Some(TokenView::Comma)
            } else if c == '=' {
                Some(TokenView::Equals)
            } else if c == '+' {
                Some(TokenView::Plus)
            } else if c == '-' {
                Some(TokenView::Hyphen)
            } else if c == '/' {
                Some(TokenView::Slash)
            } else {
                None
            },
            TokenizationMode::Body => if c == '_' {
                Some(TokenView::Underscore)
            } else {
                None
            },
        }
    }
}

/// The comment that begins with the slash at `index`, if the slash begins
/// one, and the index behind it. A line comment reaches up to the end of
/// the line; a block comment reaches up to the `*/` that closes it, or to
/// the end of the text.
pub open spec fn comment_at(src: Seq<char>, index: int) -> Option<(TokenView, int)> {
    let next = index + 1;
    if src[index] == '/' && next < src.len() && src[next] == '/' {
        let end = find(src, next, Stop::Newline);
        Some((TokenView::LineComment(src.subrange(next + 1, end)), end))
    } else if src[index] == '/' && next < src.len() && src[next] == '*' {
        let end = comment_end(src, next + 1, 0, Last::Other);
        if end < src.len() {
            Some((TokenView::BlockComment(src.subrange(next + 1, end - 1)), end + 1))
        } else {
            Some((TokenView::BlockComment(src.subrange(next + 1, end)), end))
        }
    } else {
        None
    }
}

/// The token that a quote or a backtick at `index` begins, and the index
/// behind it: the text up to the next one that no backslash escapes.
pub open spec fn quoted_at(src: Seq<char>, index: int) -> (TokenView, int) {
    let end = unescaped_end(src, index + 1, src[index], false);
    let text = src.subrange(index + 1, end);
    let terminated = end < src.len();
    (
        if src[index] == '"' {
            TokenView::ExprStr { string: text, terminated }
        } else {
            TokenView::Raw { raw: text, terminated }
        },
        behind(src, end),
    )
}

/// The token that a backslash at `index` in a body begins, and the index
/// behind it: the markup character behind the backslash as text; or the
/// backslash as text, before any other character that is no whitespace; or a
/// line break, before whitespace and at the end.
pub open spec fn escaped_at(src: Seq<char>, index: int) -> (TokenView, int) {
    let next = index + 1;
    if next < src.len() && is_escapable(src[next]) {
        (TokenView::Text(seq![src[next]]), next + 1)
    } else if next < src.len() && !whitespace(src[next]) {
        (TokenView::Text(seq!['\\']), next)
    } else {
        (TokenView::Backslash, next)
    }
}

/// The word that begins at `index`, and the index behind it: text in a
/// body, a classified word in a header.
pub open spec fn word_at(src: Seq<char>, mode: TokenizationMode, index: int) -> (TokenView, int) {
    let end = word_end(src, index + 1, mode, false);
    let text = src.subrange(index, end);
    (
        match mode {
            TokenizationMode::Header => classify(text),
            TokenizationMode::Body => TokenView::Text(text),
        },
        end,
    )
}

/// The token that begins at `index`, and the index behind it.
///
/// Comments, whitespace, functions and the star are tokens in both modes. A
/// header has the punctuation of expressions, strings, hexadecimal values and
/// words that are classified; a body has style markers, raw text, escapes
/// and words of text.
pub open spec fn token_at(src: Seq<char>, start: Position, mode: TokenizationMode, index: int) -> (
    TokenView,
    int,
) {
    let c = src[index];
    let next = index + 1;
    let header = mode == TokenizationMode::Header;
    if comment_at(src, index) is Some {
        comment_at(src, index).unwrap()
    } else if c == '*' && next < src.len() && src[next] == '/' {
        (TokenView::Invalid(seq!['*', '/']), next + 1)
    } else if whitespace(c) {
        let end = find(src, next, Stop::Content);
        (
            TokenView::Space(
                saturating_difference(pos_at(src, start, end).line, pos_at(src, start, index).line),
            ),
            end,
        )
    } else if c == '[' {
        function_at(src, start, index)
    } else if single(c, mode) is Some {
        (single(c, mode).unwrap(), next)
    } else if (header && c == '"') || (!header && c == '`') {
        quoted_at(src, index)
    } else if !header && c == '\\' {
        escaped_at(src, index)
    } else if header && c == '#' {
        let end = find(src, next, Stop::NoAlphanumeric);
        (TokenView::ExprHex(src.subrange(next, end)), end)
    } else {
        word_at(src, mode, index)
    }
}

/// Every token takes at least one character, and none beyond the end.
pub proof fn lemma_token_at_bounds(src: Seq<char>, start: Position, mode: TokenizationMode, index: int)
    requires
        0 <= index < src.len(),
    ensures
        index < token_at(src, start, mode, index).1 <= src.len(),
{
    let next = index + 1;
    lemma_find_bounds(src, next, Stop::Newline);
    lemma_find_bounds(src, next, Stop::Content);
    lemma_find_bounds(src, next, Stop::NoAlphanumeric);
    lemma_unescaped_end_bounds(src, next, src[index], false);
    lemma_word_end_bounds(src, next, mode, false);
    lemma_part_end_bounds(src, next);
    let body = behind(src, part_end(src, next));
    if body < src.len() {
        lemma_part_end_bounds(src, body + 1);
    }
    if next < src.len() {
        lemma_comment_end_bounds(src, next + 1, 0, Last::Other);
    }
}

/// The tokens of a text from `index` on.
pub open spec fn tokens_from(
    src: Seq<char>,
    start: Position,
    mode: TokenizationMode,
    index: int,
) -> Seq<Spanned<TokenView>>
    decreases src.len() - index,
{
    if 0 <= index < src.len() {
        let (token, end) = token_at(src, start, mode, index);
        proof {
            lemma_token_at_bounds(src, start, mode, index);
        }
        seq![
            Spanned {
                v: token,
                span: Span { start: pos_at(src, start, index), end: pos_at(src, start, end) },
            },
        ] + tokens_from(src, start, mode, end)
    } else {
        Seq::empty()
    }
}

/// The tokens of a text that begins at the position `start`.
pub open spec fn tokenize(src: Seq<char>, start: Position, mode: TokenizationMode) -> Seq<
    Spanned<TokenView>,
> {
    tokens_from(src, start, mode, 0)
}

} // verus!
