//! The tokenizer: it cuts a source text into tokens.

use crate::escaping::is_newline_char;
use crate::expr::{Number, Size, Unit};
use crate::lexing::{
    behind, classify, comment_at, comment_end, escaped_at, find, function_at, function_end,
    is_decimal, is_identifier, is_number, is_word, lemma_find_bounds, lemma_function_end_bounds,
    lemma_part_end_bounds, lemma_token_at_bounds, part_end, pos_at, quoted_at, single, skip_sign,
    token_at, tokens_from, unescaped_end, unit_of, word_at, word_end, Last, Stop,
    TokenizationMode,
};
use crate::span::{Position, Span, Spanned};
use crate::tokens::{tokens_view, Token, TokenView};
use vstd::prelude::*;

verus! {

/// The characters of a text.
pub fn chars_of(text: &str) -> (chars: Vec<char>)
    ensures
        chars@ == text@,
{
    let mut chars: Vec<char> = Vec::new();
    let mut iter = text.chars();
    proof {
        assert(text@.skip(0) =~= text@);
    }
    loop
        invariant
            chars.len() <= text@.len(),
            chars@ == text@.take(chars.len() as int),
            vstd::std_specs::iter::IteratorSpec::remaining(&iter) == text@.skip(chars.len() as int),
        ensures
            chars@ == text@,
        decreases text@.len() - chars.len(),
    {
        match iter.next() {
            None => {
                assert(text@.take(chars.len() as int) =~= text@);
                break ;
            },
            Some(c) => {
                let ghost before = chars@;
                chars.push(c);
                assert(text@.skip(chars.len() - 1).skip(1) =~= text@.skip(chars.len() as int));
                assert(chars@ =~= text@.take(chars.len() as int));
            },
        }
    }
    chars
}

/// The text that characters spell, from one index up to another.
pub fn text_of(chars: &Vec<char>, from: usize, to: usize) -> (text: String)
    requires
        from <= to <= chars.len(),
    ensures
        text@ == chars@.subrange(from as int, to as int),
{
    let mut text = String::new();
    let mut i = from;
    while i < to
        invariant
            from <= i <= to <= chars.len(),
            text@ == chars@.subrange(from as int, i as int),
        decreases to - i,
    {
        text.push(chars[i]);
        i += 1;
        assert(text@ =~= chars@.subrange(from as int, i as int));
    }
    text
}

impl Stop {
    /// Whether a run ends before a character.
    pub fn is_stop(self, c: char) -> (b: bool)
        ensures
            b == self.stops(c),
    {
        match self {
            Stop::Newline => is_newline_char(c),
            Stop::Content => !c.is_whitespace(),
            Stop::NoDigit => !('0' <= c && c <= '9'),
            Stop::NoAlphanumeric => !(('0' <= c && c <= '9') || ('a' <= c && c <= 'z') || ('A' <= c
                && c <= 'Z')),
        }
    }
}

/// The index of the first character at or behind `from` that a run ends
/// before, or the length of the text if there is none.
pub fn find_stop(src: &Vec<char>, from: usize, stop: Stop) -> (end: usize)
    requires
        from <= src.len(),
    ensures
        end == find(src@, from as int, stop),
        from <= end <= src.len(),
{
    let mut i = from;
    while i < src.len() && !stop.is_stop(src[i])
        invariant
            from <= i <= src.len(),
            find(src@, from as int, stop) == find(src@, i as int, stop),
        decreases src.len() - i,
    {
        i += 1;
    }
    i
}

/// The index at which the block comment ends whose text begins at `from`:
/// that of the slash of the `*/` that closes it, or the length of the text.
pub fn find_comment_end(src: &Vec<char>, from: usize) -> (end: usize)
    requires
        from <= src.len(),
    ensures
        end == comment_end(src@, from as int, 0, Last::Other),
        from <= end <= src.len(),
        end < src.len() ==> from < end,
{
    let mut i = from;
    let mut depth: usize = 0;
    let mut last = Last::Other;
    while i < src.len()
        invariant
            from <= i <= src.len(),
            depth <= i - from,
            i == from ==> last == Last::Other,
            comment_end(src@, from as int, 0, Last::Other) == comment_end(
                src@,
                i as int,
                depth as nat,
                last,
            ),
        decreases src.len() - i,
    {
        let c = src[i];
        if c == '/' {
            if last == Last::Star {
                if depth == 0 {
                    return i;
                }
                depth -= 1;
            } else {
                last = Last::Slash;
            }
        } else if c == '*' {
            if last == Last::Slash {
                depth += 1;
            } else {
                last = Last::Star;
            }
        } else {
            last = Last::Other;
        }
        i += 1;
    }
    i
}

/// The index of the first `quote` at or behind `from` that no backslash
/// escapes, or the length of the text if there is none.
pub fn find_unescaped(src: &Vec<char>, from: usize, quote: char) -> (end: usize)
    requires
        from <= src.len(),
    ensures
        end == unescaped_end(src@, from as int, quote, false),
        from <= end <= src.len(),
{
    let mut i = from;
    let mut escaped = false;
    while i < src.len()
        invariant
            from <= i <= src.len(),
            unescaped_end(src@, from as int, quote, false) == unescaped_end(
                src@,
                i as int,
                quote,
                escaped,
            ),
        decreases src.len() - i,
    {
        let c = src[i];
        if c == quote && !escaped {
            return i;
        }
        escaped = c == '\\' && !escaped;
        i += 1;
    }
    i
}

/// Whether a character ends a word.
pub fn is_word_end(c: char, mode: TokenizationMode, last_was_e: bool) -> (b: bool)
    ensures
        b == crate::lexing::ends_word(c, mode, last_was_e),
{
    c.is_whitespace() || c == '[' || c == ']' || c == '/' || c == '*' || match mode {
        TokenizationMode::Body => c == '\\' || c == '_' || c == '`',
        TokenizationMode::Header => c == ':' || c == '=' || c == ',' || c == '"' || c == '('
            || c == ')' || c == '{' || c == '}' || ((c == '+' || c == '-') && !last_was_e),
    }
}

/// The index at which the word ends that reaches to `from`.
pub fn find_word_end(src: &Vec<char>, from: usize, mode: TokenizationMode) -> (end: usize)
    requires
        from <= src.len(),
    ensures
        end == word_end(src@, from as int, mode, false),
        from <= end <= src.len(),
{
    let mut i = from;
    let mut last_was_e = false;
    while i < src.len() && !is_word_end(src[i], mode, last_was_e)
        invariant
            from <= i <= src.len(),
            word_end(src@, from as int, mode, false) == word_end(src@, i as int, mode, last_was_e),
        decreases src.len() - i,
    {
        last_was_e = src[i] == 'e' || src[i] == 'E';
        i += 1;
    }
    i
}

/// The index behind a closing character at `end`, if there is one.
pub fn step_behind(src: &Vec<char>, end: usize) -> (index: usize)
    requires
        end <= src.len(),
    ensures
        index == behind(src@, end as int),
        end <= index <= src.len(),
{
    if end < src.len() {
        end + 1
    } else {
        end
    }
}

/// The index at which a part of a function ends that begins at `from`:
/// that of the bracket that closes it, or the length of the text.
pub fn find_part_end(src: &Vec<char>, from: usize) -> (end: usize)
    requires
        from <= src.len(),
    ensures
        end == part_end(src@, from as int),
        from <= end <= src.len(),
    decreases src.len() - from, 1int,
{
    let mut i = from;
    while i < src.len()
        invariant
            from <= i <= src.len(),
            part_end(src@, from as int) == part_end(src@, i as int),
        decreases src.len() - i,
    {
        let c = src[i];
        let next = i + 1;
        proof {
            lemma_function_end_bounds(src@, next as int);
            lemma_find_bounds(src@, next as int, Stop::Newline);
        }
        if c == ']' {
            return i;
        } else if c == '[' {
            i = find_function_end(src, next);
        } else if c == '/' && next < src.len() && src[next] == '/' {
            i = find_stop(src, next, Stop::Newline);
        } else if c == '/' && next < src.len() && src[next] == '*' {
            i = step_behind(src, find_comment_end(src, next + 1));
        } else if c == '"' || c == '`' {
            i = step_behind(src, find_unescaped(src, next, c));
        } else if c == '\\' {
            i = step_behind(src, next);
        } else {
            i = next;
        }
    }
    i
}

/// The index behind a function whose header begins at `from`.
pub fn find_function_end(src: &Vec<char>, from: usize) -> (end: usize)
    requires
        from <= src.len(),
    ensures
        end == function_end(src@, from as int),
        from <= end <= src.len(),
    decreases src.len() - from, 2int,
{
    proof {
        lemma_part_end_bounds(src@, from as int);
    }
    let body = step_behind(src, find_part_end(src, from));
    if body < src.len() && src[body] == '[' {
        step_behind(src, find_part_end(src, body + 1))
    } else {
        body
    }
}

/// The characters from one index up to another.
pub fn chars_range(chars: &Vec<char>, from: usize, to: usize) -> (range: Vec<char>)
    requires
        from <= to <= chars.len(),
    ensures
        range@ == chars@.subrange(from as int, to as int),
{
    let mut range: Vec<char> = Vec::new();
    let mut i = from;
    while i < to
        invariant
            from <= i <= to <= chars.len(),
            range@ == chars@.subrange(from as int, i as int),
        decreases to - i,
    {
        range.push(chars[i]);
        i += 1;
        assert(range@ =~= chars@.subrange(from as int, i as int));
    }
    range
}

/// Whether two texts are the same.
pub fn is_exact(text: &Vec<char>, word: &Vec<char>) -> (b: bool)
    ensures
        b == (text@ == word@),
{
    if text.len() != word.len() {
        return false;
    }
    let mut i: usize = 0;
    while i < text.len()
        invariant
            i <= text.len(),
            text.len() == word.len(),
            forall|j: int| 0 <= j < i ==> text@[j] == word@[j],
        decreases text.len() - i,
    {
        if text[i] != word[i] {
            return false;
        }
        i += 1;
    }
    assert(text@ =~= word@);
    true
}

/// Whether the text from `from` on is a word, in whatever case of its
/// letters.
pub fn is_word_from(text: &Vec<char>, from: usize, word: &Vec<char>) -> (b: bool)
    requires
        from <= text.len(),
    ensures
        b == is_word(text@.skip(from as int), word@),
{
    if text.len() - from != word.len() {
        return false;
    }
    let mut i: usize = 0;
    while i < word.len()
        invariant
            i <= word.len(),
            from <= text.len(),
            text.len() - from == word.len(),
            forall|j: int|
                0 <= j < i ==> #[trigger] text@.skip(from as int)[j] == word@[j] || ('A' <= text@.skip(
                    from as int,
                )[j] && text@.skip(from as int)[j] <= 'Z' && text@.skip(from as int)[j] as u32 + 32
                    == word@[j] as u32),
        decreases word.len() - i,
    {
        let c = text[from + i];
        let w = word[i];
        assert(text@.skip(from as int)[i as int] == c);
        if !(c == w || ('A' <= c && c <= 'Z' && c as u32 + 32 == w as u32)) {
            return false;
        }
        i += 1;
    }
    true
}

/// The index behind a sign at `from`, if there is one.
pub fn step_sign(text: &Vec<char>, from: usize) -> (index: usize)
    requires
        from <= text.len(),
    ensures
        index == skip_sign(text@, from as int),
        from <= index <= text.len(),
{
    if from < text.len() && (text[from] == '+' || text[from] == '-') {
        from + 1
    } else {
        from
    }
}

/// Whether the text from `from` on is a decimal number.
pub fn is_decimal_from(text: &Vec<char>, from: usize) -> (b: bool)
    requires
        from <= text.len(),
    ensures
        b == is_decimal(text@, from as int),
{
    let whole_end = find_stop(text, from, Stop::NoDigit);
    let pointed = whole_end < text.len() && text[whole_end] == '.';
    let mantissa_end = if pointed {
        find_stop(text, whole_end + 1, Stop::NoDigit)
    } else {
        whole_end
    };
    let digits = if pointed {
        mantissa_end - from - 1
    } else {
        mantissa_end - from
    };
    if digits == 0 {
        return false;
    }
    if mantissa_end == text.len() {
        return true;
    }
    if !(text[mantissa_end] == 'e' || text[mantissa_end] == 'E') {
        return false;
    }
    let exponent = step_sign(text, mantissa_end + 1);
    let exponent_end = find_stop(text, exponent, Stop::NoDigit);
    exponent_end > exponent && exponent_end == text.len()
}

/// Whether a text is the literal of a number.
pub fn is_number_literal(text: &Vec<char>) -> (b: bool)
    ensures
        b == is_number(text@),
{
    let from = step_sign(text, 0);
    is_decimal_from(text, from) || is_word_from(text, from, &vec!['i', 'n', 'f']) || is_word_from(
        text,
        from,
        &vec!['i', 'n', 'f', 'i', 'n', 'i', 't', 'y'],
    ) || is_word_from(text, from, &vec!['n', 'a', 'n'])
}

/// The unit that a text ends with.
pub fn unit_suffix(text: &Vec<char>) -> (unit: Option<Unit>)
    ensures
        unit == unit_of(text@),
{
    if text.len() < 2 {
        return None;
    }
    let a = text[text.len() - 2];
    let b = text[text.len() - 1];
    if a == 'p' && b == 't' {
        Some(Unit::Pt)
    } else if a == 'm' && b == 'm' {
        Some(Unit::Mm)
    } else if a == 'c' && b == 'm' {
        Some(Unit::Cm)
    } else if a == 'i' && b == 'n' {
        Some(Unit::In)
    } else {
        None
    }
}

/// Whether a text is an identifier.
pub fn is_ident(text: &Vec<char>) -> (b: bool)
    ensures
        b == is_identifier(text@),
{
    if text.len() == 0 {
        return false;
    }
    let first = text[0];
    if !(first.is_alphabetic() || first == '_' || first == '-') {
        return false;
    }
    let mut i: usize = 1;
    while i < text.len()
        invariant
            1 <= i <= text.len(),
            forall|j: int|
                0 < j < i ==> crate::lexing::alphanumeric(#[trigger] text@[j]) || text@[j] == '_'
                    || text@[j] == '-' || text@[j] == '.',
        decreases text.len() - i,
    {
        let c = text[i];
        if !(c.is_alphanumeric() || c == '_' || c == '-' || c == '.') {
            return false;
        }
        i += 1;
    }
    true
}

/// The token that a word in a header is.
pub fn classify_word(text: &Vec<char>) -> (token: Token)
    ensures
        token@ == classify(text@),
{
    proof {
        assert(text@.subrange(0, text.len() as int) =~= text@);
    }
    if is_exact(text, &vec!['t', 'r', 'u', 'e']) {
        Token::ExprBool(true)
    } else if is_exact(text, &vec!['f', 'a', 'l', 's', 'e']) {
        Token::ExprBool(false)
    } else if is_number_literal(text) {
        Token::ExprNumber(Number { literal: text_of(text, 0, text.len()) })
    } else {
        match unit_suffix(text) {
            Some(unit) => {
                let value = chars_range(text, 0, text.len() - 2);
                proof {
                    assert(value@ =~= text@.take(text.len() - 2));
                }
                if is_number_literal(&value) {
                    return Token::ExprSize(Size { value: text_of(text, 0, text.len() - 2), unit });
                }
            },
            None => {},
        }
        if is_ident(text) {
            Token::ExprIdent(text_of(text, 0, text.len()))
        } else {
            Token::Invalid(text_of(text, 0, text.len()))
        }
    }
}

/// The token that a single character is, if it is one by itself.
pub fn single_token(src: &Vec<char>, index: usize, mode: TokenizationMode) -> (token: Option<Token>)
    requires
        index < src.len(),
    ensures
        crate::span::option_view(token) == single(src@[index as int], mode),
{
    let c = src[index];
    if c == ']' {
        let text = text_of(src, index, index + 1);
        assert(text@ =~= seq![']']);
        Some(Token::Invalid(text))
    } else if c == '*' {
        Some(Token::Star)
    } else {
        match mode {
            TokenizationMode::Header => if c == '(' {
                Some(Token::LeftParen)
            } else if c == ')' {
                Some(Token::RightParen)
            } else if c == '{' {
                Some(Token::LeftBrace)
            } else if c == '}' {
                Some(Token::RightBrace)
            } else if c == ':' {
                Some(Token::Colon)
            } else if c == ',' {
                Some(Token::Comma)
            } else if c == '=' {
                Some(Token::Equals)
            } else if c == '+' {
                Some(Token::Plus)
            } else if c == '-' {
                Some(Token::Hyphen)
            } else if c == '/' {
                Some(Token::Slash)
            } else {
                None
            },
            TokenizationMode::Body => if c == '_' {
                Some(Token::Underscore)
            } else {
                None
            },
        }
    }
}

/// The view of a token with the index behind it.
pub open spec fn cut_view(cut: (Token, usize)) -> (TokenView, int) {
    (cut.0@, cut.1 as int)
}

/// The comment that begins with the slash at `index`, if the slash begins
/// one, and the index behind it.
pub fn comment_token(src: &Vec<char>, index: usize) -> (cut: Option<(Token, usize)>)
    requires
        index < src.len(),
    ensures
        match cut {
            Some(found) => comment_at(src@, index as int) == Some(cut_view(found)) && index
                < found.1 <= src.len(),
            None => comment_at(src@, index as int) is None,
        },
{
    let next = index + 1;
    if src[index] == '/' && next < src.len() && src[next] == '/' {
        let end = find_stop(src, next, Stop::Newline);
        proof {
            lemma_find_bounds(src@, next + 1, Stop::Newline);
        }
        Some((Token::LineComment(text_of(src, next + 1, end)), end))
    } else if src[index] == '/' && next < src.len() && src[next] == '*' {
        let end = find_comment_end(src, next + 1);
        if end < src.len() {
            Some((Token::BlockComment(text_of(src, next + 1, end - 1)), end + 1))
        } else {
            Some((Token::BlockComment(text_of(src, next + 1, end)), end))
        }
    } else {
        None
    }
}

/// The token that a quote or a backtick at `index` begins, and the index
/// behind it.
pub fn quoted_token(src: &Vec<char>, index: usize) -> (cut: (Token, usize))
    requires
        index < src.len(),
    ensures
        cut_view(cut) == quoted_at(src@, index as int),
        index < cut.1 <= src.len(),
{
    let end = find_unescaped(src, index + 1, src[index]);
    let text = text_of(src, index + 1, end);
    let terminated = end < src.len();
    let token = if src[index] == '"' {
        Token::ExprStr { string: text, terminated }
    } else {
        Token::Raw { raw: text, terminated }
    };
    (token, step_behind(src, end))
}

/// The token that a backslash at `index` in a body begins, and the index
/// behind it.
pub fn escaped_token(src: &Vec<char>, index: usize) -> (cut: (Token, usize))
    requires
        index < src.len(),
        src[index as int] == '\\',
    ensures
        cut_view(cut) == escaped_at(src@, index as int),
        index < cut.1 <= src.len(),
{
    let next = index + 1;
    if next < src.len() {
        let c = src[next];
        if c == '[' || c == ']' || c == '\\' || c == '/' || c == '*' || c == '_' || c == '`' {
            let text = text_of(src, next, next + 1);
            assert(text@ =~= seq![c]);
            return (Token::Text(text), next + 1);
        }
        if !c.is_whitespace() {
            let text = text_of(src, index, next);
            assert(text@ =~= seq!['\\']);
            return (Token::Text(text), next);
        }
    }
    (Token::Backslash, next)
}

/// The word that begins at `index`, and the index behind it.
pub fn word_token(src: &Vec<char>, mode: TokenizationMode, index: usize) -> (cut: (Token, usize))
    requires
        index < src.len(),
    ensures
        cut_view(cut) == word_at(src@, mode, index as int),
        index < cut.1 <= src.len(),
{
    let end = find_word_end(src, index + 1, mode);
    let token = match mode {
        TokenizationMode::Header => classify_word(&chars_range(src, index, end)),
        TokenizationMode::Body => Token::Text(text_of(src, index, end)),
    };
    (token, end)
}

/// A tokenizer: it hands out the tokens of a source text one by one.
pub struct Tokens {
    /// The characters of the text.
    pub src: Vec<char>,
    /// The position at which the text begins.
    pub start: Position,
    /// Whether the text is a header or a body.
    pub mode: TokenizationMode,
    /// The index of the next character.
    pub index: usize,
    /// The position of the next character.
    pub position: Position,
}

impl Tokens {
    /// The tokenizer stands within the text, and knows its position.
    pub open spec fn inv(&self) -> bool {
        &&& self.index <= self.src.len()
        &&& self.position == pos_at(self.src@, self.start, self.index as int)
    }

    /// Whether `self` is what a tokenizer in state `before` becomes by
    /// moving to an index.
    pub open spec fn moved(&self, before: &Self, index: int) -> bool {
        &&& self.inv()
        &&& self.src == before.src
        &&& self.start == before.start
        &&& self.mode == before.mode
        &&& self.index == index
    }

    /// Create a tokenizer for a text that begins at the position `start`.
    pub fn new(start: Position, src: &str, mode: TokenizationMode) -> (tokens: Tokens)
        ensures
            tokens.inv(),
            tokens.src@ == src@,
            tokens.start == start,
            tokens.mode == mode,
            tokens.index == 0,
    {
        Tokens { src: chars_of(src), start, mode, index: 0, position: start }
    }

    /// The position of the next character: behind the last token.
    pub fn pos(&self) -> (position: Position)
        requires
            self.inv(),
        ensures
            position == pos_at(self.src@, self.start, self.index as int),
    {
        self.position
    }

    /// Move behind the next character.
    fn eat(&mut self)
        requires
            old(self).inv(),
            old(self).index < old(self).src.len(),
        ensures
            final(self).moved(old(self), old(self).index + 1),
    {
        let c = self.src[self.index];
        let next = self.index + 1;
        if is_newline_char(c) && !(c == '\r' && next < self.src.len() && self.src[next] == '\n') {
            self.position = Position::new(self.position.line.saturating_add(1), 0);
        } else {
            self.position = Position::new(
                self.position.line,
                self.position.column.saturating_add(1),
            );
        }
        self.index = next;
    }

    /// Move to an index further behind.
    fn advance(&mut self, end: usize)
        requires
            old(self).inv(),
            old(self).index <= end <= old(self).src.len(),
        ensures
            final(self).moved(old(self), end as int),
    {
        while self.index < end
            invariant
                self.inv(),
                self.src == old(self).src,
                self.start == old(self).start,
                self.mode == old(self).mode,
                self.index <= end <= self.src.len(),
            decreases end - self.index,
        {
            self.eat();
        }
    }

    /// Take the function that begins with the bracket at the index.
    fn function(&mut self) -> (token: Token)
        requires
            old(self).inv(),
            old(self).index < old(self).src.len(),
        ensures
            token@ == function_at(old(self).src@, old(self).start, old(self).index as int).0,
            final(self).moved(
                old(self),
                function_at(old(self).src@, old(self).start, old(self).index as int).1,
            ),
            old(self).index < final(self).index,
    {
        let origin = self.position;
        let begin = self.index + 1;
        let header_end = find_part_end(&self.src, begin);
        let header = text_of(&self.src, begin, header_end);
        let body = step_behind(&self.src, header_end);
        self.advance(body);
        if body < self.src.len() && self.src[body] == '[' {
            let body_end = find_part_end(&self.src, body + 1);
            let text = text_of(&self.src, body + 1, body_end);
            let from = self.position.relative(origin);
            self.advance(body_end);
            let to = self.position.relative(origin);
            let end = step_behind(&self.src, body_end);
            self.advance(end);
            Token::Function {
                header,
                body: Some(Spanned::new(text, Span::new(from, to))),
                terminated: body_end < self.src.len(),
            }
        } else {
            Token::Function { header, body: None, terminated: header_end < self.src.len() }
        }
    }

    /// Take the next token.
    pub fn next(&mut self) -> (token: Option<Spanned<Token>>)
        requires
            old(self).inv(),
        ensures
            match token {
                Some(found) => {
                    let cut = token_at(
                        old(self).src@,
                        old(self).start,
                        old(self).mode,
                        old(self).index as int,
                    );
                    &&& old(self).index < old(self).src.len()
                    &&& final(self).moved(old(self), cut.1)
                    &&& found@ == (Spanned {
                        v: cut.0,
                        span: Span {
                            start: pos_at(old(self).src@, old(self).start, old(self).index as int),
                            end: pos_at(old(self).src@, old(self).start, cut.1),
                        },
                    })
                },
                None => old(self).index == old(self).src.len() && *final(self) == *old(self),
            },
    {
        if self.index >= self.src.len() {
            return None;
        }
        let begin = self.position;
        let index = self.index;
        let c = self.src[index];
        let next = index + 1;
        let header = match self.mode {
            TokenizationMode::Header => true,
            TokenizationMode::Body => false,
        };
        let token = match comment_token(&self.src, index) {
            Some((token, end)) => {
                self.advance(end);
                token
            },
            None => {
                if c == '*' && next < self.src.len() && self.src[next] == '/' {
                    let text = text_of(&self.src, index, next + 1);
                    assert(text@ =~= seq!['*', '/']);
                    self.advance(next + 1);
                    Token::Invalid(text)
                } else if c.is_whitespace() {
                    let end = find_stop(&self.src, next, Stop::Content);
                    self.advance(end);
                    Token::Space(self.position.line.saturating_sub(begin.line))
                } else if c == '[' {
                    self.function()
                } else {
                    match single_token(&self.src, index, self.mode) {
                        Some(token) => {
                            self.advance(next);
                            token
                        },
                        None => {
                            let (token, end) = if (header && c == '"') || (!header && c == '`') {
                                quoted_token(&self.src, index)
                            } else if !header && c == '\\' {
                                escaped_token(&self.src, index)
                            } else if header && c == '#' {
                                let end = find_stop(&self.src, next, Stop::NoAlphanumeric);
                                (Token::ExprHex(text_of(&self.src, next, end)), end)
                            } else {
                                word_token(&self.src, self.mode, index)
                            };
                            self.advance(end);
                            token
                        },
                    }
                }
            },
        };
        Some(Spanned::new(token, Span::new(begin, self.position)))
    }
}

/// Cut a source text that begins at the position `start` into its tokens.
pub fn tokenize(start: Position, src: &str, mode: TokenizationMode) -> (tokens: Vec<Spanned<Token>>)
    ensures
        tokens_view(tokens@) == crate::lexing::tokenize(src@, start, mode),
{
    let mut tokenizer = Tokens::new(start, src, mode);
    let mut tokens: Vec<Spanned<Token>> = Vec::new();
    proof {
        assert(tokens_view(tokens@) =~= Seq::empty());
        assert(tokens_view(tokens@) + tokens_from(src@, start, mode, 0) =~= tokens_from(
            src@,
            start,
            mode,
            0,
        ));
    }
    loop
        invariant
            tokenizer.inv(),
            tokenizer.src@ == src@,
            tokenizer.start == start,
            tokenizer.mode == mode,
            tokens_view(tokens@) + tokens_from(src@, start, mode, tokenizer.index as int)
                == crate::lexing::tokenize(src@, start, mode),
        ensures
            tokens_view(tokens@) == crate::lexing::tokenize(src@, start, mode),
        decreases src@.len() - tokenizer.index,
    {
        let ghost before = tokens_view(tokens@);
        let ghost index = tokenizer.index as int;
        match tokenizer.next() {
            Some(token) => {
                tokens.push(token);
                proof {
                    lemma_token_at_bounds(src@, start, mode, index);
                    assert(tokens_view(tokens@) =~= before + seq![token@]);
                    assert(tokens_view(tokens@) + tokens_from(
                        src@,
                        start,
                        mode,
                        tokenizer.index as int,
                    ) =~= before + tokens_from(src@, start, mode, index));
                }
            },
            None => {
                proof {
                    assert(before + tokens_from(src@, start, mode, index) =~= before);
                }
                break ;
            },
        }
    }
    tokens
}

} // verus!
