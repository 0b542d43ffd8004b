//! The tokens that the parser reads.

use crate::expr::{Number, Size, SizeView};
use crate::span::Spanned;
use vstd::prelude::*;
use vstd::string::*;

verus! {

/// A lexical unit of the source, as a tokenizer delivers it. Body text is cut
/// into text, whitespace, comments, style markers, raw blocks and bracketed
/// functions; the header of a function is cut into the tokens of expressions.
#[derive(Debug, PartialEq)]
pub enum Token {
    /// A run of whitespace, with the number of line endings in it.
    Space(usize),
    /// A line comment with its text: `//<text>`.
    LineComment(String),
    /// A block comment with its text: `/*<text>*/`.
    BlockComment(String),
    /// A bracketed function: `[header][body]`. Header and body are
    /// delivered as they stand in the source. The span of the body is
    /// counted from the opening bracket of the function, and begins at the
    /// opening bracket of the body.
    Function {
        /// The text between the first pair of brackets.
        header: String,
        /// The text between the second pair of brackets, if there is one.
        body: Option<Spanned<String>>,
        /// Whether the last bracket was closed.
        terminated: bool,
    },
    /// `(`
    LeftParen,
    /// `)`
    RightParen,
    /// `{`
    LeftBrace,
    /// `}`
    RightBrace,
    /// `:`
    Colon,
    /// `,`
    Comma,
    /// `=`
    Equals,
    /// An identifier in a header.
    ExprIdent(String),
    /// A string literal in a header, without its quotes and still escaped.
    ExprStr {
        /// The text between the quotes.
        string: String,
        /// Whether the closing quote was there.
        terminated: bool,
    },
    /// A number literal in a header.
    ExprNumber(Number),
    /// A length literal in a header.
    ExprSize(Size),
    /// `true` or `false` in a header.
    ExprBool(bool),
    /// A `#` with the letters and digits behind it.
    ExprHex(String),
    /// `+`
    Plus,
    /// `-`
    Hyphen,
    /// `*`
    Star,
    /// `/`
    Slash,
    /// `_`
    Underscore,
    /// A backslash before whitespace.
    Backslash,
    /// Raw text between backticks, still escaped.
    Raw {
        /// The text between the backticks.
        raw: String,
        /// Whether the closing backtick was there.
        terminated: bool,
    },
    /// Body text.
    Text(String),
    /// Text that is no token.
    Invalid(String),
}

/// The mathematical value of a [`Token`].
pub enum TokenView {
    Space(usize),
    LineComment(Seq<char>),
    BlockComment(Seq<char>),
    Function { header: Seq<char>, body: Option<Spanned<Seq<char>>>, terminated: bool },
    LeftParen,
    RightParen,
    LeftBrace,
    RightBrace,
    Colon,
    Comma,
    Equals,
    ExprIdent(Seq<char>),
    ExprStr { string: Seq<char>, terminated: bool },
    ExprNumber(Seq<char>),
    ExprSize(SizeView),
    ExprBool(bool),
    ExprHex(Seq<char>),
    Plus,
    Hyphen,
    Star,
    Slash,
    Underscore,
    Backslash,
    Raw { raw: Seq<char>, terminated: bool },
    Text(Seq<char>),
    Invalid(Seq<char>),
}

/// The view of an optional body text.
pub open spec fn body_view(body: Option<Spanned<String>>) -> Option<Spanned<Seq<char>>> {
    match body {
        Some(text) => Some(text@),
        None => None,
    }
}

/// The view of a token: strings become character sequences.
pub open spec fn token_view(token: Token) -> TokenView {
    match token {
        Token::Space(n) => TokenView::Space(n),
        Token::LineComment(s) => TokenView::LineComment(s@),
        Token::BlockComment(s) => TokenView::BlockComment(s@),
        Token::Function { header, body, terminated } => TokenView::Function {
            header: header@,
            body: body_view(body),
            terminated,
        },
        Token::LeftParen => TokenView::LeftParen,
        Token::RightParen => TokenView::RightParen,
        Token::LeftBrace => TokenView::LeftBrace,
        Token::RightBrace => TokenView::RightBrace,
        Token::Colon => TokenView::Colon,
        Token::Comma => TokenView::Comma,
        Token::Equals => TokenView::Equals,
        Token::ExprIdent(s) => TokenView::ExprIdent(s@),
        Token::ExprStr { string, terminated } => TokenView::ExprStr { string: string@, terminated },
        Token::ExprNumber(n) => TokenView::ExprNumber(n@),
        Token::ExprSize(s) => TokenView::ExprSize(s@),
        Token::ExprBool(b) => TokenView::ExprBool(b),
        Token::ExprHex(s) => TokenView::ExprHex(s@),
        Token::Plus => TokenView::Plus,
        Token::Hyphen => TokenView::Hyphen,
        Token::Star => TokenView::Star,
        Token::Slash => TokenView::Slash,
        Token::Underscore => TokenView::Underscore,
        Token::Backslash => TokenView::Backslash,
        Token::Raw { raw, terminated } => TokenView::Raw { raw: raw@, terminated },
        Token::Text(s) => TokenView::Text(s@),
        Token::Invalid(s) => TokenView::Invalid(s@),
    }
}

impl View for Token {
    type V = TokenView;

    open spec fn view(&self) -> TokenView {
        token_view(*self)
    }
}

/// The views of a run of tokens, one by one.
pub open spec fn tokens_view(tokens: Seq<Spanned<Token>>) -> Seq<Spanned<TokenView>> {
    Seq::new(tokens.len(), |i: int| tokens[i]@)
}

impl TokenView {
    /// What a diagnostic calls the token.
    pub open spec fn name(self) -> Seq<char> {
        match self {
            TokenView::Space(_) => "space"@,
            TokenView::LineComment(_) => "line comment"@,
            TokenView::BlockComment(_) => "block comment"@,
            TokenView::Function { .. } => "function"@,
            TokenView::LeftParen => "opening paren"@,
            TokenView::RightParen => "closing paren"@,
            TokenView::LeftBrace => "opening brace"@,
            TokenView::RightBrace => "closing brace"@,
            TokenView::Colon => "colon"@,
            TokenView::Comma => "comma"@,
            TokenView::Equals => "equals sign"@,
            TokenView::ExprIdent(_) => "identifier"@,
            TokenView::ExprStr { .. } => "string"@,
            TokenView::ExprNumber(_) => "number"@,
            TokenView::ExprSize(_) => "size"@,
            TokenView::ExprBool(_) => "bool"@,
            TokenView::ExprHex(_) => "hex value"@,
            TokenView::Plus => "plus"@,
            TokenView::Hyphen => "minus"@,
            TokenView::Star => "star"@,
            TokenView::Slash => "slash"@,
            TokenView::Underscore => "underscore"@,
            TokenView::Backslash => "backslash"@,
            TokenView::Raw { .. } => "raw"@,
            TokenView::Text(_) => "text"@,
            TokenView::Invalid(s) => if s == seq!['*', '/'] {
                "end of block comment"@
            } else {
                "invalid token"@
            },
        }
    }

    /// Whether the token separates others without meaning anything: whitespace
    /// or a comment.
    pub open spec fn is_whitespace(self) -> bool {
        self is Space || self is LineComment || self is BlockComment
    }
}

/// Whether a text is `*/`, the end of a block comment that was never opened.
pub fn is_block_comment_end(text: &str) -> (b: bool)
    ensures
        b == (text@ == seq!['*', '/']),
{
    let mut iter = text.chars();
    let first = iter.next();
    let second = iter.next();
    let third = iter.next();
    proof {
        if text@.len() >= 1 {
            assert(text@.skip(0) =~= text@);
        }
        if first == Some('*') && second == Some('/') && third is None {
            assert(text@ =~= seq!['*', '/']);
        }
    }
    first == Some('*') && second == Some('/') && third.is_none()
}

impl Token {
    /// What a diagnostic calls the token.
    pub fn name(&self) -> (name: &'static str)
        ensures
            name@ == self@.name(),
    {
        match self {
            Token::Space(_) => "space",
            Token::LineComment(_) => "line comment",
            Token::BlockComment(_) => "block comment",
            Token::Function { .. } => "function",
            Token::LeftParen => "opening paren",
            Token::RightParen => "closing paren",
            Token::LeftBrace => "opening brace",
            Token::RightBrace => "closing brace",
            Token::Colon => "colon",
            Token::Comma => "comma",
            Token::Equals => "equals sign",
            Token::ExprIdent(_) => "identifier",
            Token::ExprStr { .. } => "string",
            Token::ExprNumber(_) => "number",
            Token::ExprSize(_) => "size",
            Token::ExprBool(_) => "bool",
            Token::ExprHex(_) => "hex value",
            Token::Plus => "plus",
            Token::Hyphen => "minus",
            Token::Star => "star",
            Token::Slash => "slash",
            Token::Underscore => "underscore",
            Token::Backslash => "backslash",
            Token::Raw { .. } => "raw",
            Token::Text(_) => "text",
            Token::Invalid(s) => if is_block_comment_end(s.as_str()) {
                "end of block comment"
            } else {
                "invalid token"
            },
        }
    }

    /// Whether the token is whitespace or a comment.
    pub fn is_whitespace(&self) -> (b: bool)
        ensures
            b == self@.is_whitespace(),
    {
        match self {
            Token::Space(_) | Token::LineComment(_) | Token::BlockComment(_) => true,
            _ => false,
        }
    }
}

/// Whether two optional body texts are equal.
pub fn same_body(a: &Option<Spanned<String>>, b: &Option<Spanned<String>>) -> (same: bool)
    ensures
        same == (body_view(*a) == body_view(*b)),
{
    match (a, b) {
        (Some(x), Some(y)) => x.span == y.span && x.v == y.v,
        (None, None) => true,
        _ => false,
    }
}

impl Token {
    /// Whether two tokens are equal: of one kind, with equal texts and
    /// values.
    pub fn same(&self, other: &Token) -> (same: bool)
        ensures
            same == (self@ == other@),
    {
        match (self, other) {
            (Token::Space(a), Token::Space(b)) => *a == *b,
            (Token::LineComment(a), Token::LineComment(b)) => *a == *b,
            (Token::BlockComment(a), Token::BlockComment(b)) => *a == *b,
            (
                Token::Function { header: h1, body: b1, terminated: t1 },
                Token::Function { header: h2, body: b2, terminated: t2 },
            ) => *t1 == *t2 && same_body(b1, b2) && *h1 == *h2,
            (Token::LeftParen, Token::LeftParen) => true,
            (Token::RightParen, Token::RightParen) => true,
            (Token::LeftBrace, Token::LeftBrace) => true,
            (Token::RightBrace, Token::RightBrace) => true,
            (Token::Colon, Token::Colon) => true,
            (Token::Comma, Token::Comma) => true,
            (Token::Equals, Token::Equals) => true,
            (Token::ExprIdent(a), Token::ExprIdent(b)) => *a == *b,
            (
                Token::ExprStr { string: s1, terminated: t1 },
                Token::ExprStr { string: s2, terminated: t2 },
            ) => *t1 == *t2 && *s1 == *s2,
            (Token::ExprNumber(a), Token::ExprNumber(b)) => a.literal == b.literal,
            (Token::ExprSize(a), Token::ExprSize(b)) => a.unit == b.unit && a.value == b.value,
            (Token::ExprBool(a), Token::ExprBool(b)) => *a == *b,
            (Token::ExprHex(a), Token::ExprHex(b)) => *a == *b,
            (Token::Plus, Token::Plus) => true,
            (Token::Hyphen, Token::Hyphen) => true,
            (Token::Star, Token::Star) => true,
            (Token::Slash, Token::Slash) => true,
            (Token::Underscore, Token::Underscore) => true,
            (Token::Backslash, Token::Backslash) => true,
            (Token::Raw { raw: r1, terminated: t1 }, Token::Raw { raw: r2, terminated: t2 }) => *t1
                == *t2 && *r1 == *r2,
            (Token::Text(a), Token::Text(b)) => *a == *b,
            (Token::Invalid(a), Token::Invalid(b)) => *a == *b,
            _ => false,
        }
    }
}

} // verus!
