//! The grammar of function headers, as mathematical functions on a run of
//! tokens. The parser is specified by these functions.
//!
//! ```text
//! header := identifier (":" args)?
//! args   := (arg ("," arg)*)? ","?
//! arg    := identifier "(" values ")" | identifier "=" expr | identifier | expr
//! expr   := term   (("+" | "-") expr)?
//! term   := factor (("*" | "/") term)?
//! factor := "-" value | value
//! value  := identifier "(" values ")" | identifier | string | number | size
//!         | bool | color | "(" values ")" | "{" pairs "}"
//! values := (expr ("," expr)*)? ","?
//! pairs  := (pair ("," pair)*)? ","?
//! pair   := identifier ":" expr
//! ```
//!
//! Whitespace and comments may stand between any two tokens but between a
//! name and the parenthesis of its tuple.
//!
//! Every function takes the tokens and a cursor and gives back what it read
//! together with the cursor behind it. Nothing ever fails: what cannot be
//! read is reported in the feedback that the cursor carries, and reading goes
//! on behind it.
//!
//! The functions call one another in a circle, so each of them is defined by
//! recursion on the tokens that are left. Where one goes on behind the
//! result of another, it does so only if that result has moved the cursor
//! forward. It always has: see [`crate::progress`].

use crate::color::{spec_parse_color, RgbaColor};
use crate::escaping::spec_unescape_string;
use crate::expr::{ExprView, NamedTupleView, ObjectView, PairView, TupleView};
use crate::feedback::{Decoration, FeedbackView};
use crate::func::{FuncArgView, FuncArgsView, FuncHeaderView};
use crate::span::{Position, Span, Spanned};
use crate::tokens::TokenView;
use vstd::prelude::*;

verus! {

/// A run of tokens with their spans.
pub type Tokens = Seq<Spanned<TokenView>>;

/// The grammar of the items of a collection.
#[derive(Clone, Copy, Debug, PartialEq, Eq, Structural)]
pub enum ItemKind {
    /// Arguments of a function: a value, or a key, `=` and a value.
    Argument,
    /// Items of a tuple: values.
    Value,
    /// Items of an object: a key, `:` and a value.
    Pair,
}

/// The binding strength of a binary operator.
#[derive(Clone, Copy, Debug, PartialEq, Eq, Structural)]
pub enum Tier {
    /// `+` and `-`, which join summands.
    Summand,
    /// `*` and `/`, which join factors.
    Factor,
}

/// A binary operator.
#[derive(Clone, Copy, Debug, PartialEq, Eq, Structural)]
pub enum Operator {
    /// `+`
    Add,
    /// `-`
    Sub,
    /// `*`
    Mul,
    /// `/`
    Div,
}

/// Why an item of a collection could not be read: what was expected, and
/// where, if the place is not the token at the cursor.
#[derive(Clone, Copy, Debug, PartialEq, Eq)]
pub struct Missing {
    /// What was expected.
    pub thing: &'static str,
    /// Where it was expected, if the place is known.
    pub at: Option<Position>,
}

/// The mathematical value of a [`Missing`].
pub struct MissingView {
    pub thing: Seq<char>,
    pub at: Option<Position>,
}

impl View for Missing {
    type V = MissingView;

    open spec fn view(&self) -> MissingView {
        MissingView { thing: self.thing@, at: self.at }
    }
}

/// Where a parse stands: the index of the next token, and the feedback
/// collected so far.
pub struct Cursor {
    pub index: int,
    pub feedback: FeedbackView,
}

impl Tier {
    /// What a diagnostic calls an operand of this tier.
    pub open spec fn operand_name(self) -> Seq<char> {
        match self {
            Tier::Summand => "summand"@,
            Tier::Factor => "factor"@,
        }
    }

    /// The operator of this tier that a token stands for.
    pub open spec fn operator(self, token: TokenView) -> Option<Operator> {
        match (self, token) {
            (Tier::Summand, TokenView::Plus) => Some(Operator::Add),
            (Tier::Summand, TokenView::Hyphen) => Some(Operator::Sub),
            (Tier::Factor, TokenView::Star) => Some(Operator::Mul),
            (Tier::Factor, TokenView::Slash) => Some(Operator::Div),
            _ => None,
        }
    }
}

impl Operator {
    /// The expression that joins two operands.
    pub open spec fn apply(self, left: Spanned<ExprView>, right: Spanned<ExprView>) -> ExprView {
        match self {
            Operator::Add => ExprView::Add(Box::new(left), Box::new(right)),
            Operator::Sub => ExprView::Sub(Box::new(left), Box::new(right)),
            Operator::Mul => ExprView::Mul(Box::new(left), Box::new(right)),
            Operator::Div => ExprView::Div(Box::new(left), Box::new(right)),
        }
    }
}

/// The message that something was expected.
pub open spec fn expected_message(thing: Seq<char>) -> Seq<char> {
    "expected "@ + thing
}

/// The message that something was expected where something else was found.
pub open spec fn expected_found_message(thing: Seq<char>, found: Seq<char>) -> Seq<char> {
    "expected "@ + thing + ", found "@ + found
}

/// The message that an operator has no right operand.
pub open spec fn missing_right_message(operand: Seq<char>) -> Seq<char> {
    "missing right "@ + operand
}

/// The message that a token has no place in a body.
pub open spec fn unexpected_message(found: Seq<char>) -> Seq<char> {
    "unexpected "@ + found
}

impl Cursor {
    /// The cursor at the first token, with no feedback yet.
    pub open spec fn start() -> Cursor {
        Cursor { index: 0, feedback: FeedbackView::empty() }
    }

    /// The cursor moved to another token.
    pub open spec fn at(self, index: int) -> Cursor {
        Cursor { index, ..self }
    }

    /// The cursor with one more problem reported.
    pub open spec fn error(self, span: Span, message: Seq<char>) -> Cursor {
        Cursor { feedback: self.feedback.error(span, message), ..self }
    }

    /// The cursor with one more decoration attached.
    pub open spec fn decorate(self, span: Span, deco: Decoration) -> Cursor {
        Cursor { feedback: self.feedback.decorate(span, deco), ..self }
    }

    /// Report that `thing` was expected at a position.
    pub open spec fn expected_at(self, thing: Seq<char>, pos: Position) -> Cursor {
        self.error(Span::spec_at(pos), expected_message(thing))
    }

    /// Report that `thing` was expected where the token `found` stands.
    pub open spec fn expected_found(self, thing: Seq<char>, found: Spanned<TokenView>) -> Cursor {
        self.error(found.span, expected_found_message(thing, found.v.name()))
    }

    /// Report that `thing` was expected: in place of `found` if there is such
    /// a token, at the position otherwise.
    pub open spec fn expected_found_or_at(
        self,
        thing: Seq<char>,
        found: Option<Spanned<TokenView>>,
        pos: Position,
    ) -> Cursor {
        match found {
            Some(token) => self.expected_found(thing, token),
            None => self.expected_at(thing, pos),
        }
    }
}

/// Where the tokens of a header begin: behind the opening bracket of the
/// function.
pub open spec fn origin() -> Position {
    Position { line: 0, column: 1 }
}

/// The token at an index, if there is one.
pub open spec fn peek(tokens: Tokens, index: int) -> Option<Spanned<TokenView>> {
    if 0 <= index < tokens.len() {
        Some(tokens[index])
    } else {
        None
    }
}

/// Whether the token at an index is the given one.
pub open spec fn next_is(tokens: Tokens, index: int, token: TokenView) -> bool {
    0 <= index < tokens.len() && tokens[index].v == token
}

/// Whether what stands at an index ends a collection: the closing token, or
/// for a collection without one the end of the tokens.
pub open spec fn at_end(tokens: Tokens, index: int, end: Option<TokenView>) -> bool {
    match end {
        Some(closing) => next_is(tokens, index, closing),
        None => !(0 <= index < tokens.len()),
    }
}

/// The index of the first token at or behind `index` that is neither
/// whitespace nor a comment, or the number of tokens if there is none.
pub open spec fn skip_whitespace(tokens: Tokens, index: int) -> int
    decreases tokens.len() - index,
{
    if 0 <= index < tokens.len() && tokens[index].v.is_whitespace() {
        skip_whitespace(tokens, index + 1)
    } else {
        index
    }
}

/// The position of the cursor: where the token at the index begins, or
/// behind the last token where there is none, or at the origin where there
/// are no tokens.
pub open spec fn pos(tokens: Tokens, index: int) -> Position {
    if 0 <= index < tokens.len() {
        tokens[index].span.start
    } else if tokens.len() > 0 {
        tokens.last().span.end
    } else {
        origin()
    }
}

/// Skipping whitespace moves forward, and not beyond the end.
pub proof fn lemma_skip_whitespace_bounds(tokens: Tokens, index: int)
    ensures
        index <= skip_whitespace(tokens, index),
        index <= tokens.len() ==> skip_whitespace(tokens, index) <= tokens.len(),
    decreases tokens.len() - index,
{
    if 0 <= index < tokens.len() && tokens[index].v.is_whitespace() {
        lemma_skip_whitespace_bounds(tokens, index + 1);
    }
}

/// The identifier at the index, if the token there is one.
pub open spec fn ident(tokens: Tokens, index: int) -> Option<Spanned<Seq<char>>> {
    match peek(tokens, index) {
        Some(token) => match token.v {
            TokenView::ExprIdent(text) => Some(Spanned { v: text, span: token.span }),
            _ => None,
        },
        None => None,
    }
}

/// The value of a token that is a literal: a string without its escapes, a
/// number, a length, a truth value or a color. A color that cannot be read
/// is healed: opaque black takes its place.
pub open spec fn literal(token: Spanned<TokenView>) -> Option<ExprView> {
    match token.v {
        TokenView::ExprStr { string, terminated } => Some(
            ExprView::Str(spec_unescape_string(string)),
        ),
        TokenView::ExprNumber(n) => Some(ExprView::Number(n)),
        TokenView::ExprSize(s) => Some(ExprView::Size(s)),
        TokenView::ExprBool(b) => Some(ExprView::Bool(b)),
        TokenView::ExprHex(text) => match spec_parse_color(text) {
            Some(color) => Some(ExprView::Color(color)),
            None => Some(ExprView::Color(RgbaColor::spec_black())),
        },
        _ => None,
    }
}

/// What a literal has reported: a string without its closing quote expects
/// the quote at its end; a color that cannot be read is invalid.
pub open spec fn literal_feedback(token: Spanned<TokenView>, cur: Cursor) -> Cursor {
    match token.v {
        TokenView::ExprStr { string, terminated } => if terminated {
            cur
        } else {
            cur.expected_at("quote"@, token.span.end)
        },
        TokenView::ExprHex(text) => if spec_parse_color(text) is Some {
            cur
        } else {
            cur.error(token.span, "invalid color"@)
        },
        _ => cur,
    }
}

/// What a parenthesized group stands for: its last item, where the group
/// has items and can be coerced into a single value; the tuple of its items
/// otherwise. An empty group is the empty tuple.
pub open spec fn coerced(tuple: Spanned<TupleView>, coercible: bool) -> Spanned<ExprView> {
    if coercible && tuple.v.items.len() > 0 {
        tuple.v.items.last()
    } else {
        Spanned { v: ExprView::Tuple(tuple.v), span: tuple.span }
    }
}

/// A value: an identifier, a named tuple, a literal, a tuple or an object.
/// A parenthesized group of one item without a comma is that item. A
/// color that cannot be read is reported and healed to opaque black; a
/// string without its closing quote is reported and kept.
pub open spec fn value(tokens: Tokens, cur: Cursor) -> (Option<Spanned<ExprView>>, Cursor)
    decreases tokens.len() - cur.index, 1int,
{
    match peek(tokens, cur.index) {
        None => (None, cur),
        Some(first) => {
            let next = cur.at(cur.index + 1);
            match first.v {
                TokenView::ExprIdent(text) => {
                    let (read, after) = named(tokens, next, Spanned { v: text, span: first.span });
                    (Some(read), after)
                },
                TokenView::LeftParen => {
                    let (tuple, coercible, after) = tuple(tokens, cur);
                    (Some(coerced(tuple, coercible)), after)
                },
                TokenView::LeftBrace => {
                    let (object, after) = object(tokens, cur);
                    (Some(Spanned { v: ExprView::Object(object.v), span: object.span }), after)
                },
                _ => match literal(first) {
                    Some(read) => (
                        Some(Spanned { v: read, span: first.span }),
                        literal_feedback(first, next),
                    ),
                    None => (None, cur),
                },
            }
        },
    }
}

/// What an identifier stands for, with the cursor behind it: a named
/// tuple where a parenthesis follows at once, a name otherwise.
pub open spec fn named(tokens: Tokens, cur: Cursor, name: Spanned<Seq<char>>) -> (
    Spanned<ExprView>,
    Cursor,
)
    decreases tokens.len() - cur.index, 2int,
{
    if next_is(tokens, cur.index, TokenView::LeftParen) {
        let (tuple, after) = named_tuple(tokens, cur, name);
        (Spanned { v: ExprView::NamedTuple(tuple.v), span: tuple.span }, after)
    } else {
        (Spanned { v: ExprView::Ident(name.v), span: name.span }, cur)
    }
}

/// A tuple, with the cursor at its opening parenthesis: the values up to
/// the closing parenthesis, and whether the group can stand for a single
/// value.
pub open spec fn tuple(tokens: Tokens, cur: Cursor) -> (Spanned<TupleView>, bool, Cursor)
    decreases tokens.len() - cur.index, 0int,
{
    if 0 <= cur.index < tokens.len() {
        let (args, coercible, after) = collection(
            tokens,
            cur.at(cur.index + 1),
            Some(TokenView::RightParen),
            ItemKind::Value,
        );
        (Spanned { v: args.v.pos, span: args.span }, coercible, after)
    } else {
        (Spanned { v: FuncArgsView::empty().pos, span: Span::spec_at(pos(tokens, cur.index)) }, true, cur)
    }
}

/// A tuple behind a name, with the cursor at the opening parenthesis.
pub open spec fn named_tuple(tokens: Tokens, cur: Cursor, name: Spanned<Seq<char>>) -> (
    Spanned<NamedTupleView>,
    Cursor,
)
    decreases tokens.len() - cur.index, 1int,
{
    let (tuple, _, after) = tuple(tokens, cur);
    (
        Spanned {
            v: NamedTupleView { name, tuple },
            span: Span::spec_merge(name.span, tuple.span),
        },
        after,
    )
}

/// An object, with the cursor at its opening brace: the pairs up to the
/// closing brace.
pub open spec fn object(tokens: Tokens, cur: Cursor) -> (Spanned<ObjectView>, Cursor)
    decreases tokens.len() - cur.index, 0int,
{
    if 0 <= cur.index < tokens.len() {
        let (args, _, after) = collection(
            tokens,
            cur.at(cur.index + 1),
            Some(TokenView::RightBrace),
            ItemKind::Pair,
        );
        (Spanned { v: args.v.key, span: args.span }, after)
    } else {
        (Spanned { v: FuncArgsView::empty().key, span: Span::spec_at(pos(tokens, cur.index)) }, cur)
    }
}

/// A factor: a value, or a minus sign and a value. A minus sign without a
/// value is reported as dangling, and nothing is read.
pub open spec fn factor(tokens: Tokens, cur: Cursor) -> (Option<Spanned<ExprView>>, Cursor)
    decreases tokens.len() - cur.index, 2int,
{
    match peek(tokens, cur.index) {
        None => (None, cur),
        Some(first) => {
            if first.v == TokenView::Hyphen {
                proof {
                    lemma_skip_whitespace_bounds(tokens, cur.index + 1);
                }
                let start = skip_whitespace(tokens, cur.index + 1);
                let (operand, after) = value(tokens, cur.at(start));
                match operand {
                    Some(inner) => (
                        Some(
                            Spanned {
                                v: ExprView::Neg(Box::new(inner)),
                                span: Span::spec_merge(first.span, inner.span),
                            },
                        ),
                        after,
                    ),
                    None => (None, after.error(first.span, "dangling minus"@)),
                }
            } else {
                value(tokens, cur)
            }
        },
    }
}

/// What follows the left operand of a binary operator: behind whitespace,
/// an operator of the tier and its right operand, which is itself an
/// expression of the tier, so that a chain leans to the right. Without an
/// operator the left operand is the result. An operator without a right
/// operand is reported, and the left operand is the result.
pub open spec fn binop(tokens: Tokens, cur: Cursor, left: Spanned<ExprView>, tier: Tier) -> (
    Option<Spanned<ExprView>>,
    Cursor,
)
    decreases tokens.len() - cur.index, 5int,
{
    let at = skip_whitespace(tokens, cur.index);
    match peek(tokens, at) {
        None => (Some(left), cur.at(at)),
        Some(next) => match tier.operator(next.v) {
            None => (Some(left), cur.at(at)),
            Some(operator) => {
                proof {
                    lemma_skip_whitespace_bounds(tokens, cur.index);
                    lemma_skip_whitespace_bounds(tokens, at + 1);
                }
                let start = skip_whitespace(tokens, at + 1);
                let (operand, after) = match tier {
                    Tier::Summand => expr(tokens, cur.at(start)),
                    Tier::Factor => term(tokens, cur.at(start)),
                };
                match operand {
                    Some(right) => (
                        Some(
                            Spanned {
                                v: operator.apply(left, right),
                                span: Span::spec_merge(left.span, right.span),
                            },
                        ),
                        after,
                    ),
                    None => (
                        Some(left),
                        after.error(
                            Span::spec_merge(next.span, left.span),
                            missing_right_message(tier.operand_name()),
                        ),
                    ),
                }
            },
        },
    }
}

/// A term: factors joined by `*` and `/`.
pub open spec fn term(tokens: Tokens, cur: Cursor) -> (Option<Spanned<ExprView>>, Cursor)
    decreases tokens.len() - cur.index, 3int,
{
    let (first, after) = factor(tokens, cur);
    match first {
        Some(left) => if cur.index < after.index <= tokens.len() {
            binop(tokens, after, left, Tier::Factor)
        } else {
            (first, after)
        },
        None => (None, after),
    }
}

/// An expression: terms joined by `+` and `-`.
pub open spec fn expr(tokens: Tokens, cur: Cursor) -> (Option<Spanned<ExprView>>, Cursor)
    decreases tokens.len() - cur.index, 4int,
{
    let (first, after) = term(tokens, cur);
    match first {
        Some(left) => if cur.index < after.index <= tokens.len() {
            binop(tokens, after, left, Tier::Summand)
        } else {
            (first, after)
        },
        None => (None, after),
    }
}

/// A key, the sign behind it and a value, with the cursor at the value and
/// the key decorated: a keyword argument or a pair of an object.
pub open spec fn keyed(tokens: Tokens, cur: Cursor, key: Spanned<Seq<char>>) -> (
    Result<Spanned<FuncArgView>, MissingView>,
    Cursor,
)
    decreases tokens.len() - cur.index, 5int,
{
    let (read, after) = expr(tokens, cur);
    match read {
        Some(value) => (
            Ok(
                Spanned {
                    v: FuncArgView::Key(PairView { key, value }),
                    span: Span::spec_merge(key.span, value.span),
                },
            ),
            after,
        ),
        None => (Err(MissingView { thing: "value"@, at: None }), after),
    }
}

/// A positional item: an expression. Where there is none, `thing` is
/// missing.
pub open spec fn positional(tokens: Tokens, cur: Cursor, thing: Seq<char>) -> (
    Result<Spanned<FuncArgView>, MissingView>,
    Cursor,
)
    decreases tokens.len() - cur.index, 5int,
{
    let (read, after) = expr(tokens, cur);
    match read {
        Some(value) => (Ok(Spanned { v: FuncArgView::Pos(value.v), span: value.span }), after),
        None => (Err(MissingView { thing, at: None }), after),
    }
}

/// One item of a collection.
///
/// An argument that begins with an identifier is a named tuple where a
/// parenthesis follows at once, a keyword argument where `=` follows behind
/// whitespace, and the identifier itself otherwise; any other argument is
/// an expression. An item of a tuple is an expression. An item of an object
/// is an identifier, `:` and an expression; where the colon is missing, it
/// is expected directly behind the key.
pub open spec fn item(tokens: Tokens, cur: Cursor, kind: ItemKind) -> (
    Result<Spanned<FuncArgView>, MissingView>,
    Cursor,
)
    decreases tokens.len() - cur.index, 6int,
{
    match kind {
        ItemKind::Value => positional(tokens, cur, "value"@),
        ItemKind::Argument => match ident(tokens, cur.index) {
            None => positional(tokens, cur, "argument"@),
            Some(name) => {
                if next_is(tokens, cur.index + 1, TokenView::LeftParen) {
                    let (tuple, after) = named_tuple(tokens, cur.at(cur.index + 1), name);
                    (
                        Ok(
                            Spanned {
                                v: FuncArgView::Pos(ExprView::NamedTuple(tuple.v)),
                                span: tuple.span,
                            },
                        ),
                        after,
                    )
                } else {
                    let at = skip_whitespace(tokens, cur.index + 1);
                    if next_is(tokens, at, TokenView::Equals) {
                        proof {
                            lemma_skip_whitespace_bounds(tokens, cur.index + 1);
                            lemma_skip_whitespace_bounds(tokens, at + 1);
                        }
                        let start = skip_whitespace(tokens, at + 1);
                        keyed(
                            tokens,
                            cur.at(start).decorate(name.span, Decoration::ArgumentKey),
                            name,
                        )
                    } else {
                        (
                            Ok(
                                Spanned {
                                    v: FuncArgView::Pos(ExprView::Ident(name.v)),
                                    span: name.span,
                                },
                            ),
                            cur.at(at),
                        )
                    }
                }
            },
        },
        ItemKind::Pair => match ident(tokens, cur.index) {
            None => (Err(MissingView { thing: "key"@, at: None }), cur),
            Some(key) => {
                let at = skip_whitespace(tokens, cur.index + 1);
                if next_is(tokens, at, TokenView::Colon) {
                    proof {
                        lemma_skip_whitespace_bounds(tokens, cur.index + 1);
                        lemma_skip_whitespace_bounds(tokens, at + 1);
                    }
                    let start = skip_whitespace(tokens, at + 1);
                    keyed(tokens, cur.at(start).decorate(key.span, Decoration::ObjectKey), key)
                } else {
                    (
                        Err(
                            MissingView {
                                thing: "colon"@,
                                at: Some(pos(tokens, cur.index + 1)),
                            },
                        ),
                        cur.at(at),
                    )
                }
            },
        },
    }
}

/// What follows an item that was read: behind whitespace, a comma, which
/// is taken and rules coercion out; or the end of the collection, which
/// stays; or anything else, before which a comma is reported as expected
/// at the end of the item, and which rules coercion out too.
pub open spec fn separator(
    tokens: Tokens,
    cur: Cursor,
    end: Option<TokenView>,
    item_end: Position,
    coercible: bool,
) -> (bool, Cursor) {
    let at = skip_whitespace(tokens, cur.index);
    if next_is(tokens, at, TokenView::Comma) {
        (false, cur.at(at + 1))
    } else if 0 <= at < tokens.len() && !at_end(tokens, at, end) {
        (false, cur.at(at).expected_at("comma"@, item_end))
    } else {
        (coercible, cur.at(at))
    }
}

/// What follows an item that could not be read. Where the place of the
/// missing thing is known, it is reported there. Otherwise the token at the
/// cursor is reported as found in its place and taken, unless it ends the
/// collection.
pub open spec fn recover(tokens: Tokens, cur: Cursor, end: Option<TokenView>, missing: MissingView) -> Cursor {
    match missing.at {
        Some(position) => cur.expected_at(missing.thing, position),
        None => {
            let found = peek(tokens, cur.index);
            let moved = if found is Some && !at_end(tokens, cur.index, end) {
                cur.at(cur.index + 1)
            } else {
                cur
            };
            moved.expected_found_or_at(missing.thing, found, pos(tokens, moved.index))
        },
    }
}

/// What an item adds to a collection, be it read or missed: an item that
/// was read joins the items, and what follows it decides on coercion; an
/// item that was missed is reported.
pub open spec fn after_item(
    tokens: Tokens,
    cur: Cursor,
    end: Option<TokenView>,
    kind: ItemKind,
    args: FuncArgsView,
    coercible: bool,
) -> (FuncArgsView, bool, Cursor)
    decreases tokens.len() - cur.index, 7int,
{
    let (read, after) = item(tokens, cur, kind);
    match read {
        Ok(item) => {
            let (still, next) = separator(tokens, after, end, item.span.end, coercible);
            (args.add(item), still, next)
        },
        Err(missing) => (args, coercible, recover(tokens, after, end, missing)),
    }
}

/// The rest of a collection, given the items read so far and whether a
/// comma has ruled coercion out. Behind whitespace the collection ends at
/// its closing token, which is taken, or at the end of the tokens, where a
/// missing closing token is reported. Otherwise an item is read, or is
/// reported as missing, and the collection goes on behind it.
pub open spec fn collect(
    tokens: Tokens,
    cur: Cursor,
    end: Option<TokenView>,
    kind: ItemKind,
    args: FuncArgsView,
    coercible: bool,
) -> (FuncArgsView, bool, Cursor)
    decreases tokens.len() - cur.index, 8int,
{
    let at = skip_whitespace(tokens, cur.index);
    if at_end(tokens, at, end) {
        if 0 <= at < tokens.len() {
            (args, coercible, cur.at(at + 1))
        } else {
            (args, coercible, cur.at(at))
        }
    } else if !(0 <= at < tokens.len()) {
        (args, coercible, cur.at(at).expected_at(end.unwrap().name(), pos(tokens, at)))
    } else {
        proof {
            lemma_skip_whitespace_bounds(tokens, cur.index);
        }
        let (more, still, next) = after_item(tokens, cur.at(at), end, kind, args, coercible);
        if cur.index < next.index <= tokens.len() {
            collect(tokens, next, end, kind, more, still)
        } else {
            (more, still, next)
        }
    }
}

/// A comma-separated collection up to its end: the items, from the position
/// of the cursor before the first to its position behind the last; and
/// whether the collection can stand for a single value, which it can as
/// long as no comma was met and none was missed.
pub open spec fn collection(tokens: Tokens, cur: Cursor, end: Option<TokenView>, kind: ItemKind) -> (
    Spanned<FuncArgsView>,
    bool,
    Cursor,
)
    decreases tokens.len() - cur.index, 9int,
{
    let (args, coercible, after) = collect(tokens, cur, end, kind, FuncArgsView::empty(), true);
    (
        Spanned {
            v: args,
            span: Span { start: pos(tokens, cur.index), end: pos(tokens, after.index) },
        },
        coercible,
        after,
    )
}

/// The arguments of a function: a collection up to the end of the header.
pub open spec fn func_args(tokens: Tokens, cur: Cursor) -> (FuncArgsView, Cursor) {
    let (args, _, after) = collection(tokens, cur, None, ItemKind::Argument);
    (args.v, after)
}

/// The header of a function: behind whitespace its name, then behind
/// whitespace either a colon and the arguments, or nothing. Without a name
/// there is no header: an identifier is reported as expected in place of
/// the token that was found, which is taken, or at the start where nothing
/// was found. Anything but a colon behind the name is taken and a colon
/// reported as expected at the end of the name; the arguments are then
/// empty.
pub open spec fn func_header(tokens: Tokens, cur: Cursor) -> (Option<FuncHeaderView>, Cursor) {
    let start = pos(tokens, cur.index);
    let at = skip_whitespace(tokens, cur.index);
    match ident(tokens, at) {
        None => {
            let found = peek(tokens, at);
            let moved = if found is Some {
                cur.at(at + 1)
            } else {
                cur.at(at)
            };
            (None, moved.expected_found_or_at("identifier"@, found, start))
        },
        Some(name) => {
            let colon = skip_whitespace(tokens, at + 1);
            match peek(tokens, colon) {
                None => (Some(FuncHeaderView { name, args: FuncArgsView::empty() }), cur.at(colon)),
                Some(token) => if token.v == TokenView::Colon {
                    let (args, after) = func_args(tokens, cur.at(colon + 1));
                    (Some(FuncHeaderView { name, args }), after)
                } else {
                    (
                        Some(FuncHeaderView { name, args: FuncArgsView::empty() }),
                        cur.at(colon + 1).expected_at("colon"@, name.span.end),
                    )
                },
            }
        },
    }
}

} // verus!
