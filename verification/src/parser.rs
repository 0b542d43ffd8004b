//! The parser for the header of a function: expressions, collections and
//! arguments.

use crate::body::{handed_header, is_known, resolved};
use crate::color::RgbaColor;
use crate::escaping::unescape_string;
use crate::expr::{Expr, Ident, NamedTuple, Object, Pair, Tuple};
use crate::feedback::{Decoration, Feedback};
use crate::func::{FuncArg, FuncArgs, FuncArgsView, FuncHeader, FuncHeaderView};
use crate::grammar::{
    at_end, binop, coerced, collect, collection, expected_found_message, expected_message, expr,
    factor, func_args, func_header, ident, item, keyed, lemma_skip_whitespace_bounds, literal,
    literal_feedback, missing_right_message, named, named_tuple, next_is, object, peek, pos,
    positional, recover, separator, skip_whitespace, term, tuple, unexpected_message, value,
    Cursor, ItemKind, Missing, Operator, Tier, Tokens,
};
use crate::progress::{
    lemma_collect_step, lemma_expr_progress, lemma_factor_progress, lemma_step_progress,
    lemma_term_progress,
};
use crate::scope::{ParseContext, Scope};
use crate::span::{option_view, result_view, Position, Span, Spanned};
use crate::tokens::{tokens_view, Token, TokenView};
use vstd::prelude::*;
use vstd::string::*;

verus! {


/// Join two texts.
fn join(a: &str, b: &str) -> (joined: String)
    ensures
        joined@ == a@ + b@,
{
    a.to_owned().concat(b)
}

/// The message that something was expected.
pub fn message_expected(thing: &str) -> (message: String)
    ensures
        message@ == expected_message(thing@),
{
    join("expected ", thing)
}

/// The message that something was expected where something else was found.
pub fn message_expected_found(thing: &str, found: &str) -> (message: String)
    ensures
        message@ == expected_found_message(thing@, found@),
{
    join("expected ", thing).concat(", found ").concat(found)
}

/// The message that an operator has no right operand.
pub fn message_missing_right(operand: &str) -> (message: String)
    ensures
        message@ == missing_right_message(operand@),
{
    join("missing right ", operand)
}

/// The message that a token has no place in a body.
pub fn message_unexpected(found: &str) -> (message: String)
    ensures
        message@ == unexpected_message(found@),
{
    join("unexpected ", found)
}

impl Tier {
    /// What a diagnostic calls an operand of this tier.
    pub fn name(self) -> (name: &'static str)
        ensures
            name@ == self.operand_name(),
    {
        match self {
            Tier::Summand => "summand",
            Tier::Factor => "factor",
        }
    }

    /// The operator of this tier that a token stands for.
    pub fn parse_op(self, token: &Token) -> (op: Option<Operator>)
        ensures
            op == self.operator(token@),
    {
        match (self, token) {
            (Tier::Summand, Token::Plus) => Some(Operator::Add),
            (Tier::Summand, Token::Hyphen) => Some(Operator::Sub),
            (Tier::Factor, Token::Star) => Some(Operator::Mul),
            (Tier::Factor, Token::Slash) => Some(Operator::Div),
            _ => None,
        }
    }
}

impl Operator {
    /// Join two operands.
    pub fn build(self, left: Spanned<Expr>, right: Spanned<Expr>) -> (joined: Expr)
        ensures
            joined@ == self.apply(left@, right@),
    {
        match self {
            Operator::Add => Expr::Add(Box::new(left), Box::new(right)),
            Operator::Sub => Expr::Sub(Box::new(left), Box::new(right)),
            Operator::Mul => Expr::Mul(Box::new(left), Box::new(right)),
            Operator::Div => Expr::Div(Box::new(left), Box::new(right)),
        }
    }
}

/// Turn a parenthesized group into the value it stands for: a group of one
/// item without a comma is that item, any other group is a tuple.
pub fn coerce(tuple: Spanned<Tuple>, coercible: bool) -> (value: Spanned<Expr>)
    ensures
        value@ == coerced(tuple@, coercible),
{
    let mut tuple = tuple;
    if coercible && tuple.v.items.len() > 0 {
        match tuple.v.items.pop() {
            Some(item) => item,
            None => Spanned::new(Expr::Tuple(tuple.v), tuple.span),
        }
    } else {
        Spanned::new(Expr::Tuple(tuple.v), tuple.span)
    }
}

/// Whether `stop` is the index of the first token at or behind `from` for
/// which `f` holds, or the number of tokens if it holds for none.
pub open spec fn stops_at<F: Fn(&Token) -> bool>(
    f: F,
    tokens: Seq<Spanned<Token>>,
    from: int,
    stop: int,
) -> bool {
    &&& from <= stop <= tokens.len()
    &&& forall|j: int| from <= j < stop ==> f.ensures((&(#[trigger] tokens[j]).v,), false)
    &&& stop < tokens.len() ==> f.ensures((&tokens[stop].v,), true)
}

/// Skipping whitespace stops at the first token that is none, or at the end
/// of the tokens.
pub proof fn lemma_skip_whitespace_stops(tokens: Tokens, from: int, stop: int)
    requires
        0 <= from <= stop <= tokens.len(),
        forall|j: int| from <= j < stop ==> (#[trigger] tokens[j]).v.is_whitespace(),
        stop < tokens.len() ==> !tokens[stop].v.is_whitespace(),
    ensures
        skip_whitespace(tokens, from) == stop,
    decreases stop - from,
{
    if from < stop {
        assert(tokens[from].v.is_whitespace());
        lemma_skip_whitespace_stops(tokens, from + 1, stop);
    }
}

/// The parser that a function goes to: the one that the scope holds for
/// the name of its header, or the fallback parser where the scope holds none
/// or the function has no header.
pub open spec fn chosen_parser<P>(scope: Scope<P>, read: Option<FuncHeaderView>) -> P {
    if is_known(read, scope.parsers().dom()) {
        scope.parsers()[read.unwrap().name.v]
    } else {
        scope.fallback()
    }
}

/// The parser for the header of one function.
pub struct FuncParser<'s, P> {
    /// The context of the parse.
    pub ctx: ParseContext<'s, P>,
    /// What the parse has reported so far.
    pub feedback: Feedback,
    /// The tokens of the header.
    pub tokens: &'s Vec<Spanned<Token>>,
    /// The index of the next token.
    pub index: usize,
    /// The text of the body of the function, if it has one.
    pub body: Option<Spanned<&'s str>>,
}

impl<'s, P> FuncParser<'s, P> {
    /// The tokens of the header, as the grammar sees them.
    pub open spec fn input(&self) -> Tokens {
        tokens_view(self.tokens@)
    }

    /// Where the parser stands.
    pub open spec fn cursor(&self) -> Cursor {
        Cursor { index: self.index as int, feedback: self.feedback@ }
    }

    /// The cursor lies within the tokens or directly behind them.
    pub open spec fn inv(&self) -> bool {
        self.index <= self.tokens.len()
    }

    /// Whether two states of a parser read the same header of the same
    /// function.
    pub open spec fn same_function(&self, other: &Self) -> bool {
        &&& self.tokens == other.tokens
        &&& self.body == other.body
        &&& self.ctx == other.ctx
    }

    /// Whether `self` is what a parser in state `before` becomes by moving to
    /// the cursor `after`.
    pub open spec fn moved(&self, before: &Self, after: Cursor) -> bool {
        &&& self.same_function(before)
        &&& self.inv()
        &&& self.cursor() == after
        &&& before.index <= self.index
    }

    /// Create a parser at the first token of a header.
    pub fn new(
        header: &'s Vec<Spanned<Token>>,
        body: Option<Spanned<&'s str>>,
        ctx: ParseContext<'s, P>,
    ) -> (parser: FuncParser<'s, P>)
        ensures
            parser.tokens == header,
            parser.body == body,
            parser.ctx == ctx,
            parser.cursor() == Cursor::start(),
            parser.inv(),
    {
        FuncParser { ctx, feedback: Feedback::new(), tokens: header, index: 0, body }
    }

    /// The next token, which stays.
    pub fn peek(&self) -> (token: Option<&'s Spanned<Token>>)
        requires
            self.inv(),
        ensures
            match token {
                Some(t) => self.index < self.tokens.len() && *t == self.tokens[self.index as int]
                    && peek(self.input(), self.index as int) == Some(t@),
                None => self.index == self.tokens.len() && peek(self.input(), self.index as int)
                    is None,
            },
    {
        let tokens: &'s Vec<Spanned<Token>> = self.tokens;
        if self.index < tokens.len() {
            Some(&tokens[self.index])
        } else {
            None
        }
    }

    /// The next token without its span, which stays.
    pub fn peekv(&self) -> (token: Option<&'s Token>)
        requires
            self.inv(),
        ensures
            match token {
                Some(t) => self.index < self.tokens.len() && *t == self.tokens[self.index as int].v
                    && peek(self.input(), self.index as int) == Some(self.tokens[self.index as int]@),
                None => self.index == self.tokens.len() && peek(self.input(), self.index as int)
                    is None,
            },
    {
        match self.peek() {
            Some(token) => Some(&token.v),
            None => None,
        }
    }

    /// Take the next token.
    pub fn eat(&mut self) -> (token: Option<&'s Spanned<Token>>)
        requires
            old(self).inv(),
        ensures
            match token {
                Some(t) => old(self).index < old(self).tokens.len() && *t == old(self).tokens[old(
                    self,
                ).index as int] && final(self).moved(
                    old(self),
                    old(self).cursor().at(old(self).index + 1),
                ),
                None => old(self).index == old(self).tokens.len() && *final(self) == *old(self),
            },
    {
        let token = self.peek();
        if token.is_some() {
            self.index = self.index + 1;
        }
        token
    }

    /// The position of the cursor: the start of the next token, or the end
    /// of the last one where no token is left, or the place behind the opening
    /// bracket of the function where the header has no tokens.
    pub fn pos(&self) -> (position: Position)
        requires
            self.inv(),
        ensures
            position == pos(self.input(), self.index as int),
    {
        let tokens: &'s Vec<Spanned<Token>> = self.tokens;
        if self.index < tokens.len() {
            tokens[self.index].span.start
        } else if tokens.len() > 0 {
            tokens[tokens.len() - 1].span.end
        } else {
            Position::new(0, 1)
        }
    }

    /// Skip all whitespace and comment tokens.
    pub fn skip_whitespace(&mut self)
        requires
            old(self).inv(),
        ensures
            final(self).moved(
                old(self),
                old(self).cursor().at(skip_whitespace(old(self).input(), old(self).index as int)),
            ),
    {
        let is_content = |token: &Token| -> (content: bool)
            ensures
                content == !token@.is_whitespace(),
            { !token.is_whitespace() };
        self.eat_until(is_content, false);
        proof {
            let stop = choose|stop: int|
                #[trigger] stops_at(is_content, old(self).tokens@, old(self).index as int, stop)
                    && self.index == stop;
            assert forall|j: int| old(self).index <= j < stop implies (#[trigger] old(
                self,
            ).input()[j]).v.is_whitespace() by {
                assert(is_content.ensures((&old(self).tokens@[j].v,), false));
            }
            lemma_skip_whitespace_stops(old(self).input(), old(self).index as int, stop);
        }
    }

    /// Take tokens until one is met for which `f` holds, and take that one
    /// too if `eat_match` is set.
    pub fn eat_until<F: Fn(&Token) -> bool>(&mut self, f: F, eat_match: bool)
        requires
            old(self).inv(),
            forall|token: &Token| #[trigger] f.requires((token,)),
        ensures
            final(self).same_function(old(self)),
            final(self).feedback == old(self).feedback,
            final(self).inv(),
            exists|stop: int|
                #[trigger] stops_at(f, old(self).tokens@, old(self).index as int, stop)
                    && final(self).index == if eat_match && stop < old(self).tokens.len() {
                    stop + 1
                } else {
                    stop
                },
    {
        let tokens: &'s Vec<Spanned<Token>> = self.tokens;
        let ghost mut stop: int = self.index as int;
        while self.index < tokens.len()
            invariant_except_break
                stop == self.index,
            invariant
                tokens == self.tokens,
                self.same_function(old(self)),
                self.feedback == old(self).feedback,
                old(self).index <= self.index <= tokens.len(),
                old(self).index <= stop <= tokens.len(),
                forall|token: &Token| #[trigger] f.requires((token,)),
                forall|j: int|
                    old(self).index <= j < stop ==> f.ensures((&(#[trigger] tokens@[j]).v,), false),
            ensures
                stop < tokens.len() ==> f.ensures((&tokens@[stop].v,), true),
                self.index == if eat_match && stop < tokens.len() {
                    stop + 1
                } else {
                    stop
                },
            decreases tokens.len() - self.index,
        {
            if f(&tokens[self.index].v) {
                if eat_match {
                    self.index = self.index + 1;
                }
                break ;
            }
            self.index = self.index + 1;
            proof {
                stop = stop + 1;
            }
        }
        proof {
            assert(stops_at(f, old(self).tokens@, old(self).index as int, stop));
        }
    }

    /// Report that `thing` was expected where the token `found` stands.
    pub fn expected_found(&mut self, thing: &str, found: &Spanned<Token>)
        ensures
            final(self).index == old(self).index,
            final(self).same_function(old(self)),
            final(self).cursor() == old(self).cursor().expected_found(thing@, found@),
    {
        self.feedback.error(found.span, message_expected_found(thing, found.v.name()));
    }

    /// Report that `thing` was expected at a position.
    pub fn expected_at(&mut self, thing: &str, pos: Position)
        ensures
            final(self).index == old(self).index,
            final(self).same_function(old(self)),
            final(self).cursor() == old(self).cursor().expected_at(thing@, pos),
    {
        self.feedback.error(Span::at(pos), message_expected(thing));
    }

    /// Report that `thing` was expected: in place of `found` if there is such
    /// a token, at the position otherwise.
    pub fn expected_found_or_at(
        &mut self,
        thing: &str,
        found: Option<&Spanned<Token>>,
        pos: Position,
    )
        ensures
            final(self).index == old(self).index,
            final(self).same_function(old(self)),
            final(self).cursor() == old(self).cursor().expected_found_or_at(
                thing@,
                match found {
                    Some(token) => Some(token@),
                    None => None,
                },
                pos,
            ),
    {
        match found {
            Some(token) => self.expected_found(thing, token),
            None => self.expected_at(thing, pos),
        }
    }

    /// Take the next token if it is a literal: a string, a number, a length,
    /// a truth value or a color.
    pub fn parse_literal(&mut self) -> (parsed: Option<Spanned<Expr>>)
        requires
            old(self).inv(),
        ensures
            match peek(old(self).input(), old(self).index as int) {
                Some(first) => match literal(first) {
                    Some(read) => option_view(parsed) == Some(Spanned { v: read, span: first.span })
                        && final(self).moved(
                        old(self),
                        literal_feedback(first, old(self).cursor().at(old(self).index + 1)),
                    ),
                    None => parsed is None && *final(self) == *old(self),
                },
                None => parsed is None && *final(self) == *old(self),
            },
    {
        let first = match self.peek() {
            Some(token) => token,
            None => {
                return None;
            },
        };
        let read = match &first.v {
            Token::ExprStr { string, terminated } => {
                assert(first@.v == TokenView::ExprStr { string: string@, terminated: *terminated });
                if !*terminated {
                    self.expected_at("quote", first.span.end);
                }
                Expr::Str(unescape_string(string.as_str()))
            },
            Token::ExprNumber(n) => {
                assert(first@.v == TokenView::ExprNumber(n@));
                Expr::Number(n.clone())
            },
            Token::ExprSize(s) => {
                assert(first@.v == TokenView::ExprSize(s@));
                Expr::Size(s.clone())
            },
            Token::ExprBool(b) => {
                assert(first@.v == TokenView::ExprBool(*b));
                Expr::Bool(*b)
            },
            Token::ExprHex(text) => {
                assert(first@.v == TokenView::ExprHex(text@));
                match RgbaColor::from_str(text.as_str()) {
                    Ok(color) => Expr::Color(color),
                    Err(_) => {
                        // Heal the color by assuming black.
                        self.feedback.error(first.span, "invalid color".to_owned());
                        Expr::Color(RgbaColor::new_healed(0, 0, 0, 255))
                    },
                }
            },
            _ => {
                assert(literal(first@) is None);
                return None;
            },
        };
        self.index = self.index + 1;
        Some(Spanned::new(read, first.span))
    }

    /// Take the next token if it is an identifier.
    pub fn parse_ident(&mut self) -> (name: Option<Spanned<Ident>>)
        requires
            old(self).inv(),
        ensures
            match name {
                Some(found) => ident(old(self).input(), old(self).index as int) == Some(found@)
                    && final(self).moved(old(self), old(self).cursor().at(old(self).index + 1)),
                None => ident(old(self).input(), old(self).index as int) is None && *final(self)
                    == *old(self),
            },
    {
        match self.peek() {
            Some(token) => match &token.v {
                Token::ExprIdent(text) => {
                    assert(token@.v == TokenView::ExprIdent(text@));
                    self.index = self.index + 1;
                    Some(Spanned::new(Ident::new(text.clone()), token.span))
                },
                _ => None,
            },
            None => None,
        }
    }
}

impl<'s, P> FuncParser<'s, P> {
    /// Parse a value: an identifier, a named tuple, a literal, a tuple or an
    /// object.
    pub fn parse_value(&mut self) -> (parsed: Option<Spanned<Expr>>)
        requires
            old(self).inv(),
        ensures
            option_view(parsed) == value(old(self).input(), old(self).cursor()).0,
            final(self).moved(old(self), value(old(self).input(), old(self).cursor()).1),
        decreases old(self).tokens.len() - old(self).index, 1int,
    {
        let first = match self.peek() {
            Some(token) => token,
            None => {
                return None;
            },
        };
        match &first.v {
            Token::ExprIdent(text) => {
                assert(first@.v == TokenView::ExprIdent(text@));
                self.index = self.index + 1;
                Some(self.parse_named(Spanned::new(Ident::new(text.clone()), first.span)))
            },
            Token::LeftParen => {
                assert(first@.v == TokenView::LeftParen);
                let (tuple, coercible) = self.parse_tuple();
                Some(coerce(tuple, coercible))
            },
            Token::LeftBrace => {
                assert(first@.v == TokenView::LeftBrace);
                let object = self.parse_object();
                Some(Spanned::new(Expr::Object(object.v), object.span))
            },
            _ => self.parse_literal(),
        }
    }

    /// Parse what follows an identifier that has been taken: the tuple of a
    /// named tuple where a parenthesis follows at once, nothing otherwise.
    pub fn parse_named(&mut self, name: Spanned<Ident>) -> (parsed: Spanned<Expr>)
        requires
            old(self).inv(),
        ensures
            parsed@ == named(old(self).input(), old(self).cursor(), name@).0,
            final(self).moved(old(self), named(old(self).input(), old(self).cursor(), name@).1),
        decreases old(self).tokens.len() - old(self).index, 2int,
    {
        let is_tuple = self.next_is(&Token::LeftParen);
        if is_tuple {
            let tuple = self.parse_named_tuple(name);
            Spanned::new(Expr::NamedTuple(tuple.v), tuple.span)
        } else {
            Spanned::new(Expr::Ident(name.v), name.span)
        }
    }

    /// Parse a tuple: `(<expr>, ...)`. The flag tells whether the tuple
    /// can be coerced into a single value.
    pub fn parse_tuple(&mut self) -> (parsed: (Spanned<Tuple>, bool))
        requires
            old(self).inv(),
            next_is(old(self).input(), old(self).index as int, TokenView::LeftParen),
        ensures
            parsed.0@ == tuple(old(self).input(), old(self).cursor()).0,
            parsed.1 == tuple(old(self).input(), old(self).cursor()).1,
            final(self).moved(old(self), tuple(old(self).input(), old(self).cursor()).2),
        decreases old(self).tokens.len() - old(self).index, 0int,
    {
        self.index = self.index + 1;
        let (args, coercible) = self.parse_collection_comma_aware(
            Some(&Token::RightParen),
            ItemKind::Value,
        );
        (Spanned::new(args.v.pos, args.span), coercible)
    }

    /// Parse a tuple behind a name: `name(<expr>, ...)`.
    pub fn parse_named_tuple(&mut self, name: Spanned<Ident>) -> (parsed: Spanned<NamedTuple>)
        requires
            old(self).inv(),
            next_is(old(self).input(), old(self).index as int, TokenView::LeftParen),
        ensures
            parsed@ == named_tuple(old(self).input(), old(self).cursor(), name@).0,
            final(self).moved(old(self), named_tuple(old(self).input(), old(self).cursor(), name@).1),
        decreases old(self).tokens.len() - old(self).index, 1int,
    {
        let (tuple, _) = self.parse_tuple();
        let span = Span::merge(name.span, tuple.span);
        Spanned::new(NamedTuple { name, tuple }, span)
    }

    /// Parse an object: `{ <key>: <value>, ... }`.
    pub fn parse_object(&mut self) -> (parsed: Spanned<Object>)
        requires
            old(self).inv(),
            next_is(old(self).input(), old(self).index as int, TokenView::LeftBrace),
        ensures
            parsed@ == object(old(self).input(), old(self).cursor()).0,
            final(self).moved(old(self), object(old(self).input(), old(self).cursor()).1),
        decreases old(self).tokens.len() - old(self).index, 0int,
    {
        self.index = self.index + 1;
        let args = self.parse_collection(Some(&Token::RightBrace), ItemKind::Pair);
        Spanned::new(args.v.key, args.span)
    }

    /// Parse a factor: a value, or a minus sign and a value.
    pub fn parse_factor(&mut self) -> (parsed: Option<Spanned<Expr>>)
        requires
            old(self).inv(),
        ensures
            option_view(parsed) == factor(old(self).input(), old(self).cursor()).0,
            final(self).moved(old(self), factor(old(self).input(), old(self).cursor()).1),
        decreases old(self).tokens.len() - old(self).index, 2int,
    {
        let first = match self.peek() {
            Some(token) => token,
            None => {
                return None;
            },
        };
        let negated = first.v.same(&Token::Hyphen);
        if negated {
            self.index = self.index + 1;
            self.skip_whitespace();
            match self.parse_value() {
                Some(inner) => {
                    let span = Span::merge(first.span, inner.span);
                    Some(Spanned::new(Expr::Neg(Box::new(inner)), span))
                },
                None => {
                    self.feedback.error(first.span, "dangling minus".to_owned());
                    None
                },
            }
        } else {
            self.parse_value()
        }
    }

    /// Parse a term: factors joined by `*` and `/`.
    pub fn parse_term(&mut self) -> (parsed: Option<Spanned<Expr>>)
        requires
            old(self).inv(),
        ensures
            option_view(parsed) == term(old(self).input(), old(self).cursor()).0,
            final(self).moved(old(self), term(old(self).input(), old(self).cursor()).1),
        decreases old(self).tokens.len() - old(self).index, 3int,
    {
        proof {
            lemma_factor_progress(self.input(), self.cursor());
            lemma_term_progress(self.input(), self.cursor());
        }
        match self.parse_factor() {
            Some(left) => self.parse_binop(left, Tier::Factor),
            None => None,
        }
    }

    /// Parse an expression: terms joined by `+` and `-`. A chain of
    /// operators of one tier leans to the right.
    pub fn parse_expr(&mut self) -> (parsed: Option<Spanned<Expr>>)
        requires
            old(self).inv(),
        ensures
            option_view(parsed) == expr(old(self).input(), old(self).cursor()).0,
            final(self).moved(old(self), expr(old(self).input(), old(self).cursor()).1),
        decreases old(self).tokens.len() - old(self).index, 4int,
    {
        proof {
            lemma_term_progress(self.input(), self.cursor());
            lemma_expr_progress(self.input(), self.cursor());
        }
        match self.parse_term() {
            Some(left) => self.parse_binop(left, Tier::Summand),
            None => None,
        }
    }

    /// Parse what follows the left operand of a binary operator of a tier.
    pub fn parse_binop(&mut self, left: Spanned<Expr>, tier: Tier) -> (parsed: Option<
        Spanned<Expr>,
    >)
        requires
            old(self).inv(),
        ensures
            option_view(parsed) == binop(old(self).input(), old(self).cursor(), left@, tier).0,
            final(self).moved(old(self), binop(old(self).input(), old(self).cursor(), left@, tier).1),
        decreases old(self).tokens.len() - old(self).index, 5int,
    {
        self.skip_whitespace();
        let next = match self.peek() {
            Some(token) => token,
            None => {
                return Some(left);
            },
        };
        match tier.parse_op(&next.v) {
            Some(operator) => {
                self.index = self.index + 1;
                self.skip_whitespace();
                proof {
                    lemma_skip_whitespace_bounds(old(self).input(), old(self).index as int);
                }
                let operand = match tier {
                    Tier::Summand => self.parse_expr(),
                    Tier::Factor => self.parse_term(),
                };
                match operand {
                    Some(right) => {
                        let span = Span::merge(left.span, right.span);
                        Some(Spanned::new(operator.build(left, right), span))
                    },
                    None => {
                        self.feedback.error(
                            Span::merge(next.span, left.span),
                            message_missing_right(tier.name()),
                        );
                        Some(left)
                    },
                }
            },
            None => Some(left),
        }
    }

    /// Parse a key-value pair from its value on: the key and the sign
    /// behind it have been taken.
    pub fn parse_keyed(&mut self, key: Spanned<Ident>) -> (parsed: Result<Spanned<FuncArg>, Missing>)
        requires
            old(self).inv(),
        ensures
            result_view(parsed) == keyed(old(self).input(), old(self).cursor(), key@).0,
            final(self).moved(old(self), keyed(old(self).input(), old(self).cursor(), key@).1),
        decreases old(self).tokens.len() - old(self).index, 5int,
    {
        match self.parse_expr() {
            Some(value) => {
                let span = Span::merge(key.span, value.span);
                Ok(Spanned::new(FuncArg::Key(Pair { key, value }), span))
            },
            None => Err(Missing { thing: "value", at: None }),
        }
    }

    /// Parse an expression as a positional item. Where there is none,
    /// `thing` is missing.
    pub fn parse_positional(&mut self, thing: &'static str) -> (parsed: Result<
        Spanned<FuncArg>,
        Missing,
    >)
        requires
            old(self).inv(),
        ensures
            result_view(parsed) == positional(old(self).input(), old(self).cursor(), thing@).0,
            final(self).moved(old(self), positional(old(self).input(), old(self).cursor(), thing@).1),
        decreases old(self).tokens.len() - old(self).index, 5int,
    {
        match self.parse_expr() {
            Some(value) => Ok(Spanned::new(FuncArg::Pos(value.v), value.span)),
            None => Err(Missing { thing, at: None }),
        }
    }

    /// Parse one item of a collection.
    pub fn parse_item(&mut self, kind: ItemKind) -> (parsed: Result<Spanned<FuncArg>, Missing>)
        requires
            old(self).inv(),
        ensures
            result_view(parsed) == item(old(self).input(), old(self).cursor(), kind).0,
            final(self).moved(old(self), item(old(self).input(), old(self).cursor(), kind).1),
        decreases old(self).tokens.len() - old(self).index, 6int,
    {
        match kind {
            ItemKind::Value => self.parse_positional("value"),
            ItemKind::Argument => {
                // An identifier may be the key of a keyword argument or the
                // name of a tuple; anything else is a positional argument.
                match self.parse_ident() {
                    Some(name) => {
                        let is_tuple = self.next_is(&Token::LeftParen);
                        if is_tuple {
                            let tuple = self.parse_named_tuple(name);
                            return Ok(
                                Spanned::new(FuncArg::Pos(Expr::NamedTuple(tuple.v)), tuple.span),
                            );
                        }
                        self.skip_whitespace();
                        let is_key = self.next_is(&Token::Equals);
                        if is_key {
                            self.index = self.index + 1;
                            self.skip_whitespace();
                            self.feedback.decorate(name.span, Decoration::ArgumentKey);
                            proof {
                                lemma_skip_whitespace_bounds(
                                    old(self).input(),
                                    old(self).index + 1,
                                );
                            }
                            self.parse_keyed(name)
                        } else {
                            Ok(Spanned::new(FuncArg::Pos(Expr::Ident(name.v)), name.span))
                        }
                    },
                    None => self.parse_positional("argument"),
                }
            },
            ItemKind::Pair => {
                let key = match self.parse_ident() {
                    Some(key) => key,
                    None => {
                        return Err(Missing { thing: "key", at: None });
                    },
                };
                let behind_key = self.pos();
                self.skip_whitespace();
                let is_colon = self.next_is(&Token::Colon);
                if !is_colon {
                    return Err(Missing { thing: "colon", at: Some(behind_key) });
                }
                self.index = self.index + 1;
                self.skip_whitespace();
                self.feedback.decorate(key.span, Decoration::ObjectKey);
                proof {
                    lemma_skip_whitespace_bounds(old(self).input(), old(self).index + 1);
                }
                self.parse_keyed(key)
            },
        }
    }

    /// Whether the next token is the given one.
    pub fn next_is(&self, token: &Token) -> (b: bool)
        requires
            self.inv(),
        ensures
            b == next_is(self.input(), self.index as int, token@),
    {
        match self.peekv() {
            Some(next) => next.same(token),
            None => false,
        }
    }

    /// Whether what comes next ends a collection: the `end` token, or for a
    /// collection without one the end of the tokens.
    pub fn at_end(&self, end: Option<&Token>) -> (b: bool)
        requires
            self.inv(),
        ensures
            b == at_end(self.input(), self.index as int, option_view(end)),
    {
        match end {
            Some(closing) => self.next_is(closing),
            None => self.peek().is_none(),
        }
    }

    /// Parse what follows an item of a collection: a comma is taken and
    /// rules coercion out; anything else but the end of the collection stays,
    /// is reported as standing in place of a comma at `item_end`, and rules
    /// coercion out too.
    pub fn parse_separator(&mut self, end: Option<&Token>, item_end: Position, coercible: bool) -> (still: bool)
        requires
            old(self).inv(),
        ensures
            still == separator(old(self).input(), old(self).cursor(), option_view(end), item_end, coercible).0,
            final(self).moved(
                old(self),
                separator(old(self).input(), old(self).cursor(), option_view(end), item_end, coercible).1,
            ),
    {
        proof {
            lemma_skip_whitespace_bounds(self.input(), self.index as int);
        }
        self.skip_whitespace();
        let is_comma = self.next_is(&Token::Comma);
        if is_comma {
            self.index = self.index + 1;
            false
        } else if self.peek().is_some() && !self.at_end(end) {
            self.expected_at("comma", item_end);
            false
        } else {
            coercible
        }
    }

    /// Go on behind an item that could not be read. Where the place of the
    /// missing thing is known, it is reported there. Otherwise the next token
    /// is reported as found in its place and taken, unless it ends the
    /// collection, so that the parse moves on.
    pub fn recover(&mut self, end: Option<&Token>, missing: Missing)
        requires
            old(self).inv(),
        ensures
            final(self).moved(old(self), recover(old(self).input(), old(self).cursor(), option_view(end), missing@)),
    {
        match missing.at {
            Some(position) => self.expected_at(missing.thing, position),
            None => {
                let found = self.peek();
                if found.is_some() && !self.at_end(end) {
                    self.index = self.index + 1;
                }
                let here = self.pos();
                self.expected_found_or_at(missing.thing, found, here);
            },
        }
    }

    /// Parse a comma-separated collection of items up to the `end` token.
    pub fn parse_collection(&mut self, end: Option<&Token>, kind: ItemKind) -> (parsed: Spanned<
        FuncArgs,
    >)
        requires
            old(self).inv(),
        ensures
            parsed@ == collection(old(self).input(), old(self).cursor(), option_view(end), kind).0,
            final(self).moved(old(self), collection(old(self).input(), old(self).cursor(), option_view(end), kind).2),
        decreases old(self).tokens.len() - old(self).index, 9int,
    {
        self.parse_collection_comma_aware(end, kind).0
    }

    /// Parse a comma-separated collection of items up to the `end` token.
    /// The flag tells whether the collection can be coerced into a single
    /// item: no comma was met, and none was missed.
    pub fn parse_collection_comma_aware(&mut self, end: Option<&Token>, kind: ItemKind) -> (parsed: (
        Spanned<FuncArgs>,
        bool,
    ))
        requires
            old(self).inv(),
        ensures
            parsed.0@ == collection(old(self).input(), old(self).cursor(), option_view(end), kind).0,
            parsed.1 == collection(old(self).input(), old(self).cursor(), option_view(end), kind).1,
            final(self).moved(old(self), collection(old(self).input(), old(self).cursor(), option_view(end), kind).2),
        decreases old(self).tokens.len() - old(self).index, 8int,
    {
        let start = self.pos();
        let mut coercible = true;
        let mut args = FuncArgs::new();
        let ghost whole = collect(
            old(self).input(),
            old(self).cursor(),
            option_view(end),
            kind,
            FuncArgsView::empty(),
            true,
        );
        loop
            invariant_except_break
                whole == collect(self.input(), self.cursor(), option_view(end), kind, args@, coercible),
            invariant
                self.inv(),
                self.same_function(old(self)),
                old(self).index <= self.index,
            ensures
                self.inv(),
                self.same_function(old(self)),
                old(self).index <= self.index,
                whole == (args@, coercible, self.cursor()),
            decreases self.tokens.len() - self.index,
        {
            proof {
                lemma_collect_step(self.input(), self.cursor(), option_view(end), kind, args@, coercible);
            }
            self.skip_whitespace();
            if self.at_end(end) {
                // The collection ends as expected.
                self.eat();
                break ;
            }
            if self.peek().is_none() {
                // The tokens end before the collection does.
                let here = self.pos();
                match end {
                    Some(closing) => self.expected_at(closing.name(), here),
                    None => {},
                }
                break ;
            }
            proof {
                lemma_step_progress(self.input(), self.cursor(), option_view(end), kind, args@, coercible);
            }
            match self.parse_item(kind) {
                Ok(item) => {
                    coercible = self.parse_separator(end, item.span.end, coercible);
                    args.add(item);
                },
                Err(missing) => self.recover(end, missing),
            }
        }
        let end_pos = self.pos();
        (Spanned::new(args, Span::new(start, end_pos)), coercible)
    }
}

impl<'s, P> FuncParser<'s, P> {
    /// Parse the arguments of a function: a collection up to the end of
    /// the header.
    pub fn parse_func_args(&mut self) -> (args: FuncArgs)
        requires
            old(self).inv(),
        ensures
            args@ == func_args(old(self).input(), old(self).cursor()).0,
            final(self).moved(old(self), func_args(old(self).input(), old(self).cursor()).1),
    {
        self.parse_collection(None, ItemKind::Argument).v
    }

    /// Parse the header of a function: its name, and behind a colon its
    /// arguments. Without a name there is no header.
    pub fn parse_func_header(&mut self) -> (header: Option<FuncHeader>)
        requires
            old(self).inv(),
        ensures
            option_view(header) == func_header(old(self).input(), old(self).cursor()).0,
            final(self).moved(old(self), func_header(old(self).input(), old(self).cursor()).1),
    {
        let start = self.pos();
        proof {
            lemma_skip_whitespace_bounds(self.input(), self.index as int);
        }
        self.skip_whitespace();
        let name = match self.parse_ident() {
            Some(ident) => ident,
            None => {
                let other = self.eat();
                self.expected_found_or_at("identifier", other, start);
                return None;
            },
        };
        proof {
            lemma_skip_whitespace_bounds(self.input(), self.index as int);
        }
        self.skip_whitespace();
        let args = match self.eat() {
            Some(token) => if token.v.same(&Token::Colon) {
                self.parse_func_args()
            } else {
                self.expected_at("colon", name.span.end);
                FuncArgs::new()
            },
            None => FuncArgs::new(),
        };
        Some(FuncHeader { name, args })
    }

    /// Choose the parser of the function, and the header to hand to it. A
    /// header with a name that the scope knows goes to the parser of that
    /// name, and the name is decorated as valid. A header with any other
    /// name goes to the fallback parser; the name is reported as an unknown
    /// function and decorated as invalid. Where there is no header, a header
    /// without name and arguments goes to the fallback parser, so that the
    /// body is still parsed.
    pub fn resolve(&mut self, read: Option<FuncHeader>) -> (chosen: (FuncHeader, &'s P))
        ensures
            chosen.0@ == handed_header(option_view(read)),
            *chosen.1 == chosen_parser(*old(self).ctx.scope, option_view(read)),
            final(self).same_function(old(self)),
            final(self).index == old(self).index,
            final(self).feedback@ == resolved(
                old(self).feedback@,
                option_view(read),
                old(self).ctx.scope.parsers().dom(),
            ),
    {
        let scope: &'s Scope<P> = self.ctx.scope;
        match read {
            Some(header) => {
                let span = header.name.span;
                let parser = match scope.get_parser(header.name.v.as_str()) {
                    Ok(parser) => {
                        self.feedback.decorate(span, Decoration::ValidFuncName);
                        parser
                    },
                    Err(parser) => {
                        self.feedback.error(span, "unknown function".to_owned());
                        self.feedback.decorate(span, Decoration::InvalidFuncName);
                        parser
                    },
                };
                (header, parser)
            },
            None => {
                let header = FuncHeader {
                    name: Spanned::new(Ident::new(String::new()), Span::zero()),
                    args: FuncArgs::new(),
                };
                (header, scope.get_fallback_parser())
            },
        }
    }
}

} // verus!
