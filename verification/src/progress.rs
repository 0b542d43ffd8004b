//! Every function of the grammar moves the cursor forward and never beyond
//! the end of the tokens; what reads something moves it by at least one token.

use crate::feedback::Decoration;
use crate::grammar::{
    after_item, at_end, binop, collect, collection, expr, factor, ident, item,
    lemma_skip_whitespace_bounds, named_tuple, next_is, object, peek, pos, skip_whitespace, term,
    tuple, value, Cursor, ItemKind, Tier, Tokens,
};
use crate::expr::ExprView;
use crate::func::FuncArgsView;
use crate::span::Spanned;
use crate::tokens::TokenView;
use vstd::prelude::*;

verus! {

/// Whether a cursor lies within the tokens, or directly behind them.
pub open spec fn in_bounds(tokens: Tokens, cur: Cursor) -> bool {
    0 <= cur.index <= tokens.len()
}

/// Whether `after` lies at or behind `before`, and within the tokens.
pub open spec fn advanced(tokens: Tokens, before: Cursor, after: Cursor) -> bool {
    before.index <= after.index <= tokens.len()
}

/// Whether `after` lies behind `before`, and within the tokens.
pub open spec fn consumed(tokens: Tokens, before: Cursor, after: Cursor) -> bool {
    before.index < after.index <= tokens.len()
}

/// A value that is read takes at least one token; where none is read the
/// cursor stays.
pub proof fn lemma_value_progress(tokens: Tokens, cur: Cursor)
    requires
        in_bounds(tokens, cur),
    ensures
        value(tokens, cur).0 is Some ==> consumed(tokens, cur, value(tokens, cur).1),
        value(tokens, cur).0 is None ==> value(tokens, cur).1 == cur,
    decreases tokens.len() - cur.index, 1int,
{
    match peek(tokens, cur.index) {
        None => {},
        Some(first) => {
            let next = cur.at(cur.index + 1);
            match first.v {
                TokenView::ExprIdent(text) => {
                    if next_is(tokens, next.index, TokenView::LeftParen) {
                        lemma_named_tuple_progress(
                            tokens,
                            next,
                            Spanned { v: text, span: first.span },
                        );
                    }
                },
                TokenView::LeftParen => {
                    lemma_tuple_progress(tokens, cur);
                },
                TokenView::LeftBrace => {
                    lemma_object_progress(tokens, cur);
                },
                _ => {},
            }
        },
    }
}

/// A tuple takes at least its opening parenthesis.
pub proof fn lemma_tuple_progress(tokens: Tokens, cur: Cursor)
    requires
        0 <= cur.index < tokens.len(),
    ensures
        consumed(tokens, cur, tuple(tokens, cur).2),
    decreases tokens.len() - cur.index, 0int,
{
    lemma_collection_progress(tokens, cur.at(cur.index + 1), Some(TokenView::RightParen), ItemKind::Value);
}

/// A named tuple takes at least its opening parenthesis.
pub proof fn lemma_named_tuple_progress(tokens: Tokens, cur: Cursor, name: Spanned<Seq<char>>)
    requires
        0 <= cur.index < tokens.len(),
    ensures
        consumed(tokens, cur, named_tuple(tokens, cur, name).1),
    decreases tokens.len() - cur.index, 1int,
{
    lemma_tuple_progress(tokens, cur);
}

/// An object takes at least its opening brace.
pub proof fn lemma_object_progress(tokens: Tokens, cur: Cursor)
    requires
        0 <= cur.index < tokens.len(),
    ensures
        consumed(tokens, cur, object(tokens, cur).1),
    decreases tokens.len() - cur.index, 0int,
{
    lemma_collection_progress(tokens, cur.at(cur.index + 1), Some(TokenView::RightBrace), ItemKind::Pair);
}

/// A factor that is read takes at least one token.
pub proof fn lemma_factor_progress(tokens: Tokens, cur: Cursor)
    requires
        in_bounds(tokens, cur),
    ensures
        advanced(tokens, cur, factor(tokens, cur).1),
        factor(tokens, cur).0 is Some ==> consumed(tokens, cur, factor(tokens, cur).1),
    decreases tokens.len() - cur.index, 2int,
{
    match peek(tokens, cur.index) {
        None => {},
        Some(first) => {
            if first.v == TokenView::Hyphen {
                lemma_skip_whitespace_bounds(tokens, cur.index + 1);
                lemma_value_progress(tokens, cur.at(skip_whitespace(tokens, cur.index + 1)));
            } else {
                lemma_value_progress(tokens, cur);
            }
        },
    }
}

/// What follows a left operand moves the cursor forward, and always gives
/// an expression.
pub proof fn lemma_binop_progress(tokens: Tokens, cur: Cursor, left: Spanned<ExprView>, tier: Tier)
    requires
        in_bounds(tokens, cur),
    ensures
        advanced(tokens, cur, binop(tokens, cur, left, tier).1),
        binop(tokens, cur, left, tier).0 is Some,
    decreases tokens.len() - cur.index, 5int,
{
    lemma_skip_whitespace_bounds(tokens, cur.index);
    let at = skip_whitespace(tokens, cur.index);
    match peek(tokens, at) {
        None => {},
        Some(next) => match tier.operator(next.v) {
            None => {},
            Some(operator) => {
                lemma_skip_whitespace_bounds(tokens, at + 1);
                let start = skip_whitespace(tokens, at + 1);
                match tier {
                    Tier::Summand => lemma_expr_progress(tokens, cur.at(start)),
                    Tier::Factor => lemma_term_progress(tokens, cur.at(start)),
                }
            },
        },
    }
}

/// A term that is read takes at least one token.
pub proof fn lemma_term_progress(tokens: Tokens, cur: Cursor)
    requires
        in_bounds(tokens, cur),
    ensures
        advanced(tokens, cur, term(tokens, cur).1),
        term(tokens, cur).0 is Some ==> consumed(tokens, cur, term(tokens, cur).1),
        term(tokens, cur) == match factor(tokens, cur).0 {
            Some(left) => binop(tokens, factor(tokens, cur).1, left, Tier::Factor),
            None => factor(tokens, cur),
        },
    decreases tokens.len() - cur.index, 3int,
{
    lemma_factor_progress(tokens, cur);
    let (first, after) = factor(tokens, cur);
    if let Some(left) = first {
        lemma_binop_progress(tokens, after, left, Tier::Factor);
    }
}

/// An expression that is read takes at least one token.
pub proof fn lemma_expr_progress(tokens: Tokens, cur: Cursor)
    requires
        in_bounds(tokens, cur),
    ensures
        advanced(tokens, cur, expr(tokens, cur).1),
        expr(tokens, cur).0 is Some ==> consumed(tokens, cur, expr(tokens, cur).1),
        expr(tokens, cur) == match term(tokens, cur).0 {
            Some(left) => binop(tokens, term(tokens, cur).1, left, Tier::Summand),
            None => term(tokens, cur),
        },
    decreases tokens.len() - cur.index, 4int,
{
    lemma_term_progress(tokens, cur);
    let (first, after) = term(tokens, cur);
    if let Some(left) = first {
        lemma_binop_progress(tokens, after, left, Tier::Summand);
    }
}

/// An item that is read takes at least one token, and so does one that is
/// missed at a known place.
pub proof fn lemma_item_progress(tokens: Tokens, cur: Cursor, kind: ItemKind)
    requires
        in_bounds(tokens, cur),
    ensures
        advanced(tokens, cur, item(tokens, cur, kind).1),
        match item(tokens, cur, kind).0 {
            Ok(_) => consumed(tokens, cur, item(tokens, cur, kind).1),
            Err(missing) => missing.at is Some ==> consumed(tokens, cur, item(tokens, cur, kind).1),
        },
    decreases tokens.len() - cur.index, 6int,
{
    lemma_expr_progress(tokens, cur);
    match kind {
        ItemKind::Value => {},
        ItemKind::Argument => match ident(tokens, cur.index) {
            None => {},
            Some(name) => {
                if next_is(tokens, cur.index + 1, TokenView::LeftParen) {
                    lemma_named_tuple_progress(tokens, cur.at(cur.index + 1), name);
                } else {
                    lemma_skip_whitespace_bounds(tokens, cur.index + 1);
                    let at = skip_whitespace(tokens, cur.index + 1);
                    if next_is(tokens, at, TokenView::Equals) {
                        lemma_skip_whitespace_bounds(tokens, at + 1);
                        let start = skip_whitespace(tokens, at + 1);
                        lemma_expr_progress(
                            tokens,
                            cur.at(start).decorate(name.span, Decoration::ArgumentKey),
                        );
                    }
                }
            },
        },
        ItemKind::Pair => match ident(tokens, cur.index) {
            None => {},
            Some(key) => {
                lemma_skip_whitespace_bounds(tokens, cur.index + 1);
                let at = skip_whitespace(tokens, cur.index + 1);
                if next_is(tokens, at, TokenView::Colon) {
                    lemma_skip_whitespace_bounds(tokens, at + 1);
                    let start = skip_whitespace(tokens, at + 1);
                    lemma_expr_progress(
                        tokens,
                        cur.at(start).decorate(key.span, Decoration::ObjectKey),
                    );
                }
            },
        },
    }
}

/// An item before which the collection does not end, be it read or missed,
/// leaves the cursor behind the token it began at.
pub proof fn lemma_step_progress(
    tokens: Tokens,
    cur: Cursor,
    end: Option<TokenView>,
    kind: ItemKind,
    args: FuncArgsView,
    coercible: bool,
)
    requires
        0 <= cur.index < tokens.len(),
        !at_end(tokens, cur.index, end),
    ensures
        consumed(tokens, cur, after_item(tokens, cur, end, kind, args, coercible).2),
    decreases tokens.len() - cur.index, 7int,
{
    lemma_item_progress(tokens, cur, kind);
    let after = item(tokens, cur, kind).1;
    lemma_skip_whitespace_bounds(tokens, after.index);
}

/// How a collection goes on from a cursor: behind whitespace it ends at its
/// closing token or at the end of the tokens; otherwise it goes on behind the
/// next item.
pub proof fn lemma_collect_step(
    tokens: Tokens,
    cur: Cursor,
    end: Option<TokenView>,
    kind: ItemKind,
    args: FuncArgsView,
    coercible: bool,
)
    requires
        in_bounds(tokens, cur),
    ensures
        cur.index <= skip_whitespace(tokens, cur.index) <= tokens.len(),
        collect(tokens, cur, end, kind, args, coercible) == ({
            let at = skip_whitespace(tokens, cur.index);
            if at_end(tokens, at, end) {
                (
                    args,
                    coercible,
                    cur.at(
                        if at < tokens.len() {
                            at + 1
                        } else {
                            at
                        },
                    ),
                )
            } else if at >= tokens.len() {
                (
                    args,
                    coercible,
                    cur.at(at).expected_at(end.unwrap().name(), pos(tokens, at)),
                )
            } else {
                let (more, still, next) = after_item(tokens, cur.at(at), end, kind, args, coercible);
                collect(tokens, next, end, kind, more, still)
            }
        }),
    decreases tokens.len() - cur.index, 8int,
{
    lemma_skip_whitespace_bounds(tokens, cur.index);
    let at = skip_whitespace(tokens, cur.index);
    if !at_end(tokens, at, end) && at < tokens.len() {
        lemma_step_progress(tokens, cur.at(at), end, kind, args, coercible);
    }
}

/// A collection moves the cursor forward.
pub proof fn lemma_collect_progress(
    tokens: Tokens,
    cur: Cursor,
    end: Option<TokenView>,
    kind: ItemKind,
    args: FuncArgsView,
    coercible: bool,
)
    requires
        in_bounds(tokens, cur),
    ensures
        advanced(tokens, cur, collect(tokens, cur, end, kind, args, coercible).2),
    decreases tokens.len() - cur.index, 10int,
{
    lemma_collect_step(tokens, cur, end, kind, args, coercible);
    let at = skip_whitespace(tokens, cur.index);
    if !at_end(tokens, at, end) && at < tokens.len() {
        lemma_step_progress(tokens, cur.at(at), end, kind, args, coercible);
        let (more, still, next) = after_item(tokens, cur.at(at), end, kind, args, coercible);
        lemma_collect_progress(tokens, next, end, kind, more, still);
    }
}

/// A collection moves the cursor forward.
pub proof fn lemma_collection_progress(
    tokens: Tokens,
    cur: Cursor,
    end: Option<TokenView>,
    kind: ItemKind,
)
    requires
        in_bounds(tokens, cur),
    ensures
        advanced(tokens, cur, collection(tokens, cur, end, kind).2),
    decreases tokens.len() - cur.index, 11int,
{
    lemma_collect_progress(tokens, cur, end, kind, FuncArgsView::empty(), true);
}

} // verus!
