//! Nothing that the grammar reads or reports points outside the tokens:
//! where every token lies within some bounds, so does every span of the
//! results and of the feedback.

use crate::body::{header_feedback, header_tokens, reduce, PassView};
use crate::expr::ExprView;
use crate::feedback::{Decoration, FeedbackView};
use crate::func::{FuncArgView, FuncArgsView};
use crate::grammar::{
    after_item, at_end, binop, coerced, collect, collection, expr, factor, func_header, ident, item,
    lemma_skip_whitespace_bounds, named, named_tuple, next_is, object, origin, peek, pos,
    positional, skip_whitespace, term, tuple, value, Cursor, ItemKind, MissingView, Tier, Tokens,
};
use crate::progress::{
    in_bounds, lemma_collect_step, lemma_expr_progress, lemma_factor_progress,
    lemma_item_progress, lemma_step_progress, lemma_term_progress,
};
use crate::span::{Position, Span, Spanned};
use crate::tokens::TokenView;
use vstd::prelude::*;

verus! {

/// Whether every token lies within the bounds; and for no tokens at all,
/// whether the origin does.
pub open spec fn tokens_within(tokens: Tokens, bounds: Span) -> bool {
    &&& forall|i: int| 0 <= i < tokens.len() ==> (#[trigger] tokens[i]).span.within(bounds)
    &&& tokens.len() == 0 ==> bounds.holds(origin())
}

/// Whether a cursor lies within the tokens and has reported nothing outside
/// the bounds.
pub open spec fn tidy(tokens: Tokens, cur: Cursor, bounds: Span) -> bool {
    in_bounds(tokens, cur) && cur.feedback.within(bounds)
}

/// Whether every positional argument lies within the bounds.
pub open spec fn args_within(args: FuncArgsView, bounds: Span) -> bool {
    forall|i: int| 0 <= i < args.pos.items.len() ==> (#[trigger] args.pos.items[i]).span.within(bounds)
}

/// Whether what was read, if anything, lies within the bounds.
pub open spec fn read_within(read: Option<Spanned<ExprView>>, bounds: Span) -> bool {
    read is Some ==> read.unwrap().span.within(bounds)
}

/// Whether an item, or the place where it is missing, lies within the
/// bounds.
pub open spec fn item_within(read: Result<Spanned<FuncArgView>, MissingView>, bounds: Span) -> bool {
    match read {
        Ok(item) => item.span.within(bounds),
        Err(missing) => missing.at is Some ==> bounds.holds(missing.at.unwrap()),
    }
}

/// A problem within the bounds keeps the feedback within the bounds.
pub proof fn lemma_error_within(feedback: FeedbackView, span: Span, message: Seq<char>, bounds: Span)
    requires
        feedback.within(bounds),
        span.within(bounds),
    ensures
        feedback.error(span, message).within(bounds),
{
}

/// A decoration within the bounds keeps the feedback within the bounds.
pub proof fn lemma_decorate_within(feedback: FeedbackView, span: Span, deco: Decoration, bounds: Span)
    requires
        feedback.within(bounds),
        span.within(bounds),
    ensures
        feedback.decorate(span, deco).within(bounds),
{
}

/// The position of a cursor lies within the bounds of the tokens.
pub proof fn lemma_pos_within(tokens: Tokens, index: int, bounds: Span)
    requires
        tokens_within(tokens, bounds),
    ensures
        bounds.holds(pos(tokens, index)),
        Span::spec_at(pos(tokens, index)).within(bounds),
{
    if 0 <= index < tokens.len() {
        assert(tokens[index].span.within(bounds));
    } else if tokens.len() > 0 {
        assert(tokens[tokens.len() - 1].span.within(bounds));
    }
}

/// A value lies within the bounds of the tokens.
pub proof fn lemma_value_within(tokens: Tokens, cur: Cursor, bounds: Span)
    requires
        tokens_within(tokens, bounds),
        tidy(tokens, cur, bounds),
    ensures
        read_within(value(tokens, cur).0, bounds),
        value(tokens, cur).1.feedback.within(bounds),
    decreases tokens.len() - cur.index, 1int,
{
    match peek(tokens, cur.index) {
        None => {},
        Some(first) => {
            assert(tokens[cur.index].span.within(bounds));
            let next = cur.at(cur.index + 1);
            match first.v {
                TokenView::ExprIdent(text) => {
                    lemma_named_within(tokens, next, Spanned { v: text, span: first.span }, bounds);
                },
                TokenView::LeftParen => {
                    lemma_tuple_within(tokens, cur, bounds);
                },
                TokenView::LeftBrace => {
                    lemma_object_within(tokens, cur, bounds);
                },
                _ => {
                    lemma_error_within(cur.feedback, first.span, "invalid color"@, bounds);
                    lemma_error_within(
                        cur.feedback,
                        Span::spec_at(first.span.end),
                        crate::grammar::expected_message("quote"@),
                        bounds,
                    );
                },
            }
        },
    }
}

/// A name or a named tuple lies within the bounds of the tokens.
pub proof fn lemma_named_within(
    tokens: Tokens,
    cur: Cursor,
    name: Spanned<Seq<char>>,
    bounds: Span,
)
    requires
        tokens_within(tokens, bounds),
        tidy(tokens, cur, bounds),
        name.span.within(bounds),
    ensures
        named(tokens, cur, name).0.span.within(bounds),
        named(tokens, cur, name).1.feedback.within(bounds),
    decreases tokens.len() - cur.index, 2int,
{
    if next_is(tokens, cur.index, TokenView::LeftParen) {
        lemma_named_tuple_within(tokens, cur, name, bounds);
    }
}

/// A tuple and its items lie within the bounds of the tokens.
pub proof fn lemma_tuple_within(tokens: Tokens, cur: Cursor, bounds: Span)
    requires
        tokens_within(tokens, bounds),
        tidy(tokens, cur, bounds),
        0 <= cur.index < tokens.len(),
    ensures
        tuple(tokens, cur).0.span.within(bounds),
        coerced(tuple(tokens, cur).0, tuple(tokens, cur).1).span.within(bounds),
        tuple(tokens, cur).2.feedback.within(bounds),
    decreases tokens.len() - cur.index, 0int,
{
    lemma_collection_within(tokens, cur.at(cur.index + 1), Some(TokenView::RightParen), ItemKind::Value, bounds);
    let (args, coercible, after) = collection(
        tokens,
        cur.at(cur.index + 1),
        Some(TokenView::RightParen),
        ItemKind::Value,
    );
    if coercible && args.v.pos.items.len() > 0 {
        assert(args.v.pos.items[args.v.pos.items.len() - 1].span.within(bounds));
    }
}

/// A named tuple lies within the bounds of the tokens.
pub proof fn lemma_named_tuple_within(
    tokens: Tokens,
    cur: Cursor,
    name: Spanned<Seq<char>>,
    bounds: Span,
)
    requires
        tokens_within(tokens, bounds),
        tidy(tokens, cur, bounds),
        0 <= cur.index < tokens.len(),
        name.span.within(bounds),
    ensures
        named_tuple(tokens, cur, name).0.span.within(bounds),
        named_tuple(tokens, cur, name).1.feedback.within(bounds),
    decreases tokens.len() - cur.index, 1int,
{
    lemma_tuple_within(tokens, cur, bounds);
}

/// An object lies within the bounds of the tokens.
pub proof fn lemma_object_within(tokens: Tokens, cur: Cursor, bounds: Span)
    requires
        tokens_within(tokens, bounds),
        tidy(tokens, cur, bounds),
        0 <= cur.index < tokens.len(),
    ensures
        object(tokens, cur).0.span.within(bounds),
        object(tokens, cur).1.feedback.within(bounds),
    decreases tokens.len() - cur.index, 0int,
{
    lemma_collection_within(tokens, cur.at(cur.index + 1), Some(TokenView::RightBrace), ItemKind::Pair, bounds);
}

/// A factor lies within the bounds of the tokens.
pub proof fn lemma_factor_within(tokens: Tokens, cur: Cursor, bounds: Span)
    requires
        tokens_within(tokens, bounds),
        tidy(tokens, cur, bounds),
    ensures
        read_within(factor(tokens, cur).0, bounds),
        factor(tokens, cur).1.feedback.within(bounds),
    decreases tokens.len() - cur.index, 2int,
{
    match peek(tokens, cur.index) {
        None => {},
        Some(first) => {
            assert(tokens[cur.index].span.within(bounds));
            if first.v == TokenView::Hyphen {
                lemma_skip_whitespace_bounds(tokens, cur.index + 1);
                let start = cur.at(skip_whitespace(tokens, cur.index + 1));
                lemma_value_within(tokens, start, bounds);
                lemma_error_within(value(tokens, start).1.feedback, first.span, "dangling minus"@, bounds);
            } else {
                lemma_value_within(tokens, cur, bounds);
            }
        },
    }
}

/// What follows a left operand within the bounds lies within the bounds.
pub proof fn lemma_binop_within(
    tokens: Tokens,
    cur: Cursor,
    left: Spanned<ExprView>,
    tier: Tier,
    bounds: Span,
)
    requires
        tokens_within(tokens, bounds),
        tidy(tokens, cur, bounds),
        left.span.within(bounds),
    ensures
        read_within(binop(tokens, cur, left, tier).0, bounds),
        binop(tokens, cur, left, tier).1.feedback.within(bounds),
    decreases tokens.len() - cur.index, 5int,
{
    lemma_skip_whitespace_bounds(tokens, cur.index);
    let at = skip_whitespace(tokens, cur.index);
    match peek(tokens, at) {
        None => {},
        Some(next) => match tier.operator(next.v) {
            None => {},
            Some(operator) => {
                assert(tokens[at].span.within(bounds));
                lemma_skip_whitespace_bounds(tokens, at + 1);
                let start = cur.at(skip_whitespace(tokens, at + 1));
                let after = match tier {
                    Tier::Summand => {
                        lemma_expr_within(tokens, start, bounds);
                        expr(tokens, start).1
                    },
                    Tier::Factor => {
                        lemma_term_within(tokens, start, bounds);
                        term(tokens, start).1
                    },
                };
                lemma_error_within(
                    after.feedback,
                    Span::spec_merge(next.span, left.span),
                    crate::grammar::missing_right_message(tier.operand_name()),
                    bounds,
                );
            },
        },
    }
}

/// A term lies within the bounds of the tokens.
pub proof fn lemma_term_within(tokens: Tokens, cur: Cursor, bounds: Span)
    requires
        tokens_within(tokens, bounds),
        tidy(tokens, cur, bounds),
    ensures
        read_within(term(tokens, cur).0, bounds),
        term(tokens, cur).1.feedback.within(bounds),
    decreases tokens.len() - cur.index, 3int,
{
    lemma_factor_progress(tokens, cur);
    lemma_term_progress(tokens, cur);
    lemma_factor_within(tokens, cur, bounds);
    let (first, after) = factor(tokens, cur);
    if let Some(left) = first {
        lemma_binop_within(tokens, after, left, Tier::Factor, bounds);
    }
}

/// An expression lies within the bounds of the tokens.
pub proof fn lemma_expr_within(tokens: Tokens, cur: Cursor, bounds: Span)
    requires
        tokens_within(tokens, bounds),
        tidy(tokens, cur, bounds),
    ensures
        read_within(expr(tokens, cur).0, bounds),
        expr(tokens, cur).1.feedback.within(bounds),
    decreases tokens.len() - cur.index, 4int,
{
    lemma_term_progress(tokens, cur);
    lemma_expr_progress(tokens, cur);
    lemma_term_within(tokens, cur, bounds);
    let (first, after) = term(tokens, cur);
    if let Some(left) = first {
        lemma_binop_within(tokens, after, left, Tier::Summand, bounds);
    }
}

/// An item, or the place where it is missing, lies within the bounds of
/// the tokens.
pub proof fn lemma_item_within(tokens: Tokens, cur: Cursor, kind: ItemKind, bounds: Span)
    requires
        tokens_within(tokens, bounds),
        tidy(tokens, cur, bounds),
    ensures
        item_within(item(tokens, cur, kind).0, bounds),
        item(tokens, cur, kind).1.feedback.within(bounds),
    decreases tokens.len() - cur.index, 6int,
{
    lemma_expr_within(tokens, cur, bounds);
    match kind {
        ItemKind::Value => {},
        ItemKind::Argument => match ident(tokens, cur.index) {
            None => {},
            Some(name) => {
                assert(tokens[cur.index].span.within(bounds));
                if next_is(tokens, cur.index + 1, TokenView::LeftParen) {
                    lemma_named_tuple_within(tokens, cur.at(cur.index + 1), name, bounds);
                } else {
                    lemma_skip_whitespace_bounds(tokens, cur.index + 1);
                    let at = skip_whitespace(tokens, cur.index + 1);
                    if next_is(tokens, at, TokenView::Equals) {
                        lemma_skip_whitespace_bounds(tokens, at + 1);
                        let start = skip_whitespace(tokens, at + 1);
                        lemma_decorate_within(cur.feedback, name.span, Decoration::ArgumentKey, bounds);
                        lemma_expr_within(
                            tokens,
                            cur.at(start).decorate(name.span, Decoration::ArgumentKey),
                            bounds,
                        );
                    }
                }
            },
        },
        ItemKind::Pair => match ident(tokens, cur.index) {
            None => {},
            Some(key) => {
                assert(tokens[cur.index].span.within(bounds));
                lemma_pos_within(tokens, cur.index + 1, bounds);
                lemma_skip_whitespace_bounds(tokens, cur.index + 1);
                let at = skip_whitespace(tokens, cur.index + 1);
                if next_is(tokens, at, TokenView::Colon) {
                    lemma_skip_whitespace_bounds(tokens, at + 1);
                    let start = skip_whitespace(tokens, at + 1);
                    lemma_decorate_within(cur.feedback, key.span, Decoration::ObjectKey, bounds);
                    lemma_expr_within(
                        tokens,
                        cur.at(start).decorate(key.span, Decoration::ObjectKey),
                        bounds,
                    );
                }
            },
        },
    }
}

/// What follows an item lies within the bounds of the tokens.
pub proof fn lemma_after_item_within(
    tokens: Tokens,
    cur: Cursor,
    end: Option<TokenView>,
    kind: ItemKind,
    args: FuncArgsView,
    coercible: bool,
    bounds: Span,
)
    requires
        tokens_within(tokens, bounds),
        tidy(tokens, cur, bounds),
        args_within(args, bounds),
    ensures
        args_within(after_item(tokens, cur, end, kind, args, coercible).0, bounds),
        after_item(tokens, cur, end, kind, args, coercible).2.feedback.within(bounds),
    decreases tokens.len() - cur.index, 7int,
{
    lemma_item_within(tokens, cur, kind, bounds);
    lemma_item_progress(tokens, cur, kind);
    let (read, after) = item(tokens, cur, kind);
    match read {
        Ok(found) => {
            let at = skip_whitespace(tokens, after.index);
            lemma_error_within(
                after.feedback,
                Span::spec_at(found.span.end),
                crate::grammar::expected_message("comma"@),
                bounds,
            );
            let more = args.add(found);
            assert forall|i: int| 0 <= i < more.pos.items.len() implies (#[trigger] more.pos.items[i]).span.within(
                bounds,
            ) by {
                if i < args.pos.items.len() {
                    assert(args.pos.items[i].span.within(bounds));
                }
            }
        },
        Err(missing) => {
            match missing.at {
                Some(position) => {
                    lemma_error_within(
                        after.feedback,
                        Span::spec_at(position),
                        crate::grammar::expected_message(missing.thing),
                        bounds,
                    );
                },
                None => {
                    let found = peek(tokens, after.index);
                    let moved = if found is Some && !at_end(tokens, after.index, end) {
                        after.at(after.index + 1)
                    } else {
                        after
                    };
                    lemma_pos_within(tokens, moved.index, bounds);
                    match found {
                        Some(token) => {
                            assert(tokens[after.index].span.within(bounds));
                            lemma_error_within(
                                after.feedback,
                                token.span,
                                crate::grammar::expected_found_message(missing.thing, token.v.name()),
                                bounds,
                            );
                        },
                        None => {
                            lemma_error_within(
                                after.feedback,
                                Span::spec_at(pos(tokens, moved.index)),
                                crate::grammar::expected_message(missing.thing),
                                bounds,
                            );
                        },
                    }
                },
            }
        },
    }
}

/// The rest of a collection lies within the bounds of the tokens.
pub proof fn lemma_collect_within(
    tokens: Tokens,
    cur: Cursor,
    end: Option<TokenView>,
    kind: ItemKind,
    args: FuncArgsView,
    coercible: bool,
    bounds: Span,
)
    requires
        tokens_within(tokens, bounds),
        tidy(tokens, cur, bounds),
        args_within(args, bounds),
    ensures
        args_within(collect(tokens, cur, end, kind, args, coercible).0, bounds),
        collect(tokens, cur, end, kind, args, coercible).2.feedback.within(bounds),
    decreases tokens.len() - cur.index, 8int,
{
    lemma_collect_step(tokens, cur, end, kind, args, coercible);
    let at = skip_whitespace(tokens, cur.index);
    if at_end(tokens, at, end) {
    } else if at >= tokens.len() {
        lemma_pos_within(tokens, at, bounds);
        lemma_error_within(
            cur.feedback,
            Span::spec_at(pos(tokens, at)),
            crate::grammar::expected_message(end.unwrap().name()),
            bounds,
        );
    } else {
        lemma_step_progress(tokens, cur.at(at), end, kind, args, coercible);
        lemma_after_item_within(tokens, cur.at(at), end, kind, args, coercible, bounds);
        let (more, still, next) = after_item(tokens, cur.at(at), end, kind, args, coercible);
        lemma_collect_within(tokens, next, end, kind, more, still, bounds);
    }
}

/// A collection and its items lie within the bounds of the tokens.
pub proof fn lemma_collection_within(
    tokens: Tokens,
    cur: Cursor,
    end: Option<TokenView>,
    kind: ItemKind,
    bounds: Span,
)
    requires
        tokens_within(tokens, bounds),
        tidy(tokens, cur, bounds),
    ensures
        collection(tokens, cur, end, kind).0.span.within(bounds),
        args_within(collection(tokens, cur, end, kind).0.v, bounds),
        collection(tokens, cur, end, kind).2.feedback.within(bounds),
    decreases tokens.len() - cur.index, 9int,
{
    lemma_collect_within(tokens, cur, end, kind, FuncArgsView::empty(), true, bounds);
    lemma_pos_within(tokens, cur.index, bounds);
    lemma_pos_within(tokens, collect(tokens, cur, end, kind, FuncArgsView::empty(), true).2.index, bounds);
}

/// Whatever reading a header reports lies within the bounds of its tokens,
/// and so does the name of the header.
pub proof fn lemma_func_header_within(tokens: Tokens, cur: Cursor, bounds: Span)
    requires
        tokens_within(tokens, bounds),
        tidy(tokens, cur, bounds),
    ensures
        func_header(tokens, cur).1.feedback.within(bounds),
        func_header(tokens, cur).0 is Some ==> func_header(tokens, cur).0.unwrap().name.span.within(
            bounds,
        ),
{
    lemma_pos_within(tokens, cur.index, bounds);
    lemma_skip_whitespace_bounds(tokens, cur.index);
    let start = pos(tokens, cur.index);
    let at = skip_whitespace(tokens, cur.index);
    match ident(tokens, at) {
        None => {
            match peek(tokens, at) {
                Some(token) => {
                    assert(tokens[at].span.within(bounds));
                    lemma_error_within(
                        cur.feedback,
                        token.span,
                        crate::grammar::expected_found_message("identifier"@, token.v.name()),
                        bounds,
                    );
                },
                None => {
                    lemma_error_within(
                        cur.feedback,
                        Span::spec_at(start),
                        crate::grammar::expected_message("identifier"@),
                        bounds,
                    );
                },
            }
        },
        Some(name) => {
            assert(tokens[at].span.within(bounds));
            lemma_skip_whitespace_bounds(tokens, at + 1);
            let colon = skip_whitespace(tokens, at + 1);
            match peek(tokens, colon) {
                None => {},
                Some(token) => if token.v == TokenView::Colon {
                    lemma_collection_within(tokens, cur.at(colon + 1), None, ItemKind::Argument, bounds);
                } else {
                    lemma_error_within(
                        cur.feedback,
                        Span::spec_at(name.span.end),
                        crate::grammar::expected_message("colon"@),
                        bounds,
                    );
                },
            }
        },
    }
}

/// Whatever a function reports before its parser is called lies within the
/// bounds of the tokens of its header.
pub proof fn lemma_header_feedback_within(
    tokens: Tokens,
    cur: Cursor,
    names: Set<Seq<char>>,
    bounds: Span,
)
    requires
        tokens_within(tokens, bounds),
        tidy(tokens, cur, bounds),
    ensures
        header_feedback(tokens, cur, names).within(bounds),
{
    lemma_func_header_within(tokens, cur, bounds);
    let (read, after) = func_header(tokens, cur);
    if let Some(header) = read {
        lemma_error_within(after.feedback, header.name.span, "unknown function"@, bounds);
    }
}

/// A position within a text lies within the span of the text, once it is
/// counted from where the text begins.
pub proof fn lemma_offset_within(pos: Position, span: Span)
    requires
        span.start.spec_le(span.end),
        span.local().holds(pos),
    ensures
        span.holds(pos.spec_offset(span.start)),
{
}

/// Feedback within a text lies within the span of the text, once it is
/// counted from where the text begins.
pub proof fn lemma_feedback_offset_within(feedback: FeedbackView, span: Span)
    requires
        span.start.spec_le(span.end),
        feedback.within(span.local()),
    ensures
        feedback.offset(span.start).within(span),
{
    let moved = feedback.offset(span.start);
    assert forall|i: int| 0 <= i < moved.problems.len() implies (#[trigger] moved.problems[i]).span.within(
        span,
    ) by {
        assert(feedback.problems[i].span.within(span.local()));
        lemma_offset_within(feedback.problems[i].span.start, span);
        lemma_offset_within(feedback.problems[i].span.end, span);
    }
    assert forall|i: int| 0 <= i < moved.decos.len() implies (#[trigger] moved.decos[i]).span.within(
        span,
    ) by {
        assert(feedback.decos[i].span.within(span.local()));
        lemma_offset_within(feedback.decos[i].span.start, span);
        lemma_offset_within(feedback.decos[i].span.end, span);
    }
}

/// Feedback within a span lies within every span around it.
pub proof fn lemma_feedback_within_wider(feedback: FeedbackView, inner: Span, outer: Span)
    requires
        feedback.within(inner),
        inner.within(outer),
    ensures
        feedback.within(outer),
{
    assert forall|i: int| 0 <= i < feedback.problems.len() implies (#[trigger] feedback.problems[i]).span.within(
        outer,
    ) by {
        assert(feedback.problems[i].span.within(inner));
    }
    assert forall|i: int| 0 <= i < feedback.decos.len() implies (#[trigger] feedback.decos[i]).span.within(
        outer,
    ) by {
        assert(feedback.decos[i].span.within(inner));
    }
}

/// Feedback within the bounds, extended by feedback within the bounds, lies
/// within the bounds.
pub proof fn lemma_extend_within(first: FeedbackView, second: FeedbackView, bounds: Span)
    requires
        first.within(bounds),
        second.within(bounds),
    ensures
        first.extend(second).within(bounds),
{
    let both = first.extend(second);
    assert forall|i: int| 0 <= i < both.problems.len() implies (#[trigger] both.problems[i]).span.within(
        bounds,
    ) by {
        if i < first.problems.len() {
            assert(first.problems[i].span.within(bounds));
        } else {
            assert(second.problems[i - first.problems.len()].span.within(bounds));
        }
    }
    assert forall|i: int| 0 <= i < both.decos.len() implies (#[trigger] both.decos[i]).span.within(
        bounds,
    ) by {
        if i < first.decos.len() {
            assert(first.decos[i].span.within(bounds));
        } else {
            assert(second.decos[i - first.decos.len()].span.within(bounds));
        }
    }
}

/// Whether a token is sound: it does not end before it begins, and where
/// it is a function, the tokens of its header lie within the function,
/// counted from its opening bracket.
pub open spec fn token_sound(token: Spanned<TokenView>) -> bool {
    &&& token.span.start.spec_le(token.span.end)
    &&& match token.v {
        TokenView::Function { header, body, terminated } => tokens_within(
            header_tokens(header),
            token.span.local(),
        ),
        _ => true,
    }
}

/// Whether the tokens of a body are sound and lie within the bounds.
pub open spec fn body_within(tokens: Tokens, bounds: Span) -> bool {
    forall|i: int|
        0 <= i < tokens.len() ==> (#[trigger] tokens[i]).span.within(bounds) && token_sound(tokens[i])
}

/// Whether the parsers of the functions have reported nothing outside their
/// functions: the feedback for each function lies within the function,
/// counted from its opening bracket.
pub open spec fn outcomes_within<M>(tokens: Tokens, outcomes: Seq<PassView<M>>) -> bool {
    forall|i: int|
        0 <= i < tokens.len() && (#[trigger] tokens[i]).v is Function ==> outcomes[i].feedback.within(
            tokens[i].span.local(),
        )
}

/// Whether every node bears a span within the bounds.
pub open spec fn nodes_within<M>(nodes: Seq<Spanned<crate::model::NodeView<M>>>, bounds: Span) -> bool {
    forall|i: int| 0 <= i < nodes.len() ==> (#[trigger] nodes[i]).span.within(bounds)
}

/// One more sound token within the bounds keeps a body within the bounds.
pub proof fn lemma_reduce_within<M>(
    state: PassView<Seq<Spanned<crate::model::NodeView<M>>>>,
    token: Spanned<TokenView>,
    names: Set<Seq<char>>,
    outcome: PassView<M>,
    bounds: Span,
)
    requires
        state.feedback.within(bounds),
        nodes_within(state.output, bounds),
        token.span.within(bounds),
        token_sound(token),
        token.v is Function ==> outcome.feedback.within(token.span.local()),
    ensures
        reduce(state, token, names, outcome).feedback.within(bounds),
        nodes_within(reduce(state, token, names, outcome).output, bounds),
{
    let after = reduce(state, token, names, outcome);
    assert forall|i: int| 0 <= i < after.output.len() implies (#[trigger] after.output[i]).span.within(
        bounds,
    ) by {
        if i < state.output.len() {
            assert(state.output[i].span.within(bounds));
        }
    }
    match token.v {
        TokenView::Function { header, body, terminated } => {
            let local = token.span.local();
            let tokens = header_tokens(header);
            lemma_header_feedback_within(tokens, Cursor::start(), names, local);
            let parsed = header_feedback(tokens, Cursor::start(), names).extend(outcome.feedback);
            lemma_extend_within(header_feedback(tokens, Cursor::start(), names), outcome.feedback, local);
            lemma_feedback_offset_within(parsed, token.span);
            lemma_feedback_within_wider(parsed.offset(token.span.start), token.span, bounds);
            lemma_extend_within(state.feedback, parsed.offset(token.span.start), bounds);
            lemma_error_within(
                state.feedback.extend(parsed.offset(token.span.start)),
                Span::spec_at(token.span.end),
                "expected closing bracket"@,
                bounds,
            );
        },
        _ => {
            lemma_error_within(
                state.feedback,
                Span::spec_at(token.span.end),
                "expected backtick"@,
                bounds,
            );
            lemma_error_within(
                state.feedback,
                token.span,
                crate::grammar::unexpected_message(token.v.name()),
                bounds,
            );
        },
    }
}

} // verus!
