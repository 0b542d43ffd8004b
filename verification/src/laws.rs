//! Laws of the parser, proved of the grammar that specifies it.

use crate::body::{body, function, header_feedback, header_tokens, plain_node, reduce, PassView};
use crate::bounds::{
    body_within, lemma_header_feedback_within, lemma_reduce_within, nodes_within,
    outcomes_within, token_sound, tokens_within,
};
use crate::color::{spec_parse_color, RgbaColor};
use crate::escaping::{is_one_line, lemma_raw_lines, line_breaks, spec_unescape_raw};
use crate::expr::{ExprView, TupleView};
use crate::extent::{
    covers, extent, fits, lemma_pos_at_grows, lemma_tokenize_sound, lemma_tokens_cover,
    lemma_tokens_within,
};
use crate::feedback::{Decoration, FeedbackView};
use crate::func::FuncArgsView;
use crate::grammar::{
    after_item, at_end, binop, expr, factor, func_header, lemma_skip_whitespace_bounds,
    missing_right_message, next_is, origin, peek, skip_whitespace, term, unexpected_message,
    value, Cursor, ItemKind, Tier, Tokens,
};
use crate::lexing::{lemma_token_at_bounds, token_at, tokenize, tokens_from, TokenizationMode};
use crate::model::NodeView;
use crate::progress::{
    in_bounds, lemma_collect_step, lemma_expr_progress, lemma_factor_progress,
    lemma_term_progress, lemma_value_progress,
};
use crate::span::{Position, Span, Spanned};
use crate::tokens::TokenView;
use vstd::prelude::*;

verus! {

/// The node that stands for whitespace or text: a space, a paragraph break
/// or the text.
pub open spec fn segment<M>(token: Spanned<TokenView>) -> Spanned<NodeView<M>> {
    Spanned {
        v: match token.v {
            TokenView::Text(text) => NodeView::Text(text),
            TokenView::Space(newlines) => if newlines >= 2 {
                NodeView::Parbreak
            } else {
                NodeView::Space
            },
            _ => arbitrary(),
        },
        span: token.span,
    }
}

/// A body of nothing but whitespace and text is parsed into exactly its
/// segments: one node for each token, in order and with the span of the
/// token; and nothing is reported.
pub proof fn law_plain_body<M>(
    tokens: Tokens,
    count: int,
    names: Set<Seq<char>>,
    outcomes: Seq<PassView<M>>,
)
    requires
        0 <= count <= tokens.len(),
        forall|i: int| 0 <= i < count ==> (#[trigger] tokens[i]).v is Space || tokens[i].v is Text,
    ensures
        body(tokens, count, names, outcomes).feedback == FeedbackView::empty(),
        body(tokens, count, names, outcomes).output == Seq::new(
            count as nat,
            |i: int| segment::<M>(tokens[i]),
        ),
    decreases count,
{
    if count > 0 {
        law_plain_body(tokens, count - 1, names, outcomes);
        let token = tokens[count - 1];
        assert(token.v is Space || token.v is Text);
        assert(body(tokens, count, names, outcomes).output =~= Seq::new(
            count as nat,
            |i: int| segment::<M>(tokens[i]),
        ));
    } else {
        assert(body(tokens, count, names, outcomes).output =~= Seq::new(
            count as nat,
            |i: int| segment::<M>(tokens[i]),
        ));
    }
}

/// Whitespace with at most one line ending becomes a space, whitespace
/// with two or more becomes a paragraph break; either way it is one node
/// with the span of the whitespace, and nothing is reported.
pub proof fn law_newlines<M>(
    state: PassView<Seq<Spanned<NodeView<M>>>>,
    newlines: usize,
    span: Span,
    names: Set<Seq<char>>,
    outcome: PassView<M>,
)
    ensures
        reduce(state, Spanned { v: TokenView::Space(newlines), span }, names, outcome).feedback
            == state.feedback,
        reduce(state, Spanned { v: TokenView::Space(newlines), span }, names, outcome).output
            == state.output.push(
            Spanned {
                v: if newlines >= 2 {
                    NodeView::Parbreak
                } else {
                    NodeView::Space
                },
                span,
            },
        ),
{
}

/// A function with a name that the scope does not know is not dropped: it
/// becomes a model node as every function does. Its name is the last thing
/// that the header reports, as an unknown function, and the last thing that
/// it decorates, as invalid; what the parser of the function reports
/// follows.
pub proof fn law_unknown_function<M>(
    header: Tokens,
    cur: Cursor,
    names: Set<Seq<char>>,
    outcome: PassView<M>,
)
    requires
        func_header(header, cur).0 is Some,
        !names.contains(func_header(header, cur).0.unwrap().name.v),
    ensures
        function(header, cur, names, outcome).output == NodeView::Model(outcome.output),
        function(header, cur, names, outcome).feedback == header_feedback(header, cur, names).extend(
            outcome.feedback,
        ),
        header_feedback(header, cur, names).problems == func_header(header, cur).1.feedback.problems.push(
            Spanned {
                v: "unknown function"@,
                span: func_header(header, cur).0.unwrap().name.span,
            },
        ),
        header_feedback(header, cur, names).decos == func_header(header, cur).1.feedback.decos.push(
            Spanned {
                v: Decoration::InvalidFuncName,
                span: func_header(header, cur).0.unwrap().name.span,
            },
        ),
{
}

/// Every function becomes exactly one model node with the span of the
/// function, whatever its header holds.
pub proof fn law_function_kept<M>(
    state: PassView<Seq<Spanned<NodeView<M>>>>,
    token: Spanned<TokenView>,
    names: Set<Seq<char>>,
    outcome: PassView<M>,
)
    requires
        token.v is Function,
    ensures
        reduce(state, token, names, outcome).output == state.output.push(
            Spanned { v: NodeView::Model(outcome.output), span: token.span },
        ),
{
}

/// A color that cannot be read is healed to opaque black, and exactly one
/// problem is reported: an invalid color, at the span of the literal.
pub proof fn law_invalid_color_heals(tokens: Tokens, cur: Cursor, text: Seq<char>)
    requires
        0 <= cur.index < tokens.len(),
        tokens[cur.index].v == TokenView::ExprHex(text),
        spec_parse_color(text) is None,
    ensures
        value(tokens, cur).0 == Some(
            Spanned {
                v: ExprView::Color(RgbaColor { r: 0, g: 0, b: 0, a: 255, healed: true }),
                span: tokens[cur.index].span,
            },
        ),
        value(tokens, cur).1 == cur.at(cur.index + 1).error(
            tokens[cur.index].span,
            "invalid color"@,
        ),
{
}

/// A binary operator without a right operand is reported as missing it, over
/// the span from the left operand through the operator, after whatever the
/// attempt to read the operand has reported; and the left operand is the
/// result.
pub proof fn law_missing_right_operand(
    tokens: Tokens,
    cur: Cursor,
    left: Spanned<ExprView>,
    tier: Tier,
)
    requires
        in_bounds(tokens, cur),
        peek(tokens, skip_whitespace(tokens, cur.index)) is Some,
        tier.operator(tokens[skip_whitespace(tokens, cur.index)].v) is Some,
        right_operand(tokens, cur, tier).0 is None,
    ensures
        binop(tokens, cur, left, tier).0 == Some(left),
        binop(tokens, cur, left, tier).1 == right_operand(tokens, cur, tier).1.error(
            Span::spec_merge(tokens[skip_whitespace(tokens, cur.index)].span, left.span),
            missing_right_message(tier.operand_name()),
        ),
{
}

/// What is read as the right operand of an operator that stands behind the
/// cursor and whitespace: an expression of the tier of the operator, from
/// behind the operator and whitespace.
pub open spec fn right_operand(tokens: Tokens, cur: Cursor, tier: Tier) -> (
    Option<Spanned<ExprView>>,
    Cursor,
) {
    let start = skip_whitespace(tokens, skip_whitespace(tokens, cur.index) + 1);
    match tier {
        Tier::Summand => expr(tokens, cur.at(start)),
        Tier::Factor => term(tokens, cur.at(start)),
    }
}

/// A minus sign without a value behind it is reported as dangling, at the
/// span of the sign, and no factor is read.
pub proof fn law_dangling_minus(tokens: Tokens, cur: Cursor)
    requires
        0 <= cur.index < tokens.len(),
        tokens[cur.index].v == TokenView::Hyphen,
        value(tokens, cur.at(skip_whitespace(tokens, cur.index + 1))).0 is None,
    ensures
        factor(tokens, cur).0 is None,
        factor(tokens, cur).1 == cur.at(skip_whitespace(tokens, cur.index + 1)).error(
            tokens[cur.index].span,
            "dangling minus"@,
        ),
{
    lemma_skip_whitespace_bounds(tokens, cur.index + 1);
    lemma_value_progress(tokens, cur.at(skip_whitespace(tokens, cur.index + 1)));
}

/// An expression begins with a token, and not with a closing parenthesis.
proof fn lemma_expr_begins(tokens: Tokens, cur: Cursor)
    requires
        in_bounds(tokens, cur),
        expr(tokens, cur).0 is Some,
    ensures
        0 <= cur.index < tokens.len(),
        !at_end(tokens, cur.index, Some(TokenView::RightParen)),
{
    lemma_expr_progress(tokens, cur);
    lemma_term_progress(tokens, cur);
    lemma_factor_progress(tokens, cur);
}

/// Skipping whitespace stops at a token that is no whitespace.
proof fn lemma_skip_whitespace_stays(tokens: Tokens, index: int, token: TokenView)
    requires
        next_is(tokens, index, token),
        !token.is_whitespace(),
    ensures
        skip_whitespace(tokens, index) == index,
{
}

/// The coercion law: a parenthesized expression, with nothing but
/// whitespace around it and no comma behind it, is that expression. The
/// value at the opening parenthesis is what is read as an expression behind
/// the parenthesis, span and feedback included, and the cursor ends behind
/// the closing parenthesis.
pub proof fn law_group_is_its_expression(tokens: Tokens, cur: Cursor)
    requires
        in_bounds(tokens, cur),
        next_is(tokens, cur.index, TokenView::LeftParen),
        grouped(tokens, cur).0 is Some,
        next_is(
            tokens,
            skip_whitespace(tokens, grouped(tokens, cur).1.index),
            TokenView::RightParen,
        ),
    ensures
        value(tokens, cur).0 == grouped(tokens, cur).0,
        value(tokens, cur).1 == grouped(tokens, cur).1.at(
            skip_whitespace(tokens, grouped(tokens, cur).1.index) + 1,
        ),
{
    let open = cur.at(cur.index + 1);
    let inner = cur.at(skip_whitespace(tokens, cur.index + 1));
    let (read, after) = expr(tokens, inner);
    let close = skip_whitespace(tokens, after.index);
    lemma_skip_whitespace_bounds(tokens, cur.index + 1);
    lemma_expr_begins(tokens, inner);
    lemma_expr_progress(tokens, inner);
    lemma_collect_step(tokens, open, Some(TokenView::RightParen), ItemKind::Value, FuncArgsView::empty(), true);
    let (more, still, next) = after_item(
        tokens,
        inner,
        Some(TokenView::RightParen),
        ItemKind::Value,
        FuncArgsView::empty(),
        true,
    );
    assert(still);
    assert(next == after.at(close));
    assert(more.pos.items =~= seq![read.unwrap()]);
    lemma_skip_whitespace_stays(tokens, close, TokenView::RightParen);
    lemma_collect_step(tokens, next, Some(TokenView::RightParen), ItemKind::Value, more, still);
}

/// What is read as an expression behind the opening parenthesis at the
/// cursor and whitespace.
pub open spec fn grouped(tokens: Tokens, cur: Cursor) -> (Option<Spanned<ExprView>>, Cursor) {
    expr(tokens, cur.at(skip_whitespace(tokens, cur.index + 1)))
}

/// A parenthesized expression with a comma behind it is no expression but a
/// tuple of one item: the expression.
pub proof fn law_trailing_comma_makes_tuple(tokens: Tokens, cur: Cursor)
    requires
        in_bounds(tokens, cur),
        next_is(tokens, cur.index, TokenView::LeftParen),
        grouped(tokens, cur).0 is Some,
        next_is(tokens, skip_whitespace(tokens, grouped(tokens, cur).1.index), TokenView::Comma),
        next_is(
            tokens,
            skip_whitespace(tokens, skip_whitespace(tokens, grouped(tokens, cur).1.index) + 1),
            TokenView::RightParen,
        ),
    ensures
        value(tokens, cur).0 is Some,
        value(tokens, cur).0.unwrap().v == ExprView::Tuple(
            TupleView { items: seq![grouped(tokens, cur).0.unwrap()] },
        ),
        value(tokens, cur).1.feedback == grouped(tokens, cur).1.feedback,
{
    let open = cur.at(cur.index + 1);
    let inner = cur.at(skip_whitespace(tokens, cur.index + 1));
    let (read, after) = expr(tokens, inner);
    let comma = skip_whitespace(tokens, after.index);
    let close = skip_whitespace(tokens, comma + 1);
    lemma_skip_whitespace_bounds(tokens, cur.index + 1);
    lemma_expr_begins(tokens, inner);
    lemma_expr_progress(tokens, inner);
    lemma_collect_step(tokens, open, Some(TokenView::RightParen), ItemKind::Value, FuncArgsView::empty(), true);
    let (more, still, next) = after_item(
        tokens,
        inner,
        Some(TokenView::RightParen),
        ItemKind::Value,
        FuncArgsView::empty(),
        true,
    );
    assert(!still);
    assert(next == after.at(comma + 1));
    assert(more.pos.items =~= seq![read.unwrap()]);
    lemma_collect_step(tokens, next, Some(TokenView::RightParen), ItemKind::Value, more, still);
}

/// No diagnostic of a header points outside the header: where every token
/// lies within some bounds, so does every problem and every decoration that
/// reading the header and choosing the parser of the function report.
pub proof fn law_header_feedback_within(tokens: Tokens, names: Set<Seq<char>>, bounds: Span)
    requires
        tokens_within(tokens, bounds),
    ensures
        header_feedback(tokens, Cursor::start(), names).within(bounds),
{
    lemma_header_feedback_within(tokens, Cursor::start(), names, bounds);
}

/// No diagnostic and no node of a body points outside the body: where the
/// tokens are sound and lie within some bounds, and the parsers of the
/// functions have reported nothing outside their functions, every node,
/// every problem and every decoration lies within the bounds.
pub proof fn law_body_within<M>(
    tokens: Tokens,
    count: int,
    names: Set<Seq<char>>,
    outcomes: Seq<PassView<M>>,
    bounds: Span,
)
    requires
        0 <= count <= tokens.len(),
        body_within(tokens, bounds),
        outcomes_within(tokens, outcomes),
    ensures
        body(tokens, count, names, outcomes).feedback.within(bounds),
        nodes_within(body(tokens, count, names, outcomes).output, bounds),
    decreases count,
{
    if count > 0 {
        law_body_within(tokens, count - 1, names, outcomes, bounds);
        assert(tokens[count - 1].span.within(bounds) && token_sound(tokens[count - 1]));
        lemma_reduce_within(
            body(tokens, count - 1, names, outcomes),
            tokens[count - 1],
            names,
            outcomes[count - 1],
            bounds,
        );
    }
}

/// Whether a character is markup in a body: a bracket, a backtick, a
/// backslash, a slash, a star or an underscore.
pub open spec fn is_markup(c: char) -> bool {
    c == '[' || c == ']' || c == '`' || c == '\\' || c == '/' || c == '*' || c == '_'
}

/// A text without markup is cut into nothing but whitespace and text.
pub proof fn lemma_plain_tokens(src: Seq<char>, start: Position, index: int)
    requires
        0 <= index <= src.len(),
        forall|i: int| 0 <= i < src.len() ==> !is_markup(#[trigger] src[i]),
    ensures
        forall|i: int|
            0 <= i < tokens_from(src, start, TokenizationMode::Body, index).len() ==> (
            #[trigger] tokens_from(src, start, TokenizationMode::Body, index)[i]).v is Space
                || tokens_from(src, start, TokenizationMode::Body, index)[i].v is Text,
    decreases src.len() - index,
{
    if index < src.len() {
        assert(!is_markup(src[index]));
        lemma_token_at_bounds(src, start, TokenizationMode::Body, index);
        let (token, end) = token_at(src, start, TokenizationMode::Body, index);
        assert(token is Space || token is Text);
        lemma_plain_tokens(src, start, end);
    }
}

/// A text without markup is parsed into exactly its segments of whitespace
/// and text: one node for each run of whitespace and for each word between,
/// in order and with its span; and nothing is reported.
pub proof fn law_plain_text<M>(
    src: Seq<char>,
    start: Position,
    names: Set<Seq<char>>,
    outcomes: Seq<PassView<M>>,
)
    requires
        forall|i: int| 0 <= i < src.len() ==> !is_markup(#[trigger] src[i]),
    ensures
        ({
            let tokens = tokenize(src, start, TokenizationMode::Body);
            let parsed = body(tokens, tokens.len() as int, names, outcomes);
            &&& parsed.feedback == FeedbackView::empty()
            &&& parsed.output == Seq::new(tokens.len(), |i: int| segment::<M>(tokens[i]))
        }),
{
    let tokens = tokenize(src, start, TokenizationMode::Body);
    lemma_plain_tokens(src, start, 0);
    law_plain_body(tokens, tokens.len() as int, names, outcomes);
}

/// No diagnostic of a header points outside the header: every problem and
/// every decoration that reading a header and choosing the parser of its
/// function report lies within the text of the header. Spans are counted
/// from the opening bracket of the function, so the header begins one column
/// behind the start. The header is taken to fit: it is not so long that a
/// line or a column would pass the largest machine integer.
pub proof fn law_header_within(header: Seq<char>, names: Set<Seq<char>>)
    requires
        fits(header, origin()),
    ensures
        header_feedback(header_tokens(header), Cursor::start(), names).within(
            extent(header, origin()),
        ),
{
    lemma_tokens_within(header, origin(), TokenizationMode::Header, 0);
    lemma_pos_at_grows(header, origin(), 0, header.len() as int);
    law_header_feedback_within(header_tokens(header), names, extent(header, origin()));
}

/// No diagnostic and no node points outside the source: every node, every
/// problem and every decoration lies within the text that was parsed,
/// wherever the parsers of the functions have reported nothing outside
/// their functions. The text is taken to fit: it is not so long that a line
/// or a column would pass the largest machine integer.
pub proof fn law_source_within<M>(
    src: Seq<char>,
    start: Position,
    names: Set<Seq<char>>,
    outcomes: Seq<PassView<M>>,
)
    requires
        fits(src, start),
        outcomes_within(tokenize(src, start, TokenizationMode::Body), outcomes),
    ensures
        ({
            let tokens = tokenize(src, start, TokenizationMode::Body);
            let parsed = body(tokens, tokens.len() as int, names, outcomes);
            &&& parsed.feedback.within(extent(src, start))
            &&& nodes_within(parsed.output, extent(src, start))
        }),
{
    let tokens = tokenize(src, start, TokenizationMode::Body);
    lemma_tokenize_sound(src, start, TokenizationMode::Body);
    law_body_within(tokens, tokens.len() as int, names, outcomes, extent(src, start));
}

/// The tokens of a text cover it without gaps: the first begins at the
/// start of the text, each of the others where the one before it ends, and
/// the last ends at the end of the text.
pub proof fn law_tokens_cover(src: Seq<char>, start: Position, mode: TokenizationMode)
    ensures
        covers(tokenize(src, start, mode), extent(src, start)),
{
    lemma_tokens_cover(src, start, mode, 0);
}

/// Raw text has one line more than it has line breaks, where a carriage
/// return directly before a line feed is one line break together with it
/// and every other newline character is one by itself; so it has at least
/// one line. And no line holds a newline character.
pub proof fn law_raw_lines(raw: Seq<char>)
    ensures
        spec_unescape_raw(raw).len() == line_breaks(raw) + 1,
        forall|i: int|
            0 <= i < spec_unescape_raw(raw).len() ==> is_one_line(#[trigger] spec_unescape_raw(raw)[i]),
{
    lemma_raw_lines(raw, Seq::empty());
}

/// Whether a character begins or ends a bracketed function, raw text or an
/// escape: a bracket, a backtick or a backslash.
pub open spec fn is_bracketing(c: char) -> bool {
    c == '[' || c == ']' || c == '`' || c == '\\'
}

/// The end of a block comment that was never opened: the one token that a
/// text without brackets, backticks and backslashes can be reported for.
pub open spec fn stray() -> TokenView {
    TokenView::Invalid(seq!['*', '/'])
}

/// Whether a token is one of those that a text without brackets, backticks
/// and backslashes is cut into: whitespace, text, a style marker, a
/// comment, or the end of a comment that was never opened.
pub open spec fn is_simple(token: TokenView) -> bool {
    token is Space || token is Text || token is Star || token is Underscore || token is LineComment
        || token is BlockComment || token == stray()
}

/// The problem that is reported for the end of a block comment that was
/// never opened.
pub open spec fn stray_problem(span: Span) -> Spanned<Seq<char>> {
    Spanned { v: unexpected_message("end of block comment"@), span }
}

/// The problems of the ends of comments that were never opened among the
/// first `count` tokens: one for each, in order, over the span of its token.
pub open spec fn stray_problems(tokens: Tokens, count: int) -> Seq<Spanned<Seq<char>>>
    decreases count,
{
    if count <= 0 {
        Seq::empty()
    } else if tokens[count - 1].v == stray() {
        stray_problems(tokens, count - 1).push(stray_problem(tokens[count - 1].span))
    } else {
        stray_problems(tokens, count - 1)
    }
}

/// The nodes of the first `count` tokens of which none is a function: one
/// for each token that stands for a node, in order, with the span of its
/// token.
pub open spec fn plain_nodes<M>(tokens: Tokens, count: int) -> Seq<Spanned<NodeView<M>>>
    decreases count,
{
    if count <= 0 {
        Seq::empty()
    } else {
        match plain_node::<M>(tokens[count - 1].v) {
            Some(node) => plain_nodes(tokens, count - 1).push(
                Spanned { v: node, span: tokens[count - 1].span },
            ),
            None => plain_nodes(tokens, count - 1),
        }
    }
}

/// Every problem among the problems of stray comment ends lies over such a
/// token, and there is none where no such token stands.
pub proof fn lemma_stray_problems(tokens: Tokens, count: int)
    requires
        0 <= count <= tokens.len(),
    ensures
        forall|k: int|
            0 <= k < stray_problems(tokens, count).len() ==> exists|i: int|
                0 <= i < count && (#[trigger] tokens[i]).v == stray() && #[trigger] stray_problems(
                    tokens,
                    count,
                )[k] == stray_problem(tokens[i].span),
        (forall|i: int| 0 <= i < count ==> (#[trigger] tokens[i]).v != stray()) ==> stray_problems(
            tokens,
            count,
        ).len() == 0,
    decreases count,
{
    if count > 0 {
        lemma_stray_problems(tokens, count - 1);
        let all = stray_problems(tokens, count);
        let rest = stray_problems(tokens, count - 1);
        assert forall|k: int| 0 <= k < all.len() implies exists|i: int|
            0 <= i < count && (#[trigger] tokens[i]).v == stray() && #[trigger] all[k]
                == stray_problem(tokens[i].span) by {
            if k < rest.len() {
                let i = choose|i: int|
                    0 <= i < count - 1 && (#[trigger] tokens[i]).v == stray() && rest[k]
                        == stray_problem(tokens[i].span);
                assert(tokens[i].v == stray() && all[k] == stray_problem(tokens[i].span));
            } else {
                assert(tokens[count - 1].v == stray() && all[k] == stray_problem(
                    tokens[count - 1].span,
                ));
            }
        }
    }
}

/// A body of nothing but whitespace, text, style markers, comments and
/// comment ends that were never opened: its nodes are those of its tokens,
/// it decorates nothing, and it reports exactly the comment ends that were
/// never opened, each as unexpected and over the span of its token.
pub proof fn law_simple_body<M>(
    tokens: Tokens,
    count: int,
    names: Set<Seq<char>>,
    outcomes: Seq<PassView<M>>,
)
    requires
        0 <= count <= tokens.len(),
        forall|i: int| 0 <= i < count ==> is_simple((#[trigger] tokens[i]).v),
    ensures
        body(tokens, count, names, outcomes).output == plain_nodes::<M>(tokens, count),
        body(tokens, count, names, outcomes).feedback.problems == stray_problems(tokens, count),
        body(tokens, count, names, outcomes).feedback.decos == Seq::<Spanned<Decoration>>::empty(),
    decreases count,
{
    if count > 0 {
        law_simple_body(tokens, count - 1, names, outcomes);
        assert(is_simple(tokens[count - 1].v));
    }
}

/// A text without brackets, backticks and backslashes is cut into nothing
/// but whitespace, text, style markers, comments and comment ends that were
/// never opened.
pub proof fn lemma_simple_tokens(src: Seq<char>, start: Position, index: int)
    requires
        0 <= index <= src.len(),
        forall|i: int| 0 <= i < src.len() ==> !is_bracketing(#[trigger] src[i]),
    ensures
        forall|i: int|
            0 <= i < tokens_from(src, start, TokenizationMode::Body, index).len() ==> is_simple(
                (#[trigger] tokens_from(src, start, TokenizationMode::Body, index)[i]).v,
            ),
    decreases src.len() - index,
{
    if index < src.len() {
        assert(!is_bracketing(src[index]));
        lemma_token_at_bounds(src, start, TokenizationMode::Body, index);
        let (token, end) = token_at(src, start, TokenizationMode::Body, index);
        assert(is_simple(token));
        lemma_simple_tokens(src, start, end);
        let rest = tokens_from(src, start, TokenizationMode::Body, end);
        let all = tokens_from(src, start, TokenizationMode::Body, index);
        assert forall|i: int| 0 <= i < all.len() implies is_simple((#[trigger] all[i]).v) by {
            if i > 0 {
                assert(all[i] == rest[i - 1]);
            }
        }
    }
}

/// A text without bracketed functions, raw text and escapes, that is
/// without brackets, backticks and backslashes, reports nothing but ends
/// of block comments that were never opened: every problem is an
/// unexpected end of a block comment over the span of a `*/` token, there is
/// one for each such token, and none where no such token stands. Nothing
/// is decorated, and the nodes are those of the tokens.
pub proof fn law_unbracketed_text<M>(
    src: Seq<char>,
    start: Position,
    names: Set<Seq<char>>,
    outcomes: Seq<PassView<M>>,
)
    requires
        forall|i: int| 0 <= i < src.len() ==> !is_bracketing(#[trigger] src[i]),
    ensures
        ({
            let tokens = tokenize(src, start, TokenizationMode::Body);
            let parsed = body(tokens, tokens.len() as int, names, outcomes);
            &&& parsed.output == plain_nodes::<M>(tokens, tokens.len() as int)
            &&& parsed.feedback.decos == Seq::<Spanned<Decoration>>::empty()
            &&& parsed.feedback.problems == stray_problems(tokens, tokens.len() as int)
            &&& forall|k: int|
                0 <= k < parsed.feedback.problems.len() ==> exists|i: int|
                    0 <= i < tokens.len() && (#[trigger] tokens[i]).v == stray()
                        && #[trigger] parsed.feedback.problems[k] == stray_problem(tokens[i].span)
            &&& (forall|i: int| 0 <= i < tokens.len() ==> (#[trigger] tokens[i]).v != stray())
                ==> parsed.feedback.problems.len() == 0
        }),
{
    let tokens = tokenize(src, start, TokenizationMode::Body);
    lemma_simple_tokens(src, start, 0);
    law_simple_body(tokens, tokens.len() as int, names, outcomes);
    lemma_stray_problems(tokens, tokens.len() as int);
}

} // verus!
