//! The tokens of a text lie within the text.
//!
//! Positions count lines and columns in machine integers. All that is
//! proved here is proved of texts that fit: texts that are short enough for
//! no line and no column to reach the largest integer.

use crate::body::header_tokens;
use crate::bounds::{body_within, token_sound};
use crate::escaping::spec_is_newline_char;
use crate::grammar::origin;
use crate::lexing::{
    behind, comment_end, find, function_at, function_end, lemma_comment_end_bounds,
    lemma_find_bounds, lemma_function_end_bounds, lemma_part_end_bounds, lemma_token_at_bounds,
    lemma_unescaped_end_bounds, part_end, pos_at, token_at, tokenize, tokens_from, unescaped_end,
    Last, Stop, TokenizationMode,
};
use crate::span::{Position, Span, Spanned};
use crate::tokens::TokenView;
use vstd::prelude::*;

verus! {

/// Whether a text that begins at `start` fits: no line and no column of it
/// reaches the largest machine integer.
pub open spec fn fits(src: Seq<char>, start: Position) -> bool {
    start.line + src.len() <= usize::MAX && start.column + src.len() <= usize::MAX
}

/// The span of a text that begins at `start`.
pub open spec fn extent(src: Seq<char>, start: Position) -> Span {
    Span { start, end: pos_at(src, start, src.len() as int) }
}

/// Whether the character at an index ends a line.
pub open spec fn ends_line(src: Seq<char>, index: int) -> bool {
    spec_is_newline_char(src[index]) && !(src[index] == '\r' && index + 1 < src.len() && src[index
        + 1] == '\n')
}

/// In a text that fits, a position lies at most as many lines and columns
/// behind the start as there are characters before it, and not before the
/// start.
pub proof fn lemma_pos_at_fits(src: Seq<char>, start: Position, index: int)
    requires
        fits(src, start),
        0 <= index <= src.len(),
    ensures
        start.line <= pos_at(src, start, index).line <= start.line + index,
        pos_at(src, start, index).column <= start.column + index,
        start.spec_le(pos_at(src, start, index)),
    decreases index,
{
    if index > 0 {
        lemma_pos_at_fits(src, start, index - 1);
    }
}

/// In a text that fits, the position behind a character is one line
/// further down where the character ends a line, and one column further
/// right where it does not.
pub proof fn lemma_pos_at_next(src: Seq<char>, start: Position, index: int)
    requires
        fits(src, start),
        0 <= index < src.len(),
    ensures
        pos_at(src, start, index + 1) == if ends_line(src, index) {
            Position { line: (pos_at(src, start, index).line + 1) as usize, column: 0 }
        } else {
            Position {
                line: pos_at(src, start, index).line,
                column: (pos_at(src, start, index).column + 1) as usize,
            }
        },
        pos_at(src, start, index).spec_le(pos_at(src, start, index + 1)),
        pos_at(src, start, index) != pos_at(src, start, index + 1),
{
    lemma_pos_at_fits(src, start, index);
}

/// In a text that fits, positions grow with the index.
pub proof fn lemma_pos_at_grows(src: Seq<char>, start: Position, from: int, to: int)
    requires
        fits(src, start),
        0 <= from <= to <= src.len(),
    ensures
        pos_at(src, start, from).spec_le(pos_at(src, start, to)),
    decreases to - from,
{
    if from < to {
        lemma_pos_at_grows(src, start, from, to - 1);
        lemma_pos_at_next(src, start, to - 1);
    }
}

/// A part of a function that is closed ends at a closing bracket.
pub proof fn lemma_part_end_closes(src: Seq<char>, from: int)
    requires
        0 <= from <= src.len(),
    ensures
        part_end(src, from) < src.len() ==> src[part_end(src, from)] == ']',
    decreases src.len() - from,
{
    if from < src.len() {
        let c = src[from];
        let next = from + 1;
        if c == ']' {
        } else if c == '[' {
            lemma_function_end_bounds(src, next);
            lemma_part_end_closes(src, function_end(src, next));
        } else if c == '/' && next < src.len() && src[next] == '/' {
            lemma_find_bounds(src, next, Stop::Newline);
            lemma_part_end_closes(src, find(src, next, Stop::Newline));
        } else if c == '/' && next < src.len() && src[next] == '*' {
            lemma_comment_end_bounds(src, next + 1, 0, Last::Other);
            lemma_part_end_closes(src, behind(src, comment_end(src, next + 1, 0, Last::Other)));
        } else if c == '"' || c == '`' {
            lemma_unescaped_end_bounds(src, next, c, false);
            lemma_part_end_closes(src, behind(src, unescaped_end(src, next, c, false)));
        } else if c == '\\' {
            lemma_part_end_closes(src, behind(src, next));
        } else {
            lemma_part_end_closes(src, next);
        }
    }
}

/// The positions within a part of a text, counted from a character before
/// the part, are those of the part by itself: where the part is cut as a
/// text of its own that begins one column behind the start, its positions
/// are the positions of the text counted from the character before the
/// part. The character before the part ends no line, and the part does not
/// end between a carriage return and its line feed.
pub proof fn lemma_part_positions(
    src: Seq<char>,
    start: Position,
    before: int,
    end: int,
    index: int,
)
    requires
        fits(src, start),
        0 <= before < end <= src.len(),
        !spec_is_newline_char(src[before]),
        end < src.len() ==> src[end] != '\n',
        0 <= index <= end - before - 1,
    ensures
        pos_at(src.subrange(before + 1, end), origin(), index) == pos_at(
            src,
            start,
            before + 1 + index,
        ).spec_relative(pos_at(src, start, before)),
    decreases index,
{
    let part = src.subrange(before + 1, end);
    let base = pos_at(src, start, before);
    lemma_pos_at_next(src, start, before);
    lemma_pos_at_fits(src, start, before);
    if index > 0 {
        lemma_part_positions(src, start, before, end, index - 1);
        let at = before + index;
        lemma_pos_at_next(src, start, at);
        lemma_pos_at_grows(src, start, before + 1, at);
        lemma_pos_at_fits(src, start, at);
        assert(part[index - 1] == src[at]);
        if index < part.len() {
            assert(part[index] == src[at + 1]);
        }
        assert(ends_line(part, index - 1) == ends_line(src, at));
    }
}

/// In a text that fits, counting from an earlier position keeps the order
/// of later ones.
pub proof fn lemma_relative_grows(first: Position, second: Position, base: Position)
    requires
        base.spec_le(first),
        first.spec_le(second),
    ensures
        first.spec_relative(base).spec_le(second.spec_relative(base)),
{
}

/// The header of a function lies within the function: cut as a text of
/// its own, each of its tokens lies within the span of the function, counted
/// from the opening bracket.
pub proof fn lemma_function_sound(src: Seq<char>, start: Position, index: int)
    requires
        fits(src, start),
        0 <= index < src.len(),
        src[index] == '[',
    ensures
        token_sound(
            Spanned {
                v: function_at(src, start, index).0,
                span: Span {
                    start: pos_at(src, start, index),
                    end: pos_at(src, start, function_at(src, start, index).1),
                },
            },
        ),
    decreases src.len(), 0int,
{
    let header_end = part_end(src, index + 1);
    lemma_part_end_bounds(src, index + 1);
    lemma_part_end_closes(src, index + 1);
    let header = src.subrange(index + 1, header_end);
    let end = function_at(src, start, index).1;
    let body = behind(src, header_end);
    if body < src.len() {
        lemma_part_end_bounds(src, body + 1);
    }
    let base = pos_at(src, start, index);
    let local = Span { start: base, end: pos_at(src, start, end) }.local();
    lemma_pos_at_grows(src, start, index, end);
    lemma_pos_at_grows(src, start, index, index + 1);
    lemma_pos_at_grows(src, start, index + 1, header_end);
    lemma_pos_at_grows(src, start, header_end, end);
    lemma_pos_at_next(src, start, index);
    lemma_part_positions(src, start, index, header_end, 0);
    lemma_part_positions(src, start, index, header_end, header.len() as int);
    lemma_relative_grows(pos_at(src, start, index + 1), pos_at(src, start, header_end), base);
    lemma_relative_grows(pos_at(src, start, header_end), pos_at(src, start, end), base);
    let tokens = header_tokens(header);
    lemma_tokens_within(header, origin(), TokenizationMode::Header, 0);
    assert forall|i: int| 0 <= i < tokens.len() implies (#[trigger] tokens[i]).span.within(
        local,
    ) by {
        assert(tokens[i].span.within(extent(header, origin())));
    }
}

/// In a text that fits, every token lies within the text and is sound.
pub proof fn lemma_tokens_within(
    src: Seq<char>,
    start: Position,
    mode: TokenizationMode,
    index: int,
)
    requires
        fits(src, start),
        0 <= index <= src.len(),
    ensures
        forall|i: int|
            0 <= i < tokens_from(src, start, mode, index).len() ==> (#[trigger] tokens_from(
                src,
                start,
                mode,
                index,
            )[i]).span.within(extent(src, start)) && token_sound(
                tokens_from(src, start, mode, index)[i],
            ),
    decreases src.len(), src.len() - index + 1,
{
    if index < src.len() {
        lemma_token_at_bounds(src, start, mode, index);
        let (token, end) = token_at(src, start, mode, index);
        let first = Spanned {
            v: token,
            span: Span { start: pos_at(src, start, index), end: pos_at(src, start, end) },
        };
        lemma_pos_at_grows(src, start, 0, index);
        lemma_pos_at_grows(src, start, index, end);
        lemma_pos_at_grows(src, start, end, src.len() as int);
        lemma_pos_at_grows(src, start, 0, end);
        lemma_pos_at_grows(src, start, index, src.len() as int);
        if src[index] == '[' && token is Function {
            lemma_function_sound(src, start, index);
        }
        assert(token_sound(first));
        lemma_tokens_within(src, start, mode, end);
        let rest = tokens_from(src, start, mode, end);
        let all = tokens_from(src, start, mode, index);
        assert forall|i: int| 0 <= i < all.len() implies (#[trigger] all[i]).span.within(
            extent(src, start),
        ) && token_sound(all[i]) by {
            if i > 0 {
                assert(all[i] == rest[i - 1]);
            }
        }
    }
}

/// The tokens of a text that fits are sound and lie within the text.
pub proof fn lemma_tokenize_sound(src: Seq<char>, start: Position, mode: TokenizationMode)
    requires
        fits(src, start),
    ensures
        body_within(tokenize(src, start, mode), extent(src, start)),
{
    lemma_tokens_within(src, start, mode, 0);
}

/// Whether tokens cover a span without gaps: the first begins where the
/// span begins, each of the others where the one before it ends, and the
/// last ends where the span ends. No tokens cover the empty span.
pub open spec fn covers(tokens: Seq<Spanned<TokenView>>, span: Span) -> bool {
    &&& tokens.len() == 0 ==> span.start == span.end
    &&& tokens.len() > 0 ==> tokens[0].span.start == span.start && tokens.last().span.end
        == span.end
    &&& forall|i: int|
        0 < i < tokens.len() ==> (#[trigger] tokens[i]).span.start == tokens[i - 1].span.end
}

/// The tokens of a text from an index on cover the text from there on.
pub proof fn lemma_tokens_cover(src: Seq<char>, start: Position, mode: TokenizationMode, index: int)
    requires
        0 <= index <= src.len(),
    ensures
        covers(
            tokens_from(src, start, mode, index),
            Span { start: pos_at(src, start, index), end: pos_at(src, start, src.len() as int) },
        ),
    decreases src.len() - index,
{
    if index < src.len() {
        lemma_token_at_bounds(src, start, mode, index);
        let end = token_at(src, start, mode, index).1;
        lemma_tokens_cover(src, start, mode, end);
        let rest = tokens_from(src, start, mode, end);
        let all = tokens_from(src, start, mode, index);
        assert forall|i: int| 0 < i < all.len() implies (#[trigger] all[i]).span.start == all[i
            - 1].span.end by {
            assert(all[i] == rest[i - 1]);
            if i > 1 {
                assert(all[i - 1] == rest[i - 2]);
            }
        }
        if rest.len() > 0 {
            assert(all.last() == rest.last());
        }
    }
}

} // verus!
