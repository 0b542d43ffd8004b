//! Source positions, spans, and values annotated with spans.

use vstd::prelude::*;

verus! {

/// A location in source text: a zero-based line and a zero-based column,
/// counted in characters. Positions are ordered by line first, then by column.
#[derive(Clone, Copy, Debug, PartialEq, Eq, Hash, Structural)]
pub struct Position {
    /// The zero-based line.
    pub line: usize,
    /// The zero-based column within the line.
    pub column: usize,
}

/// The sum of two machine integers, held at the largest one where the exact sum
/// does not fit.
pub open spec fn saturating_sum(a: usize, b: usize) -> usize {
    if a + b > usize::MAX {
        usize::MAX
    } else {
        (a + b) as usize
    }
}

/// The difference of two machine integers, held at zero where the second is
/// the larger one.
pub open spec fn saturating_difference(a: usize, b: usize) -> usize {
    if a < b {
        0
    } else {
        (a - b) as usize
    }
}

impl Position {
    /// The position of the first character of a text.
    pub open spec fn spec_zero() -> Position {
        Position { line: 0, column: 0 }
    }

    /// Whether `self` lies at or before `other`.
    pub open spec fn spec_le(self, other: Position) -> bool {
        self.line < other.line || (self.line == other.line && self.column <= other.column)
    }

    /// The earlier of two positions.
    pub open spec fn spec_min(self, other: Position) -> Position {
        if self.spec_le(other) {
            self
        } else {
            other
        }
    }

    /// The later of two positions.
    pub open spec fn spec_max(self, other: Position) -> Position {
        if self.spec_le(other) {
            other
        } else {
            self
        }
    }

    /// The position that lies `self` behind `start`, where `self` is counted
    /// from the beginning of a text that begins at `start`: a position on the
    /// first line of that text moves right by the column of `start`, one on a
    /// later line keeps its column and moves down by the line of `start`.
    pub open spec fn spec_offset(self, start: Position) -> Position {
        if self.line == 0 {
            Position { line: start.line, column: saturating_sum(start.column, self.column) }
        } else {
            Position { line: saturating_sum(start.line, self.line), column: self.column }
        }
    }

    /// Where `self` lies counted from `start`: on the line of `start` the
    /// columns between them, on a later line the lines between them and the
    /// column as it is. Where `start` does not lie behind `self`, offset by
    /// `start` it is `self` again. Lines and columns stop at zero.
    pub open spec fn spec_relative(self, start: Position) -> Position {
        if self.line == start.line {
            Position { line: 0, column: saturating_difference(self.column, start.column) }
        } else {
            Position { line: saturating_difference(self.line, start.line), column: self.column }
        }
    }

    /// Create a position from a line and a column.
    pub fn new(line: usize, column: usize) -> (pos: Position)
        ensures
            pos == (Position { line, column }),
    {
        Position { line, column }
    }

    /// The position of the first character of a text.
    #[verifier::when_used_as_spec(spec_zero)]
    pub fn zero() -> (pos: Position)
        ensures
            pos == Position::spec_zero(),
    {
        Position { line: 0, column: 0 }
    }

    /// Whether `self` lies at or before `other`.
    #[verifier::when_used_as_spec(spec_le)]
    pub fn le(self, other: Position) -> (b: bool)
        ensures
            b == self.spec_le(other),
    {
        self.line < other.line || (self.line == other.line && self.column <= other.column)
    }

    /// The earlier of two positions.
    #[verifier::when_used_as_spec(spec_min)]
    pub fn min(self, other: Position) -> (pos: Position)
        ensures
            pos == self.spec_min(other),
    {
        if self.le(other) {
            self
        } else {
            other
        }
    }

    /// The later of two positions.
    #[verifier::when_used_as_spec(spec_max)]
    pub fn max(self, other: Position) -> (pos: Position)
        ensures
            pos == self.spec_max(other),
    {
        if self.le(other) {
            other
        } else {
            self
        }
    }

    /// Where `self` lies counted from `start`. Where `start` does not lie
    /// behind `self`, offset by `start` it is `self` again.
    #[verifier::when_used_as_spec(spec_relative)]
    pub fn relative(self, start: Position) -> (pos: Position)
        ensures
            pos == self.spec_relative(start),
            start.spec_le(self) ==> pos.spec_offset(start) == self,
    {
        if self.line == start.line {
            Position { line: 0, column: self.column.saturating_sub(start.column) }
        } else {
            Position { line: self.line.saturating_sub(start.line), column: self.column }
        }
    }

    /// Where a position counted from the beginning of a text lies in the
    /// document in which that text begins at `start`. Lines and columns stop
    /// at the largest machine integer.
    #[verifier::when_used_as_spec(spec_offset)]
    pub fn offset(self, start: Position) -> (pos: Position)
        ensures
            pos == self.spec_offset(start),
    {
        if self.line == 0 {
            Position { line: start.line, column: start.column.saturating_add(self.column) }
        } else {
            Position { line: start.line.saturating_add(self.line), column: self.column }
        }
    }
}

/// A half-open range of source text between two positions.
#[derive(Clone, Copy, Debug, PartialEq, Eq, Hash, Structural)]
pub struct Span {
    /// The position of the first character.
    pub start: Position,
    /// The position behind the last character.
    pub end: Position,
}

impl Span {
    /// The empty span at the beginning of a text.
    pub open spec fn spec_zero() -> Span {
        Span { start: Position::spec_zero(), end: Position::spec_zero() }
    }

    /// The empty span at a position.
    pub open spec fn spec_at(pos: Position) -> Span {
        Span { start: pos, end: pos }
    }

    /// The smallest span that contains both spans.
    pub open spec fn spec_merge(a: Span, b: Span) -> Span {
        Span { start: a.start.spec_min(b.start), end: a.end.spec_max(b.end) }
    }

    /// The span of a text counted from its own beginning: from the first
    /// position to where its end lies counted from its start.
    pub open spec fn local(self) -> Span {
        Span { start: Position::spec_zero(), end: self.end.spec_relative(self.start) }
    }

    /// The span with both ends offset by `start`.
    pub open spec fn spec_offset(self, start: Position) -> Span {
        Span { start: self.start.spec_offset(start), end: self.end.spec_offset(start) }
    }

    /// Whether a position lies between the two ends of the span, the ends
    /// included.
    pub open spec fn holds(self, pos: Position) -> bool {
        self.start.spec_le(pos) && pos.spec_le(self.end)
    }

    /// Whether both ends of `self` lie between the two ends of `outer`.
    pub open spec fn within(self, outer: Span) -> bool {
        outer.holds(self.start) && outer.holds(self.end)
    }

    /// Create a span from its two ends.
    pub fn new(start: Position, end: Position) -> (span: Span)
        ensures
            span == (Span { start, end }),
    {
        Span { start, end }
    }

    /// The empty span at the beginning of a text.
    #[verifier::when_used_as_spec(spec_zero)]
    pub fn zero() -> (span: Span)
        ensures
            span == Span::spec_zero(),
    {
        Span { start: Position::zero(), end: Position::zero() }
    }

    /// The empty span at a position, as point diagnostics carry it.
    #[verifier::when_used_as_spec(spec_at)]
    pub fn at(pos: Position) -> (span: Span)
        ensures
            span == Span::spec_at(pos),
    {
        Span { start: pos, end: pos }
    }

    /// The smallest span that contains both spans.
    #[verifier::when_used_as_spec(spec_merge)]
    pub fn merge(a: Span, b: Span) -> (span: Span)
        ensures
            span == Span::spec_merge(a, b),
    {
        Span { start: a.start.min(b.start), end: a.end.max(b.end) }
    }

    /// Where a span counted from the beginning of a text lies in the
    /// document in which that text begins at `start`.
    #[verifier::when_used_as_spec(spec_offset)]
    pub fn offset(self, start: Position) -> (span: Span)
        ensures
            span == self.spec_offset(start),
    {
        Span { start: self.start.offset(start), end: self.end.offset(start) }
    }
}

/// A value together with the span of source text it was read from.
#[derive(Debug, PartialEq, Eq, Hash)]
pub struct Spanned<T> {
    /// The value.
    pub v: T,
    /// The span of the value in its source.
    pub span: Span,
}

impl<T> Spanned<T> {
    /// Annotate a value with a span.
    pub fn new(v: T, span: Span) -> (spanned: Spanned<T>)
        ensures
            spanned == (Spanned { v, span }),
    {
        Spanned { v, span }
    }

    /// Annotate a value with the empty span at the beginning of a text.
    pub fn zero(v: T) -> (spanned: Spanned<T>)
        ensures
            spanned == (Spanned { v, span: Span::spec_zero() }),
    {
        Spanned { v, span: Span::zero() }
    }

    /// Give up the span and keep the value.
    pub fn value(self) -> (v: T)
        ensures
            v == self.v,
    {
        self.v
    }
}

impl<T: Clone> Clone for Spanned<T> {
    fn clone(&self) -> (copy: Self)
        ensures
            copy.span == self.span,
            vstd::pervasive::cloned(self.v, copy.v),
    {
        Spanned { v: self.v.clone(), span: self.span }
    }
}

impl<T: Copy> Copy for Spanned<T> {

}

impl<T: View> View for Spanned<T> {
    type V = Spanned<T::V>;

    open spec fn view(&self) -> Spanned<T::V> {
        Spanned { v: self.v@, span: self.span }
    }
}

/// The view of what may be absent.
pub open spec fn option_view<T: View>(value: Option<T>) -> Option<T::V> {
    match value {
        Some(inner) => Some(inner@),
        None => None,
    }
}

/// The view of what may have failed.
pub open spec fn result_view<T: View, E: View>(value: Result<T, E>) -> Result<T::V, E::V> {
    match value {
        Ok(inner) => Ok(inner@),
        Err(error) => Err(error@),
    }
}

} // verus!
