//! Diagnostics and decorations that a parse collects.

use crate::span::{Position, Span, Spanned};
use vstd::prelude::*;

verus! {

/// A hint for semantic highlighting. Decorations are advisory: no parsing
/// decision depends on them.
#[derive(Clone, Copy, Debug, PartialEq, Eq, Hash, Structural)]
pub enum Decoration {
    /// The name of a function that the scope knows.
    ValidFuncName,
    /// The name of a function that the scope does not know.
    InvalidFuncName,
    /// The key of a keyword argument.
    ArgumentKey,
    /// The key of a pair in an object.
    ObjectKey,
}

/// What a parse reports beside its output: problems in source order of their
/// detection, and decorations.
#[derive(Debug, PartialEq)]
pub struct Feedback {
    /// The messages of the problems found, each with the span it is about.
    pub problems: Vec<Spanned<String>>,
    /// The decorations, each with the span it applies to.
    pub decos: Vec<Spanned<Decoration>>,
}

/// The mathematical value of a [`Feedback`].
pub struct FeedbackView {
    pub problems: Seq<Spanned<Seq<char>>>,
    pub decos: Seq<Spanned<Decoration>>,
}

impl FeedbackView {
    /// The feedback that reports nothing.
    pub open spec fn empty() -> FeedbackView {
        FeedbackView { problems: Seq::empty(), decos: Seq::empty() }
    }

    /// The feedback with one more problem at its end.
    pub open spec fn error(self, span: Span, message: Seq<char>) -> FeedbackView {
        FeedbackView { problems: self.problems.push(Spanned { v: message, span }), ..self }
    }

    /// The feedback with one more decoration at its end.
    pub open spec fn decorate(self, span: Span, deco: Decoration) -> FeedbackView {
        FeedbackView { decos: self.decos.push(Spanned { v: deco, span }), ..self }
    }

    /// The feedback with everything of `more` behind it.
    pub open spec fn extend(self, more: FeedbackView) -> FeedbackView {
        FeedbackView {
            problems: self.problems + more.problems,
            decos: self.decos + more.decos,
        }
    }

    /// The feedback with every span offset by `start`.
    pub open spec fn offset(self, start: Position) -> FeedbackView {
        FeedbackView {
            problems: Seq::new(
                self.problems.len(),
                |i: int|
                    Spanned { v: self.problems[i].v, span: self.problems[i].span.spec_offset(start) },
            ),
            decos: Seq::new(
                self.decos.len(),
                |i: int|
                    Spanned { v: self.decos[i].v, span: self.decos[i].span.spec_offset(start) },
            ),
        }
    }

    /// Whether the span of every problem and of every decoration lies within
    /// `bounds`.
    pub open spec fn within(self, bounds: Span) -> bool {
        &&& forall|i: int|
            0 <= i < self.problems.len() ==> (#[trigger] self.problems[i]).span.within(bounds)
        &&& forall|i: int| 0 <= i < self.decos.len() ==> (#[trigger] self.decos[i]).span.within(bounds)
    }
}

impl View for Feedback {
    type V = FeedbackView;

    open spec fn view(&self) -> FeedbackView {
        FeedbackView {
            problems: Seq::new(self.problems@.len(), |i: int| self.problems@[i]@),
            decos: self.decos@,
        }
    }
}

impl Feedback {
    /// Create feedback that reports nothing.
    pub fn new() -> (feedback: Feedback)
        ensures
            feedback@ == FeedbackView::empty(),
    {
        let feedback = Feedback { problems: Vec::new(), decos: Vec::new() };
        assert(feedback@.problems =~= Seq::empty());
        feedback
    }

    /// Report a problem about a span.
    pub fn error(&mut self, span: Span, message: String)
        ensures
            final(self)@ == old(self)@.error(span, message@),
    {
        self.problems.push(Spanned::new(message, span));
        assert(self@.problems =~= old(self)@.problems.push(Spanned { v: message@, span }));
    }

    /// Attach a decoration to a span.
    pub fn decorate(&mut self, span: Span, deco: Decoration)
        ensures
            final(self)@ == old(self)@.decorate(span, deco),
    {
        self.decos.push(Spanned::new(deco, span));
        assert(self@.problems =~= old(self)@.problems);
    }

    /// Take over everything that `more` reports, behind what is already
    /// there.
    pub fn extend(&mut self, more: Feedback)
        ensures
            final(self)@ == old(self)@.extend(more@),
    {
        let mut rest = more;
        self.problems.append(&mut rest.problems);
        self.decos.append(&mut rest.decos);
        assert(self@.problems =~= old(self)@.problems + more@.problems);
    }

    /// Take over everything that `more` reports about a text that begins at
    /// `start`, with every span offset to where it lies in the document.
    pub fn extend_offset(&mut self, start: Position, more: Feedback)
        ensures
            final(self)@ == old(self)@.extend(more@.offset(start)),
    {
        let mut i: usize = 0;
        while i < more.problems.len()
            invariant
                i <= more.problems.len(),
                self.decos == old(self).decos,
                self@.problems == old(self)@.problems + more@.offset(start).problems.take(i as int),
            decreases more.problems.len() - i,
        {
            let problem = &more.problems[i];
            let ghost before = self@.problems;
            self.problems.push(Spanned::new(problem.v.clone(), problem.span.offset(start)));
            assert(self@.problems =~= before.push(more@.offset(start).problems[i as int]));
            assert(more@.offset(start).problems.take(i + 1) =~= more@.offset(start).problems.take(
                i as int,
            ).push(more@.offset(start).problems[i as int]));
            i += 1;
        }
        assert(more@.offset(start).problems.take(i as int) =~= more@.offset(start).problems);
        let mut j: usize = 0;
        while j < more.decos.len()
            invariant
                j <= more.decos.len(),
                self@.problems == old(self)@.problems + more@.offset(start).problems,
                self@.decos == old(self)@.decos + more@.offset(start).decos.take(j as int),
            decreases more.decos.len() - j,
        {
            let deco = &more.decos[j];
            self.decos.push(Spanned::new(deco.v, deco.span.offset(start)));
            assert(more@.offset(start).decos.take(j + 1) =~= more@.offset(start).decos.take(
                j as int,
            ).push(more@.offset(start).decos[j as int]));
            j += 1;
        }
        assert(more@.offset(start).decos.take(j as int) =~= more@.offset(start).decos);
    }
}

/// The result of a parse: its output together with its feedback.
#[derive(Debug, PartialEq)]
pub struct Pass<T> {
    /// What the parse produced.
    pub output: T,
    /// What the parse reports.
    pub feedback: Feedback,
}

impl<T> Pass<T> {
    /// Put an output and its feedback together.
    pub fn new(output: T, feedback: Feedback) -> (pass: Pass<T>)
        ensures
            pass.output == output,
            pass.feedback == feedback,
    {
        Pass { output, feedback }
    }
}

} // verus!
