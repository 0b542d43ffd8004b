//! What the tokens of a body stand for, as mathematical functions.
//!
//! A body is read token by token. Whitespace, text, style markers and raw
//! blocks become nodes; comments are dropped; a function becomes the model
//! that the parser of its name makes of it; anything else is reported and
//! dropped.

use crate::escaping::spec_unescape_raw;
use crate::feedback::{Decoration, FeedbackView, Pass};
use crate::func::{FuncArgsView, FuncHeaderView};
use crate::grammar::{func_header, origin, unexpected_message, Cursor, Tokens};
use crate::lexing::{tokenize, TokenizationMode};
use crate::model::NodeView;
use crate::span::{Span, Spanned};
use crate::tokens::TokenView;
use vstd::prelude::*;

verus! {

/// An output together with its feedback: the mathematical value of a
/// [`Pass`], with the output as it is.
pub struct PassView<T> {
    pub output: T,
    pub feedback: FeedbackView,
}

impl<T> View for Pass<T> {
    type V = PassView<T>;

    open spec fn view(&self) -> PassView<T> {
        PassView { output: self.output, feedback: self.feedback@ }
    }
}

/// The header that is handed to the parser of a function where the tokens
/// hold none: no name at the beginning of the text, and no arguments.
pub open spec fn default_header() -> FuncHeaderView {
    FuncHeaderView {
        name: Spanned { v: Seq::empty(), span: Span::spec_zero() },
        args: FuncArgsView::empty(),
    }
}

/// The header that is handed to the parser of a function: the one that
/// was read, or the default.
pub open spec fn handed_header(read: Option<FuncHeaderView>) -> FuncHeaderView {
    match read {
        Some(header) => header,
        None => default_header(),
    }
}

/// Whether the parser of a function is one that the scope knows for its
/// name. A function without a header, or with a name that the scope does
/// not know, goes to the fallback parser.
pub open spec fn is_known(read: Option<FuncHeaderView>, names: Set<Seq<char>>) -> bool {
    match read {
        Some(header) => names.contains(header.name.v),
        None => false,
    }
}

/// The feedback after the parser of a function has been chosen: the name of
/// a header is decorated, as valid where the scope knows it, as invalid where
/// it does not, and then it is reported as an unknown function too.
pub open spec fn resolved(
    feedback: FeedbackView,
    read: Option<FuncHeaderView>,
    names: Set<Seq<char>>,
) -> FeedbackView {
    match read {
        Some(header) => if names.contains(header.name.v) {
            feedback.decorate(header.name.span, Decoration::ValidFuncName)
        } else {
            feedback.error(header.name.span, "unknown function"@).decorate(
                header.name.span,
                Decoration::InvalidFuncName,
            )
        },
        None => feedback,
    }
}

/// What a function reports before its parser is called: what reading the
/// header from the cursor reports, and what choosing the parser adds.
pub open spec fn header_feedback(header: Tokens, cur: Cursor, names: Set<Seq<char>>) -> FeedbackView {
    resolved(func_header(header, cur).1.feedback, func_header(header, cur).0, names)
}

/// The tokens of the header of a function: the header is cut as a text that
/// begins behind the opening bracket of the function.
pub open spec fn header_tokens(header: Seq<char>) -> Tokens {
    tokenize(header, origin(), TokenizationMode::Header)
}

/// What a function stands for, given what its parser made of it: a model
/// node of that output, and the feedback of the header followed by that
/// of the parser.
pub open spec fn function<M>(
    header: Tokens,
    cur: Cursor,
    names: Set<Seq<char>>,
    outcome: PassView<M>,
) -> PassView<NodeView<M>> {
    PassView {
        output: NodeView::Model(outcome.output),
        feedback: header_feedback(header, cur, names).extend(outcome.feedback),
    }
}

/// The node that a token other than a function stands for, if it stands for
/// one. Whitespace with two or more line endings breaks the paragraph.
pub open spec fn plain_node<M>(token: TokenView) -> Option<NodeView<M>> {
    match token {
        TokenView::Space(newlines) => if newlines >= 2 {
            Some(NodeView::Parbreak)
        } else {
            Some(NodeView::Space)
        },
        TokenView::Star => Some(NodeView::ToggleBolder),
        TokenView::Underscore => Some(NodeView::ToggleItalic),
        TokenView::Backslash => Some(NodeView::Linebreak),
        TokenView::Raw { raw, terminated } => Some(NodeView::Raw(spec_unescape_raw(raw))),
        TokenView::Text(text) => Some(NodeView::Text(text)),
        _ => None,
    }
}

/// What a token other than a function adds to the feedback: a raw block
/// without its closing backtick expects one at its end; a token that stands
/// for no node and is no comment is unexpected.
pub open spec fn plain_feedback(feedback: FeedbackView, token: Spanned<TokenView>) -> FeedbackView {
    match token.v {
        TokenView::Raw { raw, terminated } => if terminated {
            feedback
        } else {
            feedback.error(Span::spec_at(token.span.end), "expected backtick"@)
        },
        TokenView::Space(_) | TokenView::Star | TokenView::Underscore | TokenView::Backslash
        | TokenView::Text(_) | TokenView::LineComment(_) | TokenView::BlockComment(_) => feedback,
        _ => feedback.error(token.span, unexpected_message(token.v.name())),
    }
}

/// What a function adds to the feedback of a body: the feedback of the
/// function, shifted by the place of the opening bracket of the function into the
/// coordinates of the body; and where the last bracket was not closed, a
/// closing bracket expected at the end of the function.
pub open spec fn function_feedback(
    feedback: FeedbackView,
    span: Span,
    terminated: bool,
    parsed: FeedbackView,
) -> FeedbackView {
    let merged = feedback.extend(parsed.offset(span.start));
    if terminated {
        merged
    } else {
        merged.error(Span::spec_at(span.end), "expected closing bracket"@)
    }
}

/// A body after one more token. `outcome` is what the parser of the
/// function made of the token, where the token is a function.
pub open spec fn reduce<M>(
    state: PassView<Seq<Spanned<NodeView<M>>>>,
    token: Spanned<TokenView>,
    names: Set<Seq<char>>,
    outcome: PassView<M>,
) -> PassView<Seq<Spanned<NodeView<M>>>> {
    match token.v {
        TokenView::Function { header, body, terminated } => {
            let parsed = function(header_tokens(header), Cursor::start(), names, outcome);
            PassView {
                output: state.output.push(Spanned { v: parsed.output, span: token.span }),
                feedback: function_feedback(state.feedback, token.span, terminated, parsed.feedback),
            }
        },
        _ => PassView {
            output: match plain_node(token.v) {
                Some(node) => state.output.push(Spanned { v: node, span: token.span }),
                None => state.output,
            },
            feedback: plain_feedback(state.feedback, token),
        },
    }
}

/// What the first `count` tokens of a body stand for: the nodes in source
/// order with the spans of their tokens, and the feedback. `names` are the
/// function names that the scope knows, and `outcomes` holds for each token
/// that is a function, at the index of the token, what the parser of that
/// function made of it.
pub open spec fn body<M>(
    tokens: Tokens,
    count: int,
    names: Set<Seq<char>>,
    outcomes: Seq<PassView<M>>,
) -> PassView<Seq<Spanned<NodeView<M>>>>
    decreases count,
{
    if count <= 0 {
        PassView { output: Seq::empty(), feedback: FeedbackView::empty() }
    } else {
        reduce(body(tokens, count - 1, names, outcomes), tokens[count - 1], names, outcomes[count - 1])
    }
}

/// The first tokens of a body stand for the same whatever the parsers make
/// of the functions behind them.
pub proof fn lemma_body_prefix<M>(
    tokens: Tokens,
    count: int,
    names: Set<Seq<char>>,
    first: Seq<PassView<M>>,
    second: Seq<PassView<M>>,
)
    requires
        forall|i: int| 0 <= i < count ==> first[i] == second[i],
    ensures
        body(tokens, count, names, first) == body(tokens, count, names, second),
    decreases count,
{
    if count > 0 {
        lemma_body_prefix(tokens, count - 1, names, first, second);
    }
}

} // verus!
