//! Parsing of tokens into syntax models.

use crate::body::{
    body, function, handed_header, header_tokens, lemma_body_prefix, plain_feedback,
    plain_node, reduce, PassView,
};
use crate::escaping::unescape_raw;
use crate::feedback::{Feedback, Pass};
use crate::func::{FuncHeader, FuncHeaderView};
use crate::grammar::{func_header, Cursor, Tokens};
use crate::lexing::TokenizationMode;
use crate::model::{Node, NodeView, SyntaxModel};
use crate::parser::{chosen_parser, message_unexpected, FuncParser};
use crate::scope::{ParseContext, ParseFunc};
use crate::span::{option_view, Position, Span, Spanned};
use crate::tokenizer::tokenize;
use crate::tokens::{body_view, tokens_view, Token, TokenView};
use vstd::prelude::*;

verus! {

/// Whether `outcome` is what the parser of a function gave for it: the
/// parser that the scope of the context chooses for the header that was
/// read, called with the header to hand to it, the text of the body and the
/// context.
pub open spec fn called<P: ParseFunc>(
    ctx: ParseContext<P>,
    read: Option<FuncHeaderView>,
    body: Option<Spanned<Seq<char>>>,
    outcome: PassView<P::Model>,
) -> bool {
    exists|handed: FuncHeader, text: Option<Spanned<&str>>, pass: Pass<P::Model>|
        {
            &&& #[trigger] call_ensures(
                P::parse,
                (&chosen_parser(*ctx.scope, read), handed, text, ctx),
                pass,
            )
            &&& handed@ == handed_header(read)
            &&& option_view(text) == body
            &&& pass@ == outcome
        }
}

/// Whether `outcome` is what the parser of a function gave for the token,
/// if the token is a function. Of any other token this holds whatever the
/// outcome.
pub open spec fn token_called<P: ParseFunc>(
    ctx: ParseContext<P>,
    token: Spanned<TokenView>,
    outcome: PassView<P::Model>,
) -> bool {
    match token.v {
        TokenView::Function { header, body, terminated } => called(
            ctx,
            func_header(header_tokens(header), Cursor::start()).0,
            body,
            outcome,
        ),
        _ => true,
    }
}

/// Whether `outcomes` holds, for each token of a body that is a function
/// and at the index of that token, what the parser of the function gave
/// for it.
pub open spec fn all_called<P: ParseFunc>(
    ctx: ParseContext<P>,
    tokens: Tokens,
    outcomes: Seq<PassView<P::Model>>,
) -> bool {
    forall|i: int| 0 <= i < tokens.len() ==> token_called(ctx, #[trigger] tokens[i], outcomes[i])
}

/// What parsing the tokens of a body gives, for some outcomes of the
/// parsers of its functions: one outcome for each token, which is what the
/// parser of the function gave where the token is a function.
pub open spec fn parsed<P: ParseFunc>(
    ctx: ParseContext<P>,
    tokens: Tokens,
    pass: Pass<SyntaxModel<P::Model>>,
) -> bool {
    exists|outcomes: Seq<PassView<P::Model>>|
        {
            &&& outcomes.len() == tokens.len()
            &&& all_called(ctx, tokens, outcomes)
            &&& model_pass_view(pass) == #[trigger] body(
                tokens,
                tokens.len() as int,
                ctx.scope.parsers().dom(),
                outcomes,
            )
        }
}

/// Wrap what the parser of a function made of it into a node, and put its
/// feedback behind that of the header.
pub fn conclude<M>(feedback: Feedback, parsed: Pass<M>) -> (pass: Pass<Node<M>>)
    ensures
        pass.output@ == NodeView::Model(parsed.output),
        pass.feedback@ == feedback@.extend(parsed.feedback@),
{
    let mut feedback = feedback;
    feedback.extend(parsed.feedback);
    Pass::new(Node::Model(parsed.output), feedback)
}

/// A node with its feedback, as the grammar sees them.
pub open spec fn node_pass_view<M>(pass: Pass<Node<M>>) -> PassView<NodeView<M>> {
    PassView { output: pass.output@, feedback: pass.feedback@ }
}

/// A model with its feedback, as the grammar sees them.
pub open spec fn model_pass_view<M>(pass: Pass<SyntaxModel<M>>) -> PassView<
    Seq<Spanned<NodeView<M>>>,
> {
    PassView { output: pass.output@, feedback: pass.feedback@ }
}

impl<'s, P: ParseFunc> FuncParser<'s, P> {
    /// Parse the function: read the header, choose the parser by the name,
    /// and let it parse the function from the header and the body. Whatever
    /// that parser makes of the function becomes a model node, and whatever
    /// it reports follows what the header reported.
    pub fn parse(self) -> (pass: Pass<Node<P::Model>>)
        requires
            self.inv(),
        ensures
            exists|outcome: PassView<P::Model>|
                {
                    &&& called(
                        self.ctx,
                        func_header(self.input(), self.cursor()).0,
                        option_view(self.body),
                        outcome,
                    )
                    &&& node_pass_view(pass) == #[trigger] function(
                        self.input(),
                        self.cursor(),
                        self.ctx.scope.parsers().dom(),
                        outcome,
                    )
                },
    {
        let mut parser = self;
        let read = parser.parse_func_header();
        let (header, chosen) = parser.resolve(read);
        let ghost handed = header;
        let parsed = chosen.parse(header, parser.body, parser.ctx);
        let ghost outcome = parsed@;
        proof {
            assert(call_ensures(
                P::parse,
                (
                    &chosen_parser(*self.ctx.scope, func_header(self.input(), self.cursor()).0),
                    handed,
                    self.body,
                    self.ctx,
                ),
                parsed,
            ));
            assert(called(
                self.ctx,
                func_header(self.input(), self.cursor()).0,
                option_view(self.body),
                outcome,
            ));
        }
        let pass = conclude(parser.feedback, parsed);
        proof {
            assert(node_pass_view(pass) == function(
                self.input(),
                self.cursor(),
                self.ctx.scope.parsers().dom(),
                outcome,
            ));
        }
        pass
    }
}

/// The node that a token other than a function stands for, if it stands
/// for one. Comments are dropped. A raw block without its closing backtick
/// is reported; a token that has no place in a body is reported and
/// dropped.
pub fn plain<M>(token: &Spanned<Token>, feedback: &mut Feedback) -> (node: Option<Node<M>>)
    requires
        !(token.v is Function),
    ensures
        option_view(node) == plain_node::<M>(token@.v),
        final(feedback)@ == plain_feedback(old(feedback)@, token@),
{
    match &token.v {
        Token::LineComment(_) | Token::BlockComment(_) => None,
        // Only two or more line endings break the paragraph.
        Token::Space(newlines) => {
            assert(token@.v == TokenView::Space(*newlines));
            if *newlines >= 2 {
                Some(Node::Parbreak)
            } else {
                Some(Node::Space)
            }
        },
        Token::Star => Some(Node::ToggleBolder),
        Token::Underscore => Some(Node::ToggleItalic),
        Token::Backslash => Some(Node::Linebreak),
        Token::Raw { raw, terminated } => {
            assert(token@.v == TokenView::Raw { raw: raw@, terminated: *terminated });
            if !*terminated {
                feedback.error(Span::at(token.span.end), "expected backtick".to_owned());
            }
            Some(Node::Raw(unescape_raw(raw.as_str())))
        },
        Token::Text(text) => {
            assert(token@.v == TokenView::Text(text@));
            Some(Node::Text(text.clone()))
        },
        other => {
            feedback.error(token.span, message_unexpected(other.name()));
            None
        },
    }
}

/// The text of the body of a function, with its span.
fn body_text(body: &Option<Spanned<String>>) -> (text: Option<Spanned<&str>>)
    ensures
        option_view(text) == body_view(*body),
{
    match body {
        Some(text) => Some(Spanned::new(text.v.as_str(), text.span)),
        None => None,
    }
}

/// Parse a function from the text of its header and the text of its body.
///
/// The header is cut into its tokens, as a text that begins behind the
/// opening bracket of the function, and is read. The function is parsed by
/// the parser that the scope holds for the name in the header, or by the
/// fallback parser. What that parser makes of the function becomes a model
/// node, and what it reports follows what the header reported. All spans
/// are counted from the opening bracket of the function.
pub fn parse_function<P: ParseFunc>(
    header: &str,
    body: Option<Spanned<&str>>,
    ctx: ParseContext<'_, P>,
) -> (pass: Pass<Node<P::Model>>)
    ensures
        exists|outcome: PassView<P::Model>|
            {
                &&& called(
                    ctx,
                    func_header(header_tokens(header@), Cursor::start()).0,
                    option_view(body),
                    outcome,
                )
                &&& node_pass_view(pass) == #[trigger] function(
                    header_tokens(header@),
                    Cursor::start(),
                    ctx.scope.parsers().dom(),
                    outcome,
                )
            },
{
    let tokens = tokenize(Position::new(0, 1), header, TokenizationMode::Header);
    let parser = FuncParser::new(&tokens, body, ctx);
    let pass = parser.parse();
    proof {
        let outcome = choose|outcome: PassView<P::Model>|
            {
                &&& called(
                    parser.ctx,
                    func_header(parser.input(), parser.cursor()).0,
                    option_view(parser.body),
                    outcome,
                )
                &&& node_pass_view(pass) == #[trigger] function(
                    parser.input(),
                    parser.cursor(),
                    parser.ctx.scope.parsers().dom(),
                    outcome,
                )
            };
        assert(node_pass_view(pass) == function(
            header_tokens(header@),
            Cursor::start(),
            ctx.scope.parsers().dom(),
            outcome,
        ));
    }
    pass
}

/// Parse one token of a body: add the node that it stands for to the
/// model, if it stands for one, and what it reports to the feedback. The
/// header of a function is cut into its tokens and parsed, and the function
/// is parsed by the parser that the scope holds for its name; what that
/// parser and the header report is moved to the position of the function.
pub fn parse_token<P: ParseFunc>(
    model: &mut SyntaxModel<P::Model>,
    feedback: &mut Feedback,
    token: &Spanned<Token>,
    ctx: ParseContext<'_, P>,
)
    ensures
        exists|outcome: PassView<P::Model>|
            {
                &&& token_called(ctx, token@, outcome)
                &&& (PassView { output: final(model)@, feedback: final(feedback)@ })
                    == #[trigger] reduce(
                    PassView { output: old(model)@, feedback: old(feedback)@ },
                    token@,
                    ctx.scope.parsers().dom(),
                    outcome,
                )
            },
{
    let ghost names = ctx.scope.parsers().dom();
    let ghost before = PassView { output: model@, feedback: feedback@ };
    match &token.v {
        Token::Function { header, body, terminated } => {
            assert(token@.v == TokenView::Function {
                header: header@,
                body: body_view(*body),
                terminated: *terminated,
            });
            let parsed = parse_function(header.as_str(), body_text(body), ctx);
            let ghost outcome = choose|outcome: PassView<P::Model>|
                {
                    &&& called(
                        ctx,
                        func_header(header_tokens(header@), Cursor::start()).0,
                        body_view(*body),
                        outcome,
                    )
                    &&& node_pass_view(parsed) == #[trigger] function(
                        header_tokens(header@),
                        Cursor::start(),
                        names,
                        outcome,
                    )
                };
            feedback.extend_offset(token.span.start, parsed.feedback);
            if !*terminated {
                feedback.error(Span::at(token.span.end), "expected closing bracket".to_owned());
            }
            model.add(Spanned::new(parsed.output, token.span));
            proof {
                assert((PassView { output: model@, feedback: feedback@ }) == reduce(
                    before,
                    token@,
                    names,
                    outcome,
                ));
            }
        },
        _ => {
            match plain(token, feedback) {
                Some(node) => model.add(Spanned::new(node, token.span)),
                None => {},
            }
            proof {
                let outcome: PassView<P::Model> = arbitrary();
                assert((PassView { output: model@, feedback: feedback@ }) == reduce(
                    before,
                    token@,
                    names,
                    outcome,
                ));
            }
        },
    }
}

/// Parse the tokens of a body into a syntax model.
///
/// Every token becomes at most one node, which bears the span of the token.
/// A function is parsed by the parser that the scope of the context holds
/// for its name; what that parser reports is counted from the opening
/// bracket of the function and is moved to the position of the function.
/// Nothing fails: whatever cannot be parsed is reported in the feedback.
pub fn parse_tokens<P: ParseFunc>(tokens: &Vec<Spanned<Token>>, ctx: ParseContext<'_, P>) -> (pass:
    Pass<SyntaxModel<P::Model>>)
    ensures
        parsed(ctx, tokens_view(tokens@), pass),
{
    let mut model = SyntaxModel::new();
    let mut feedback = Feedback::new();
    let ghost names = ctx.scope.parsers().dom();
    let ghost input = tokens_view(tokens@);
    let ghost mut outcomes: Seq<PassView<P::Model>> = Seq::empty();
    let mut i: usize = 0;
    while i < tokens.len()
        invariant
            i <= tokens.len(),
            outcomes.len() == i,
            names == ctx.scope.parsers().dom(),
            input == tokens_view(tokens@),
            forall|j: int| 0 <= j < i ==> token_called(ctx, #[trigger] input[j], outcomes[j]),
            body(input, i as int, names, outcomes) == (PassView {
                output: model@,
                feedback: feedback@,
            }),
        decreases tokens.len() - i,
    {
        let ghost before = outcomes;
        let ghost state = PassView { output: model@, feedback: feedback@ };
        parse_token(&mut model, &mut feedback, &tokens[i], ctx);
        proof {
            let outcome = choose|outcome: PassView<P::Model>|
                {
                    &&& token_called(ctx, tokens@[i as int]@, outcome)
                    &&& (PassView { output: model@, feedback: feedback@ }) == #[trigger] reduce(
                        state,
                        tokens@[i as int]@,
                        names,
                        outcome,
                    )
                };
            outcomes = outcomes.push(outcome);
            lemma_body_prefix(input, i as int, names, before, outcomes);
        }
        i += 1;
    }
    let pass = Pass::new(model, feedback);
    proof {
        assert(all_called(ctx, input, outcomes));
        assert(model_pass_view(pass) == body(input, input.len() as int, names, outcomes));
    }
    pass
}

/// Parse source code into a syntax model.
///
/// The text is cut into the tokens of a body, which are parsed. All spans,
/// of nodes and of feedback, are counted from the `start` position.
pub fn parse<P: ParseFunc>(start: Position, src: &str, ctx: ParseContext<'_, P>) -> (pass: Pass<
    SyntaxModel<P::Model>,
>)
    ensures
        parsed(ctx, crate::lexing::tokenize(src@, start, TokenizationMode::Body), pass),
{
    let tokens = tokenize(start, src, TokenizationMode::Body);
    parse_tokens(&tokens, ctx)
}

} // verus!
