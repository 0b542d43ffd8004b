use markup_syntax::escaping::is_newline_char;
use markup_syntax::grammar::{ItemKind, Missing, Operator, Tier};
use markup_syntax::parser::{coerce, FuncParser};
use markup_syntax::parsing::{conclude, parse_function, plain};
use markup_syntax::tokens::same_body;
use markup_syntax::{
    parse_tokens, unescape_raw, unescape_string, Decoration, Expr, Feedback, FuncArg, FuncArgs,
    FuncHeader, Ident, Node, Number, Object, Pair, ParseColorError, ParseContext, ParseFunc,
    Pass, Position, RgbaColor, Scope, Size, Span, Spanned, SyntaxModel, Token, Tuple, Unit,
};

// A parser of functions that keeps the header and the text of the body, and
// reports one problem of its own at the beginning of the function.

#[derive(Debug, PartialEq)]
struct Call {
    tag: &'static str,
    header: FuncHeader,
    body: Option<Spanned<String>>,
}

struct Tagged(&'static str);

impl ParseFunc for Tagged {
    type Model = Call;

    fn parse(
        &self,
        header: FuncHeader,
        body: Option<Spanned<&str>>,
        _: ParseContext<'_, Self>,
    ) -> Pass<Call> {
        let mut feedback = Feedback::new();
        feedback.error(Span::at(Position::new(0, 0)), format!("seen by {}", self.0));
        let body = body.map(|text| Spanned::new(text.v.to_string(), text.span));
        Pass::new(Call { tag: self.0, header, body }, feedback)
    }
}

fn scope() -> Scope<Tagged> {
    let mut scope = Scope::new(Tagged("fallback"));
    scope.add("val", Tagged("val"));
    scope.add("box", Tagged("box"));
    scope
}

fn pos(line: usize, column: usize) -> Position {
    Position::new(line, column)
}

fn span(start: (usize, usize), end: (usize, usize)) -> Span {
    Span::new(pos(start.0, start.1), pos(end.0, end.1))
}

/// A token on the first line, from one column to another.
fn tok(from: usize, to: usize, token: Token) -> Spanned<Token> {
    Spanned::new(token, span((0, from), (0, to)))
}

fn at<T>(from: usize, to: usize, v: T) -> Spanned<T> {
    Spanned::new(v, span((0, from), (0, to)))
}

fn ident(text: &str) -> Token {
    Token::ExprIdent(text.to_string())
}

fn number(value: f64) -> Number {
    Number { literal: value.to_string() }
}

fn num(value: f64) -> Token {
    Token::ExprNumber(number(value))
}

fn err(from: usize, to: usize, message: &str) -> Spanned<String> {
    at(from, to, message.to_string())
}

/// Run a parser method on the tokens of a header.
fn on_header<T>(
    tokens: &Vec<Spanned<Token>>,
    run: impl FnOnce(&mut FuncParser<Tagged>) -> T,
) -> (T, usize, Feedback) {
    let scope = scope();
    let mut parser = FuncParser::new(tokens, None, ParseContext { scope: &scope });
    let out = run(&mut parser);
    (out, parser.index, parser.feedback)
}

fn expr_of(tokens: Vec<Spanned<Token>>) -> (Option<Spanned<Expr>>, usize, Vec<Spanned<String>>) {
    let (out, index, feedback) = on_header(&tokens, |p| p.parse_expr());
    (out, index, feedback.problems)
}

// --- Positions and spans ---------------------------------------------------

#[test]
fn positions_are_ordered_by_line_then_column() {
    assert!(pos(0, 5).le(pos(0, 5)));
    assert!(pos(0, 5).le(pos(1, 0)));
    assert!(pos(1, 2).le(pos(1, 3)));
    assert!(!pos(1, 0).le(pos(0, 9)));
    assert_eq!(pos(0, 5).min(pos(1, 0)), pos(0, 5));
    assert_eq!(pos(0, 5).max(pos(1, 0)), pos(1, 0));
    assert_eq!(pos(2, 1).min(pos(1, 7)), pos(1, 7));
    assert_eq!(Position::zero(), pos(0, 0));
}

#[test]
fn offset_moves_first_line_right_and_later_lines_down() {
    assert_eq!(pos(0, 3).offset(pos(2, 5)), pos(2, 8));
    assert_eq!(pos(1, 3).offset(pos(2, 5)), pos(3, 3));
    assert_eq!(pos(0, 0).offset(pos(7, 9)), pos(7, 9));
    assert_eq!(span((0, 1), (1, 4)).offset(pos(2, 5)), span((2, 6), (3, 4)));
}

#[test]
fn offset_stops_at_the_largest_number() {
    assert_eq!(pos(0, 2).offset(pos(0, usize::MAX)), pos(0, usize::MAX));
    assert_eq!(pos(3, 2).offset(pos(usize::MAX - 1, 0)), pos(usize::MAX, 2));
}

#[test]
fn relative_undoes_offset() {
    assert_eq!(pos(2, 8).relative(pos(2, 5)), pos(0, 3));
    assert_eq!(pos(3, 3).relative(pos(2, 5)), pos(1, 3));
    assert_eq!(pos(3, 3).relative(pos(2, 5)).offset(pos(2, 5)), pos(3, 3));
    assert_eq!(pos(2, 5).relative(pos(2, 5)), pos(0, 0));
}

#[test]
fn merge_is_the_smallest_span_around_both() {
    assert_eq!(Span::merge(span((0, 9), (0, 10)), span((0, 6), (0, 9))), span((0, 6), (0, 10)));
    assert_eq!(Span::merge(span((0, 1), (2, 0)), span((1, 5), (1, 8))), span((0, 1), (2, 0)));
    assert_eq!(Span::at(pos(1, 2)), span((1, 2), (1, 2)));
    assert_eq!(Span::zero(), span((0, 0), (0, 0)));
    assert_eq!(Spanned::zero(7).span, Span::zero());
    assert_eq!(Spanned::new(7, span((0, 1), (0, 2))).value(), 7);
}

// --- Colors ----------------------------------------------------------------

#[test]
fn colors_are_read_from_three_four_six_or_eight_digits() {
    assert_eq!(RgbaColor::from_str("abc"), Ok(RgbaColor::new(0xaa, 0xbb, 0xcc, 0xff)));
    assert_eq!(RgbaColor::from_str("abcd"), Ok(RgbaColor::new(0xaa, 0xbb, 0xcc, 0xdd)));
    assert_eq!(RgbaColor::from_str("0a1B2c"), Ok(RgbaColor::new(0x0a, 0x1b, 0x2c, 0xff)));
    assert_eq!(RgbaColor::from_str("0a1B2c3D"), Ok(RgbaColor::new(0x0a, 0x1b, 0x2c, 0x3d)));
    assert_eq!(RgbaColor::from_str("000"), Ok(RgbaColor::new(0, 0, 0, 255)));
    assert_eq!(RgbaColor::from_str("ffffffff"), Ok(RgbaColor::new(255, 255, 255, 255)));
}

#[test]
fn other_texts_are_no_colors() {
    for text in ["", "1", "12", "12345", "1234567", "123456789", "ggg", "12345g", "+1+2+3", "ééé", "中文字"] {
        assert_eq!(RgbaColor::from_str(text), Err(ParseColorError), "{:?}", text);
    }
}

#[test]
fn a_healed_color_differs_from_a_read_one() {
    assert!(!RgbaColor::new(0, 0, 0, 255).healed);
    assert!(RgbaColor::new_healed(0, 0, 0, 255).healed);
    assert_ne!(RgbaColor::new(0, 0, 0, 255), RgbaColor::new_healed(0, 0, 0, 255));
}

// --- Escaping --------------------------------------------------------------

#[test]
fn unescaping_keeps_what_is_no_escape() {
    assert_eq!(unescape_string(""), "");
    assert_eq!(unescape_string("\\"), "\\");
    assert_eq!(unescape_string("\\x"), "\\x");
    assert_eq!(unescape_string("\\\\\\"), "\\\\");
    assert_eq!(unescape_string("\\n\\t\\\"\\\\"), "\n\t\"\\");
}

#[test]
fn raw_text_has_at_least_one_line() {
    assert_eq!(unescape_raw(""), vec!["".to_string()]);
    assert_eq!(unescape_raw("\n"), vec!["".to_string(), "".to_string()]);
    assert_eq!(unescape_raw("\r"), vec!["".to_string(), "".to_string()]);
    assert_eq!(unescape_raw("\r\n"), vec!["".to_string(), "".to_string()]);
    assert_eq!(unescape_raw("\n\r"), vec!["".to_string(), "".to_string(), "".to_string()]);
    assert_eq!(unescape_raw("a\u{85}b\u{2028}c\u{2029}d\x0Ce"), vec!["a", "b", "c", "d", "e"]);
    // A backslash escapes nothing but a backtick: a newline character behind
    // it ends the line.
    assert_eq!(unescape_raw("a\\\nb"), vec!["a\\".to_string(), "b".to_string()]);
    assert_eq!(unescape_raw("a\\\r\nb"), vec!["a\\".to_string(), "b".to_string()]);
    assert_eq!(unescape_raw("a\\\rb"), vec!["a\\".to_string(), "b".to_string()]);
    assert_eq!(unescape_raw("\\\n"), vec!["\\".to_string(), "".to_string()]);
    assert_eq!(unescape_raw("\\\u{2028}\\`"), vec!["\\".to_string(), "`".to_string()]);
    // Any other character behind a backslash stays with it.
    assert_eq!(unescape_raw("a\\\\`b"), vec!["a\\\\`b".to_string()]);
    assert_eq!(unescape_raw("a\\b\nc"), vec!["a\\b".to_string(), "c".to_string()]);
}

fn line_breaks(text: &str) -> usize {
    let chars: Vec<char> = text.chars().collect();
    let mut breaks: usize = 0;
    for (i, c) in chars.iter().enumerate() {
        if is_newline_char(*c) && !(*c == '\n' && i > 0 && chars[i - 1] == '\r') {
            breaks += 1;
        }
    }
    breaks
}

#[test]
fn raw_text_has_one_line_more_than_line_breaks() {
    for raw in [
        "", "a", "\n", "\r\n", "\n\r", "\r\r\n\n", "a\\\nb", "a\\\r\nb", "\\", "\\`\n\\`", "\\\\\n",
        "a\u{85}b\u{2028}c\u{2029}d\x0Ce\x0Bf", "\\\r", "\r\\\n", "x\\y\\\nz\r",
    ] {
        let lines = unescape_raw(raw);
        assert_eq!(lines.len(), line_breaks(raw) + 1, "{:?}", raw);
        for line in lines.iter() {
            assert!(!line.chars().any(is_newline_char), "{:?} in {:?}", line, raw);
        }
    }
}

#[test]
fn newline_characters() {
    for c in ['\n', '\x0B', '\x0C', '\r', '\u{85}', '\u{2028}', '\u{2029}'] {
        assert!(is_newline_char(c), "{:?}", c);
    }
    for c in [' ', '\t', 'a', '\u{2027}', '\u{202A}', '\x0E', '\x09'] {
        assert!(!is_newline_char(c), "{:?}", c);
    }
}

// --- Tokens ----------------------------------------------------------------

#[test]
fn tokens_have_names() {
    let named = vec![
        (Token::Space(1), "space"),
        (Token::LineComment("c".to_string()), "line comment"),
        (Token::BlockComment("c".to_string()), "block comment"),
        (Token::Function { header: "f".to_string(), body: None, terminated: true }, "function"),
        (Token::LeftParen, "opening paren"),
        (Token::RightParen, "closing paren"),
        (Token::LeftBrace, "opening brace"),
        (Token::RightBrace, "closing brace"),
        (Token::Colon, "colon"),
        (Token::Comma, "comma"),
        (Token::Equals, "equals sign"),
        (ident("a"), "identifier"),
        (Token::ExprStr { string: "s".to_string(), terminated: true }, "string"),
        (num(1.0), "number"),
        (Token::ExprSize(Size { value: "1".to_string(), unit: Unit::Pt }), "size"),
        (Token::ExprSize(Size { value: "1".to_string(), unit: Unit::Mm }), "size"),
        (Token::ExprSize(Size { value: "1.0".to_string(), unit: Unit::Pt }), "size"),
        (num(1.5), "number"),
        (Token::ExprBool(true), "bool"),
        (Token::ExprHex("fff".to_string()), "hex value"),
        (Token::Plus, "plus"),
        (Token::Hyphen, "minus"),
        (Token::Star, "star"),
        (Token::Slash, "slash"),
        (Token::Underscore, "underscore"),
        (Token::Backslash, "backslash"),
        (Token::Raw { raw: "r".to_string(), terminated: true }, "raw"),
        (Token::Text("t".to_string()), "text"),
        (Token::Invalid("*/".to_string()), "end of block comment"),
        (Token::Invalid("*/ ".to_string()), "invalid token"),
        (Token::Invalid("*".to_string()), "invalid token"),
        (Token::Invalid("".to_string()), "invalid token"),
        (Token::Invalid("]".to_string()), "invalid token"),
    ];
    for (token, name) in named.iter() {
        assert_eq!(token.name(), *name);
    }
    // Every token is the same as itself, and as no other in the list.
    for (i, (a, _)) in named.iter().enumerate() {
        for (j, (b, _)) in named.iter().enumerate() {
            assert_eq!(a.same(b), i == j, "{:?} and {:?}", a, b);
            assert_eq!(a.same(b), a == b);
        }
    }
}

#[test]
fn only_whitespace_and_comments_are_whitespace() {
    assert!(Token::Space(0).is_whitespace());
    assert!(Token::LineComment("".to_string()).is_whitespace());
    assert!(Token::BlockComment("".to_string()).is_whitespace());
    assert!(!Token::Text(" ".to_string()).is_whitespace());
    assert!(!Token::Backslash.is_whitespace());
    assert!(!Token::Comma.is_whitespace());
}

#[test]
fn functions_are_the_same_if_all_of_them_is() {
    let function = |header: &str, column: usize, body: Option<&str>, terminated: bool| Token::Function {
        header: header.to_string(),
        body: body.map(|text| at(column, 5, text.to_string())),
        terminated,
    };
    let reference = function("f", 1, Some("b"), true);
    assert!(reference.same(&function("f", 1, Some("b"), true)));
    assert!(!reference.same(&function("g", 1, Some("b"), true)));
    assert!(!reference.same(&function("f", 2, Some("b"), true)));
    assert!(!reference.same(&function("f", 1, Some("c"), true)));
    assert!(!reference.same(&function("f", 1, None, true)));
    assert!(!reference.same(&function("f", 1, Some("b"), false)));
    assert!(same_body(&None, &None));
    assert!(!same_body(&Some(at(0, 1, "a".to_string())), &Some(at(0, 2, "a".to_string()))));
}

// --- Feedback, arguments, models -------------------------------------------

#[test]
fn feedback_is_extended_in_order() {
    let mut first = Feedback::new();
    first.error(span((0, 1), (0, 2)), "one".to_string());
    first.decorate(span((0, 1), (0, 2)), Decoration::ArgumentKey);
    let mut second = Feedback::new();
    second.error(span((0, 3), (0, 4)), "two".to_string());
    second.error(span((1, 3), (1, 4)), "three".to_string());
    second.decorate(span((0, 5), (1, 6)), Decoration::ObjectKey);
    let mut third = Feedback::new();
    third.error(span((0, 0), (0, 0)), "four".to_string());
    first.extend_offset(pos(2, 10), second);
    first.extend(third);
    assert_eq!(
        first.problems,
        vec![
            Spanned::new("one".to_string(), span((0, 1), (0, 2))),
            Spanned::new("two".to_string(), span((2, 13), (2, 14))),
            Spanned::new("three".to_string(), span((3, 3), (3, 4))),
            Spanned::new("four".to_string(), span((0, 0), (0, 0))),
        ]
    );
    assert_eq!(
        first.decos,
        vec![
            Spanned::new(Decoration::ArgumentKey, span((0, 1), (0, 2))),
            Spanned::new(Decoration::ObjectKey, span((2, 15), (3, 6))),
        ]
    );
}

#[test]
fn arguments_are_kept_in_order_and_keys_may_repeat() {
    let pair = |key: &str, value: bool| {
        at(0, 1, FuncArg::Key(Pair { key: at(0, 1, Ident(key.to_string())), value: at(0, 1, Expr::Bool(value)) }))
    };
    let mut args = FuncArgs::new();
    args.add(at(1, 2, FuncArg::Pos(Expr::Bool(true))));
    args.add(pair("k", true));
    args.add(at(3, 4, FuncArg::Pos(Expr::Bool(false))));
    args.add(pair("k", false));
    assert_eq!(
        args.pos,
        Tuple { items: vec![at(1, 2, Expr::Bool(true)), at(3, 4, Expr::Bool(false))] }
    );
    assert_eq!(args.key.pairs.len(), 2);
    assert_eq!(args.key.pairs[0].v.value.v, Expr::Bool(true));
    assert_eq!(args.key.pairs[1].v.value.v, Expr::Bool(false));
    assert_eq!(args.key.pairs[1].v.key.v.as_str(), "k");
    assert_eq!(Tuple::new().items.len(), 0);
    assert_eq!(Object::new().pairs.len(), 0);
}

#[test]
fn models_grow_at_the_end() {
    let mut model: SyntaxModel<Call> = SyntaxModel::new();
    model.add(at(0, 1, Node::Space));
    model.add(at(1, 3, Node::Text("ab".to_string())));
    assert_eq!(model.nodes, vec![at(0, 1, Node::Space), at(1, 3, Node::Text("ab".to_string()))]);
}

// --- Scopes ----------------------------------------------------------------

#[test]
fn a_scope_finds_the_last_parser_of_a_name() {
    let mut scope = Scope::new(Tagged("fallback"));
    assert_eq!(scope.get_parser("val").map(|p| p.0).map_err(|p| p.0), Err("fallback"));
    scope.add("val", Tagged("first"));
    scope.add("box", Tagged("box"));
    assert_eq!(scope.get_parser("val").map(|p| p.0).map_err(|p| p.0), Ok("first"));
    scope.add("val", Tagged("second"));
    assert_eq!(scope.get_parser("val").map(|p| p.0).map_err(|p| p.0), Ok("second"));
    assert_eq!(scope.get_parser("box").map(|p| p.0).map_err(|p| p.0), Ok("box"));
    assert_eq!(scope.get_parser("").map(|p| p.0).map_err(|p| p.0), Err("fallback"));
    assert_eq!(scope.get_parser("va").map(|p| p.0).map_err(|p| p.0), Err("fallback"));
    assert_eq!(scope.get_fallback_parser().0, "fallback");
}

// --- The cursor ------------------------------------------------------------

fn spaced() -> Vec<Spanned<Token>> {
    vec![
        tok(1, 2, Token::Space(0)),
        tok(2, 6, Token::LineComment("c".to_string())),
        tok(6, 7, ident("a")),
        tok(7, 8, Token::Space(1)),
        tok(8, 9, Token::Comma),
    ]
}

#[test]
fn the_cursor_moves_token_by_token() {
    let tokens = spaced();
    let scope = scope();
    let mut p = FuncParser::new(&tokens, None, ParseContext { scope: &scope });
    assert_eq!(p.pos(), pos(0, 1));
    assert_eq!(p.peek(), Some(&tokens[0]));
    assert_eq!(p.peekv(), Some(&Token::Space(0)));
    assert_eq!(p.parse_ident(), None);
    assert_eq!(p.index, 0);
    p.skip_whitespace();
    assert_eq!(p.index, 2);
    assert_eq!(p.pos(), pos(0, 6));
    assert!(p.next_is(&ident("a")));
    assert!(!p.next_is(&ident("b")));
    assert_eq!(p.parse_ident(), Some(at(6, 7, Ident("a".to_string()))));
    assert_eq!(p.eat(), Some(&tokens[3]));
    assert!(p.at_end(Some(&Token::Comma)));
    assert!(!p.at_end(Some(&Token::RightParen)));
    assert!(!p.at_end(None));
    assert_eq!(p.eat(), Some(&tokens[4]));
    assert_eq!(p.index, 5);
    assert_eq!(p.eat(), None);
    assert_eq!(p.peek(), None);
    assert_eq!(p.peekv(), None);
    assert_eq!(p.index, 5);
    assert_eq!(p.pos(), pos(0, 9));
    assert!(p.at_end(None));
    assert!(!p.at_end(Some(&Token::Comma)));
    p.skip_whitespace();
    assert_eq!(p.index, 5);
}

#[test]
fn the_cursor_of_no_tokens_stands_behind_the_bracket() {
    let tokens = vec![];
    let (position, index, _) = on_header(&tokens, |p| p.pos());
    assert_eq!(position, pos(0, 1));
    assert_eq!(index, 0);
}

#[test]
fn eat_until_stops_at_the_first_match() {
    let tokens = spaced();
    let is_ident = |token: &Token| matches!(token, Token::ExprIdent(_));
    assert_eq!(on_header(&tokens, |p| p.eat_until(is_ident, false)).1, 2);
    assert_eq!(on_header(&tokens, |p| p.eat_until(is_ident, true)).1, 3);
    assert_eq!(on_header(&tokens, |p| p.eat_until(|_| false, true)).1, 5);
    assert_eq!(on_header(&tokens, |p| p.eat_until(|_| true, false)).1, 0);
    assert_eq!(on_header(&tokens, |p| p.eat_until(|_| true, true)).1, 1);
}

#[test]
fn problems_are_worded() {
    let tokens = spaced();
    let (_, _, feedback) = on_header(&tokens, |p| {
        p.expected_at("colon", pos(3, 4));
        p.expected_found("key", &tok(5, 6, Token::ExprBool(true)));
        p.expected_found_or_at("value", None, pos(1, 1));
        p.expected_found_or_at("value", Some(&tok(7, 9, Token::Invalid("*/".to_string()))), pos(1, 1));
    });
    assert_eq!(
        feedback.problems,
        vec![
            Spanned::new("expected colon".to_string(), span((3, 4), (3, 4))),
            err(5, 6, "expected key, found bool"),
            Spanned::new("expected value".to_string(), span((1, 1), (1, 1))),
            err(7, 9, "expected value, found end of block comment"),
        ]
    );
    assert_eq!(feedback.decos, vec![]);
}

// --- Expressions -----------------------------------------------------------

fn boxed(from: usize, to: usize, expr: Expr) -> Box<Spanned<Expr>> {
    Box::new(at(from, to, expr))
}

#[test]
fn chains_of_one_tier_lean_to_the_right() {
    // a - b - c
    let (parsed, index, problems) = expr_of(vec![
        tok(1, 2, ident("a")),
        tok(2, 3, Token::Hyphen),
        tok(3, 4, ident("b")),
        tok(4, 5, Token::Hyphen),
        tok(5, 6, ident("c")),
    ]);
    let id = |text: &str| Expr::Ident(Ident(text.to_string()));
    assert_eq!(
        parsed,
        Some(at(1, 6, Expr::Sub(boxed(1, 2, id("a")), boxed(3, 6, Expr::Sub(boxed(3, 4, id("b")), boxed(5, 6, id("c")))))))
    );
    assert_eq!(index, 5);
    assert_eq!(problems, vec![]);
}

#[test]
fn factors_bind_stronger_than_summands() {
    // 1 * 2 + 3 / -4
    let (parsed, _, problems) = expr_of(vec![
        tok(1, 2, num(1.0)),
        tok(2, 3, Token::Star),
        tok(3, 4, num(2.0)),
        tok(4, 5, Token::Plus),
        tok(5, 6, num(3.0)),
        tok(6, 7, Token::Slash),
        tok(7, 8, Token::Hyphen),
        tok(8, 9, num(4.0)),
    ]);
    let n = |value: f64| Expr::Number(number(value));
    assert_eq!(
        parsed,
        Some(at(
            1,
            9,
            Expr::Add(
                boxed(1, 4, Expr::Mul(boxed(1, 2, n(1.0)), boxed(3, 4, n(2.0)))),
                boxed(5, 9, Expr::Div(boxed(5, 6, n(3.0)), boxed(7, 9, Expr::Neg(boxed(8, 9, n(4.0)))))),
            )
        ))
    );
    assert_eq!(problems, vec![]);
}

#[test]
fn an_operator_of_the_other_tier_ends_a_term() {
    let tokens = vec![tok(1, 2, num(1.0)), tok(2, 3, Token::Space(0)), tok(3, 4, Token::Plus), tok(4, 5, num(2.0))];
    let (parsed, index, feedback) = on_header(&tokens, |p| p.parse_term());
    assert_eq!(parsed, Some(at(1, 2, Expr::Number(number(1.0)))));
    // The whitespace before the operator is taken, the operator is not.
    assert_eq!(index, 2);
    assert_eq!(feedback.problems, vec![]);
    assert_eq!(Tier::Summand.parse_op(&Token::Plus), Some(Operator::Add));
    assert_eq!(Tier::Summand.parse_op(&Token::Hyphen), Some(Operator::Sub));
    assert_eq!(Tier::Summand.parse_op(&Token::Star), None);
    assert_eq!(Tier::Factor.parse_op(&Token::Star), Some(Operator::Mul));
    assert_eq!(Tier::Factor.parse_op(&Token::Slash), Some(Operator::Div));
    assert_eq!(Tier::Factor.parse_op(&Token::Plus), None);
    assert_eq!(Tier::Summand.name(), "summand");
    assert_eq!(Tier::Factor.name(), "factor");
}

#[test]
fn a_missing_right_operand_keeps_the_left_one() {
    // 4 - -   (the attempt reports the dangling minus first)
    let (parsed, index, problems) = expr_of(vec![
        tok(1, 2, num(4.0)),
        tok(2, 3, Token::Hyphen),
        tok(3, 4, Token::Hyphen),
    ]);
    assert_eq!(parsed, Some(at(1, 2, Expr::Number(number(4.0)))));
    assert_eq!(index, 3);
    assert_eq!(problems, vec![err(3, 4, "dangling minus"), err(1, 3, "missing right summand")]);

    // 4 *
    let (parsed, _, problems) = expr_of(vec![tok(1, 2, num(4.0)), tok(2, 3, Token::Star)]);
    assert_eq!(parsed, Some(at(1, 2, Expr::Number(number(4.0)))));
    assert_eq!(problems, vec![err(1, 3, "missing right factor")]);
}

#[test]
fn a_dangling_minus_is_no_factor() {
    let tokens = vec![tok(1, 2, Token::Hyphen), tok(2, 3, Token::Space(0)), tok(3, 4, Token::Comma)];
    let (parsed, index, feedback) = on_header(&tokens, |p| p.parse_factor());
    assert_eq!(parsed, None);
    assert_eq!(index, 2);
    assert_eq!(feedback.problems, vec![err(1, 2, "dangling minus")]);
}

#[test]
fn what_is_no_value_is_left_alone() {
    for token in [Token::Comma, Token::RightParen, Token::Colon, Token::Text("t".to_string()), Token::Star] {
        let tokens = vec![tok(1, 2, token)];
        let (parsed, index, feedback) = on_header(&tokens, |p| p.parse_value());
        assert_eq!(parsed, None);
        assert_eq!(index, 0);
        assert_eq!(feedback.problems, vec![]);
        assert_eq!(on_header(&tokens, |p| p.parse_literal()).0, None);
    }
    let tokens = vec![];
    assert_eq!(on_header(&tokens, |p| p.parse_expr()).0, None);
}

#[test]
fn an_invalid_color_heals_to_opaque_black() {
    let tokens = vec![tok(6, 12, Token::ExprHex("12345".to_string()))];
    let (parsed, index, feedback) = on_header(&tokens, |p| p.parse_value());
    assert_eq!(parsed, Some(at(6, 12, Expr::Color(RgbaColor::new_healed(0, 0, 0, 255)))));
    assert_eq!(index, 1);
    assert_eq!(feedback.problems, vec![err(6, 12, "invalid color")]);

    let tokens = vec![tok(6, 10, Token::ExprHex("1a2".to_string()))];
    let (parsed, _, feedback) = on_header(&tokens, |p| p.parse_value());
    assert_eq!(parsed, Some(at(6, 10, Expr::Color(RgbaColor::new(0x11, 0xaa, 0x22, 0xff)))));
    assert_eq!(feedback.problems, vec![]);
}

fn group(inner: Vec<Spanned<Token>>, comma: bool) -> Vec<Spanned<Token>> {
    let mut tokens = vec![tok(0, 1, Token::LeftParen), tok(1, 2, Token::Space(0))];
    tokens.extend(inner);
    tokens.push(tok(20, 21, Token::Space(1)));
    if comma {
        tokens.push(tok(21, 22, Token::Comma));
    }
    tokens.push(tok(22, 23, Token::RightParen));
    tokens
}

fn sample() -> Vec<Spanned<Token>> {
    // f(1, x) * #zzz
    vec![
        tok(2, 3, ident("f")),
        tok(3, 4, Token::LeftParen),
        tok(4, 5, num(1.0)),
        tok(5, 6, Token::Comma),
        tok(6, 7, ident("x")),
        tok(7, 8, Token::RightParen),
        tok(8, 9, Token::Star),
        tok(9, 13, Token::ExprHex("zzz".to_string())),
    ]
}

#[test]
fn a_group_without_comma_is_its_expression() {
    let alone = sample();
    let (expected, _, expected_feedback) = on_header(&alone, |p| p.parse_expr());
    assert!(expected.is_some());
    assert_eq!(expected_feedback.problems, vec![err(9, 13, "invalid color")]);

    let grouped = group(sample(), false);
    let (parsed, index, feedback) = on_header(&grouped, |p| p.parse_value());
    assert_eq!(parsed, expected);
    assert_eq!(index, grouped.len());
    assert_eq!(feedback, expected_feedback);
}

#[test]
fn a_group_with_comma_is_a_tuple_of_one() {
    let alone = sample();
    let (expected, _, expected_feedback) = on_header(&alone, |p| p.parse_expr());
    let grouped = group(sample(), true);
    let (parsed, index, feedback) = on_header(&grouped, |p| p.parse_value());
    assert_eq!(
        parsed,
        Some(Spanned::new(
            Expr::Tuple(Tuple { items: vec![expected.unwrap()] }),
            span((0, 1), (0, 23))
        ))
    );
    assert_eq!(index, grouped.len());
    assert_eq!(feedback, expected_feedback);
}

#[test]
fn coercion_takes_the_only_item() {
    let one = || at(0, 5, Tuple { items: vec![at(1, 2, Expr::Bool(true))] });
    assert_eq!(coerce(one(), true), at(1, 2, Expr::Bool(true)));
    assert_eq!(coerce(one(), false), at(0, 5, Expr::Tuple(one().v)));
    let none = || at(0, 2, Tuple { items: vec![] });
    assert_eq!(coerce(none(), true), at(0, 2, Expr::Tuple(none().v)));
    assert_eq!(coerce(none(), false), at(0, 2, Expr::Tuple(none().v)));
}

// --- Collections -----------------------------------------------------------

#[test]
fn a_trailing_comma_changes_nothing_but_coercion() {
    let with = vec![
        tok(1, 2, num(1.0)),
        tok(2, 3, Token::Comma),
        tok(3, 4, num(2.0)),
        tok(4, 5, Token::Comma),
        tok(5, 6, Token::RightParen),
    ];
    let without = vec![
        tok(1, 2, num(1.0)),
        tok(2, 3, Token::Comma),
        tok(3, 4, num(2.0)),
        tok(5, 6, Token::RightParen),
    ];
    let end = Token::RightParen;
    let run = |tokens: &Vec<Spanned<Token>>| {
        on_header(tokens, |p| p.parse_collection_comma_aware(Some(&end), ItemKind::Value))
    };
    let ((first, first_coercible), first_index, first_feedback) = run(&with);
    let ((second, second_coercible), second_index, second_feedback) = run(&without);
    assert_eq!(first.v, second.v);
    assert_eq!(first.v.pos.items, vec![at(1, 2, Expr::Number(number(1.0))), at(3, 4, Expr::Number(number(2.0)))]);
    assert_eq!(first.v.key.pairs.len(), 0);
    assert!(!first_coercible && !second_coercible);
    assert_eq!((first_index, second_index), (5, 4));
    assert_eq!(first_feedback.problems, vec![]);
    assert_eq!(second_feedback.problems, vec![]);
    // The span runs from the cursor before the first item to the cursor
    // behind the closing token.
    assert_eq!(first.span, span((0, 1), (0, 6)));
}

#[test]
fn a_collection_is_coercible_until_it_meets_or_misses_a_comma() {
    let end = Token::RightParen;
    let run = |tokens: Vec<Spanned<Token>>| {
        let ((args, coercible), _, feedback) =
            on_header(&tokens, |p| p.parse_collection_comma_aware(Some(&end), ItemKind::Value));
        (args.v.pos.items.len(), coercible, feedback.problems)
    };
    // ()
    assert_eq!(run(vec![tok(1, 2, Token::RightParen)]), (0, true, vec![]));
    // (1)
    assert_eq!(run(vec![tok(1, 2, num(1.0)), tok(2, 3, Token::RightParen)]), (1, true, vec![]));
    // (1,)
    assert_eq!(
        run(vec![tok(1, 2, num(1.0)), tok(2, 3, Token::Comma), tok(3, 4, Token::RightParen)]),
        (1, false, vec![])
    );
    // (1 2)
    assert_eq!(
        run(vec![tok(1, 2, num(1.0)), tok(2, 3, Token::Space(0)), tok(3, 4, num(2.0)), tok(4, 5, Token::RightParen)]),
        (2, false, vec![err(2, 2, "expected comma")])
    );
    // (,)  -- a missed item alone does not rule coercion out
    assert_eq!(
        run(vec![tok(1, 2, Token::Comma), tok(2, 3, Token::RightParen)]),
        (0, true, vec![err(1, 2, "expected value, found comma")])
    );
    // (1   -- the tokens end before the collection
    assert_eq!(run(vec![tok(1, 2, num(1.0))]), (1, true, vec![err(2, 2, "expected closing paren")]));
    // (-)  -- the closing token is reported as found, and stays to end the collection
    assert_eq!(
        run(vec![tok(1, 2, Token::Hyphen), tok(2, 3, Token::RightParen)]),
        (0, true, vec![err(1, 2, "dangling minus"), err(2, 3, "expected value, found closing paren")])
    );
}

#[test]
fn items_follow_the_grammar_of_their_kind() {
    let key = |from: usize, to: usize, text: &str| at(from, to, Ident(text.to_string()));
    // k: 1  as a pair
    let tokens = vec![tok(1, 2, ident("k")), tok(2, 3, Token::Colon), tok(3, 4, Token::Space(0)), tok(4, 5, num(1.0))];
    let (parsed, index, feedback) = on_header(&tokens, |p| p.parse_item(ItemKind::Pair));
    assert_eq!(
        parsed,
        Ok(at(1, 5, FuncArg::Key(Pair { key: key(1, 2, "k"), value: at(4, 5, Expr::Number(number(1.0))) })))
    );
    assert_eq!(index, 4);
    assert_eq!(feedback.decos, vec![at(1, 2, Decoration::ObjectKey)]);
    // ... as an argument: the identifier alone
    let (parsed, index, feedback) = on_header(&tokens, |p| p.parse_item(ItemKind::Argument));
    assert_eq!(parsed, Ok(at(1, 2, FuncArg::Pos(Expr::Ident(Ident("k".to_string()))))));
    assert_eq!(index, 1);
    assert_eq!(feedback.decos, vec![]);

    // k = 1  as an argument
    let tokens = vec![tok(1, 2, ident("k")), tok(2, 3, Token::Space(0)), tok(3, 4, Token::Equals), tok(4, 5, num(1.0))];
    let (parsed, _, feedback) = on_header(&tokens, |p| p.parse_item(ItemKind::Argument));
    assert_eq!(
        parsed,
        Ok(at(1, 5, FuncArg::Key(Pair { key: key(1, 2, "k"), value: at(4, 5, Expr::Number(number(1.0))) })))
    );
    assert_eq!(feedback.decos, vec![at(1, 2, Decoration::ArgumentKey)]);
    // ... as a pair: the colon is missing behind the key
    let (parsed, index, _) = on_header(&tokens, |p| p.parse_item(ItemKind::Pair));
    assert_eq!(parsed, Err(Missing { thing: "colon", at: Some(pos(0, 2)) }));
    assert_eq!(index, 2);
    // ... as a value: the identifier, and the whitespace behind it
    let (parsed, index, _) = on_header(&tokens, |p| p.parse_item(ItemKind::Value));
    assert_eq!(parsed, Ok(at(1, 2, FuncArg::Pos(Expr::Ident(Ident("k".to_string()))))));
    assert_eq!(index, 2);

    // k =   the value is missing
    let tokens = vec![tok(1, 2, ident("k")), tok(2, 3, Token::Equals)];
    let (parsed, index, feedback) = on_header(&tokens, |p| p.parse_item(ItemKind::Argument));
    assert_eq!(parsed, Err(Missing { thing: "value", at: None }));
    assert_eq!(index, 2);
    assert_eq!(feedback.decos, vec![at(1, 2, Decoration::ArgumentKey)]);

    // Whatever is no item
    let tokens = vec![tok(1, 2, Token::Colon)];
    assert_eq!(on_header(&tokens, |p| p.parse_item(ItemKind::Argument)).0, Err(Missing { thing: "argument", at: None }));
    assert_eq!(on_header(&tokens, |p| p.parse_item(ItemKind::Value)).0, Err(Missing { thing: "value", at: None }));
    assert_eq!(on_header(&tokens, |p| p.parse_item(ItemKind::Pair)).0, Err(Missing { thing: "key", at: None }));
}

#[test]
fn a_name_directly_before_a_parenthesis_names_a_tuple() {
    // f (1)  is a name, f(1) a named tuple
    let apart = vec![tok(1, 2, ident("f")), tok(2, 3, Token::Space(0)), tok(3, 4, Token::LeftParen), tok(4, 5, num(1.0)), tok(5, 6, Token::RightParen)];
    let (parsed, index, _) = on_header(&apart, |p| p.parse_value());
    assert_eq!(parsed, Some(at(1, 2, Expr::Ident(Ident("f".to_string())))));
    assert_eq!(index, 1);

    let joined = vec![tok(1, 2, ident("f")), tok(2, 3, Token::LeftParen), tok(3, 4, num(1.0)), tok(4, 5, Token::RightParen)];
    let (parsed, index, _) = on_header(&joined, |p| p.parse_value());
    match parsed {
        Some(Spanned { v: Expr::NamedTuple(named), span: outer }) => {
            assert_eq!(named.name, at(1, 2, Ident("f".to_string())));
            assert_eq!(named.tuple.v.items, vec![at(3, 4, Expr::Number(number(1.0)))]);
            assert_eq!(named.tuple.span, span((0, 3), (0, 5)));
            assert_eq!(outer, span((0, 1), (0, 5)));
        }
        other => panic!("no named tuple: {:?}", other),
    }
    assert_eq!(index, 4);
}

// --- Headers and functions -------------------------------------------------

#[test]
fn a_header_is_a_name_and_arguments() {
    let tokens = vec![
        tok(1, 2, Token::Space(0)),
        tok(2, 5, ident("val")),
        tok(5, 6, Token::Colon),
        tok(6, 7, num(1.0)),
        tok(7, 8, Token::Comma),
        tok(8, 9, ident("k")),
        tok(9, 10, Token::Equals),
        tok(10, 11, Token::ExprBool(true)),
    ];
    let (header, index, feedback) = on_header(&tokens, |p| p.parse_func_header());
    let header = header.unwrap();
    assert_eq!(header.name, at(2, 5, Ident("val".to_string())));
    assert_eq!(header.args.pos.items, vec![at(6, 7, Expr::Number(number(1.0)))]);
    assert_eq!(header.args.key.pairs.len(), 1);
    assert_eq!(index, 8);
    assert_eq!(feedback.problems, vec![]);
    assert_eq!(feedback.decos, vec![at(8, 9, Decoration::ArgumentKey)]);
}

#[test]
fn a_header_without_name_is_none() {
    let tokens = vec![tok(1, 2, Token::Space(0)), tok(2, 3, num(1.0)), tok(3, 4, ident("a"))];
    let (header, index, feedback) = on_header(&tokens, |p| p.parse_func_header());
    assert_eq!(header, None);
    assert_eq!(index, 2);
    assert_eq!(feedback.problems, vec![err(2, 3, "expected identifier, found number")]);

    let tokens = vec![tok(1, 2, Token::Space(0))];
    let (header, index, feedback) = on_header(&tokens, |p| p.parse_func_header());
    assert_eq!(header, None);
    assert_eq!(index, 1);
    // Nothing was found: the problem stands where the header begins.
    assert_eq!(feedback.problems, vec![err(1, 1, "expected identifier")]);
}

#[test]
fn the_parser_of_a_function_is_chosen_by_its_name() {
    let scope = scope();
    let ctx = ParseContext { scope: &scope };
    let body = || Some(at(5, 9, "body"));

    // A known name.
    let tokens = vec![tok(1, 4, ident("val"))];
    let pass = FuncParser::new(&tokens, body(), ctx).parse();
    match pass.output {
        Node::Model(call) => {
            assert_eq!(call.tag, "val");
            assert_eq!(call.header.name, at(1, 4, Ident("val".to_string())));
            assert_eq!(call.body, Some(at(5, 9, "body".to_string())));
        }
        other => panic!("no model: {:?}", other),
    }
    assert_eq!(pass.feedback.problems, vec![err(0, 0, "seen by val")]);
    assert_eq!(pass.feedback.decos, vec![at(1, 4, Decoration::ValidFuncName)]);

    // An unknown name: the fallback parser, and the name is reported.
    let tokens = vec![tok(1, 3, ident("hi"))];
    let pass = FuncParser::new(&tokens, None, ctx).parse();
    match pass.output {
        Node::Model(call) => {
            assert_eq!(call.tag, "fallback");
            assert_eq!(call.header.name, at(1, 3, Ident("hi".to_string())));
            assert_eq!(call.body, None);
        }
        other => panic!("no model: {:?}", other),
    }
    assert_eq!(pass.feedback.problems, vec![err(1, 3, "unknown function"), err(0, 0, "seen by fallback")]);
    assert_eq!(pass.feedback.decos, vec![at(1, 3, Decoration::InvalidFuncName)]);

    // No header at all: the fallback parser gets an empty header and the body.
    let tokens = vec![tok(1, 2, Token::Comma)];
    let pass = FuncParser::new(&tokens, body(), ctx).parse();
    match pass.output {
        Node::Model(call) => {
            assert_eq!(call.tag, "fallback");
            assert_eq!(call.header.name, Spanned::zero(Ident("".to_string())));
            assert_eq!(call.header.args, FuncArgs::new());
            assert_eq!(call.body, Some(at(5, 9, "body".to_string())));
        }
        other => panic!("no model: {:?}", other),
    }
    assert_eq!(
        pass.feedback.problems,
        vec![err(1, 2, "expected identifier, found comma"), err(0, 0, "seen by fallback")]
    );
    assert_eq!(pass.feedback.decos, vec![]);
}

#[test]
fn a_function_is_parsed_from_the_text_of_its_header() {
    let scope = scope();
    let ctx = ParseContext { scope: &scope };
    let pass = parse_function("box: 1, k=true", Some(at(15, 20, "body")), ctx);
    match pass.output {
        Node::Model(call) => {
            assert_eq!(call.tag, "box");
            assert_eq!(call.header.name, at(1, 4, Ident("box".to_string())));
            assert_eq!(call.header.args.pos.items, vec![at(6, 7, Expr::Number(number(1.0)))]);
            assert_eq!(call.header.args.key.pairs.len(), 1);
            assert_eq!(call.body, Some(at(15, 20, "body".to_string())));
        }
        other => panic!("no model: {:?}", other),
    }
    assert_eq!(pass.feedback.problems, vec![err(0, 0, "seen by box")]);
    assert_eq!(
        pass.feedback.decos,
        vec![at(9, 10, Decoration::ArgumentKey), at(1, 4, Decoration::ValidFuncName)]
    );

    // Without a header the fallback parser is called, and the problem is
    // reported where the header begins: behind the opening bracket.
    let pass = parse_function("", None, ctx);
    assert!(matches!(&pass.output, Node::Model(call) if call.tag == "fallback"));
    assert_eq!(
        pass.feedback.problems,
        vec![err(1, 1, "expected identifier"), err(0, 0, "seen by fallback")]
    );
}

#[test]
fn concluding_wraps_the_model_and_appends_the_feedback() {
    let mut own = Feedback::new();
    own.error(span((0, 1), (0, 2)), "first".to_string());
    let mut theirs = Feedback::new();
    theirs.error(span((0, 0), (0, 0)), "second".to_string());
    theirs.decorate(span((0, 0), (0, 0)), Decoration::ObjectKey);
    let pass = conclude(own, Pass::new(7, theirs));
    assert_eq!(pass.output, Node::Model(7));
    assert_eq!(pass.feedback.problems, vec![err(1, 2, "first"), err(0, 0, "second")]);
    assert_eq!(pass.feedback.decos, vec![at(0, 0, Decoration::ObjectKey)]);
}

// --- Bodies ----------------------------------------------------------------

fn text(from: usize, to: usize, text: &str) -> Spanned<Token> {
    tok(from, to, Token::Text(text.to_string()))
}

#[test]
fn whitespace_and_text_become_their_segments() {
    let tokens = vec![
        text(0, 2, "hi"),
        tok(2, 3, Token::Space(0)),
        text(3, 6, "you"),
        tok(6, 7, Token::Space(1)),
        text(7, 8, "a"),
        Spanned::new(Token::Space(2), span((0, 8), (2, 0))),
        Spanned::new(Token::Text("b".to_string()), span((2, 0), (2, 1))),
        Spanned::new(Token::Space(5), span((2, 1), (7, 0))),
    ];
    let scope = scope();
    let pass = parse_tokens(&tokens, ParseContext { scope: &scope });
    assert_eq!(
        pass.output.nodes,
        vec![
            at(0, 2, Node::Text("hi".to_string())),
            at(2, 3, Node::Space),
            at(3, 6, Node::Text("you".to_string())),
            at(6, 7, Node::Space),
            at(7, 8, Node::Text("a".to_string())),
            Spanned::new(Node::Parbreak, span((0, 8), (2, 0))),
            Spanned::new(Node::Text("b".to_string()), span((2, 0), (2, 1))),
            Spanned::new(Node::Parbreak, span((2, 1), (7, 0))),
        ]
    );
    assert_eq!(pass.feedback, Feedback::new());
}

#[test]
fn tokens_of_a_body_become_nodes_or_problems() {
    let mut feedback = Feedback::new();
    let node = |token: Token, feedback: &mut Feedback| plain::<u8>(&tok(3, 5, token), feedback);
    assert_eq!(node(Token::Star, &mut feedback), Some(Node::ToggleBolder));
    assert_eq!(node(Token::Underscore, &mut feedback), Some(Node::ToggleItalic));
    assert_eq!(node(Token::Backslash, &mut feedback), Some(Node::Linebreak));
    assert_eq!(node(Token::LineComment("c".to_string()), &mut feedback), None);
    assert_eq!(node(Token::BlockComment("c".to_string()), &mut feedback), None);
    assert_eq!(
        node(Token::Raw { raw: "a\\`\nb".to_string(), terminated: true }, &mut feedback),
        Some(Node::Raw(vec!["a`".to_string(), "b".to_string()]))
    );
    assert_eq!(feedback, Feedback::new());

    assert_eq!(
        node(Token::Raw { raw: "a".to_string(), terminated: false }, &mut feedback),
        Some(Node::Raw(vec!["a".to_string()]))
    );
    assert_eq!(node(Token::Comma, &mut feedback), None);
    assert_eq!(node(Token::Invalid("*/".to_string()), &mut feedback), None);
    assert_eq!(node(ident("a"), &mut feedback), None);
    assert_eq!(
        feedback.problems,
        vec![
            err(5, 5, "expected backtick"),
            err(3, 5, "unexpected comma"),
            err(3, 5, "unexpected end of block comment"),
            err(3, 5, "unexpected identifier"),
        ]
    );
}

#[test]
fn functions_in_a_body_report_where_they_stand() {
    // On the third line: `[hi: x=` unterminated, then `[val]`.
    let unknown = Token::Function { header: "hi: x=".to_string(), body: None, terminated: false };
    let known = Token::Function { header: "val".to_string(), body: None, terminated: true };
    let tokens = vec![
        Spanned::new(unknown, span((2, 4), (2, 11))),
        Spanned::new(known, span((2, 11), (2, 16))),
    ];
    let scope = scope();
    let pass = parse_tokens(&tokens, ParseContext { scope: &scope });
    assert_eq!(pass.output.nodes.len(), 2);
    assert_eq!(pass.output.nodes[0].span, span((2, 4), (2, 11)));
    assert_eq!(pass.output.nodes[1].span, span((2, 11), (2, 16)));
    assert!(matches!(&pass.output.nodes[0].v, Node::Model(call) if call.tag == "fallback"));
    assert!(matches!(&pass.output.nodes[1].v, Node::Model(call) if call.tag == "val"));
    let on_line = |from: usize, to: usize, message: &str| {
        Spanned::new(message.to_string(), span((2, from), (2, to)))
    };
    assert_eq!(
        pass.feedback.problems,
        vec![
            on_line(11, 11, "expected value"),
            on_line(5, 7, "unknown function"),
            on_line(4, 4, "seen by fallback"),
            on_line(11, 11, "expected closing bracket"),
            on_line(11, 11, "seen by val"),
        ]
    );
    assert_eq!(
        pass.feedback.decos,
        vec![
            Spanned::new(Decoration::ArgumentKey, span((2, 9), (2, 10))),
            Spanned::new(Decoration::InvalidFuncName, span((2, 5), (2, 7))),
            Spanned::new(Decoration::ValidFuncName, span((2, 12), (2, 15))),
        ]
    );
}
