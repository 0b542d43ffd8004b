use markup_syntax::escaping::is_newline_char;
use markup_syntax::Decoration::{ArgumentKey, InvalidFuncName, ValidFuncName};
use markup_syntax::{
    parse, tokenize, Decoration, Expr, Feedback, FuncArgs, FuncHeader, Ident, NamedTuple, Node,
    Number, Object, Pair, ParseContext, ParseFunc, Pass, Position, RgbaColor, Scope, Size, Span,
    Spanned, SyntaxModel, Token, TokenizationMode, Tuple, Unit,
};

// ---------------------------------------------------------------------------
// The function that the tests parse every function into: it keeps the header
// and the parsed body for inspection.
// ---------------------------------------------------------------------------

#[derive(Debug, PartialEq)]
struct DebugFn {
    header: FuncHeader,
    body: Option<SyntaxModel<DebugFn>>,
}

struct DebugParser;

impl ParseFunc for DebugParser {
    type Model = DebugFn;

    fn parse(
        &self,
        header: FuncHeader,
        body: Option<Spanned<&str>>,
        ctx: ParseContext<'_, Self>,
    ) -> Pass<DebugFn> {
        let mut feedback = Feedback::new();
        let body = body.map(|body| {
            // The span of the body starts at its opening bracket.
            let start = Position::new(0, 1).offset(body.span.start);
            let parsed = parse(start, body.v, ctx);
            feedback.extend(parsed.feedback);
            parsed.output
        });
        Pass::new(DebugFn { header, body }, feedback)
    }
}

type N = Node<DebugFn>;

struct Parsed {
    nodes: Vec<Spanned<N>>,
    problems: Vec<Spanned<String>>,
    decos: Vec<Spanned<Decoration>>,
}

fn run(src: &str) -> Parsed {
    let mut scope = Scope::new(DebugParser);
    scope.add("f", DebugParser);
    scope.add("n", DebugParser);
    scope.add("box", DebugParser);
    scope.add("val", DebugParser);
    let ctx = ParseContext { scope: &scope };
    let pass = parse(Position::zero(), src, ctx);
    Parsed {
        nodes: pass.output.nodes,
        problems: pass.feedback.problems,
        decos: pass.feedback.decos,
    }
}

// ---------------------------------------------------------------------------
// Comparison without spans, and by the values of numbers and lengths: a
// literal is replaced by the shortest one of the same value, a length by
// its value in points.
// ---------------------------------------------------------------------------

fn number_of(value: f64) -> Number {
    Number { literal: value.to_string() }
}

fn size_of(points: f32) -> Size {
    Size { value: points.to_string(), unit: Unit::Pt }
}

fn points(size: &Size) -> f32 {
    let value: f32 = size.value.parse().expect("no number before the unit");
    match size.unit {
        Unit::Pt => value,
        Unit::Mm => 2.83465 * value,
        Unit::Cm => 28.3465 * value,
        Unit::In => 72.0 * value,
    }
}

fn strip_expr(expr: &mut Spanned<Expr>) {
    expr.span = Span::zero();
    strip_inner(&mut expr.v);
}

fn strip_tuple(tuple: &mut Tuple) {
    for item in tuple.items.iter_mut() {
        strip_expr(item);
    }
}

fn strip_object(object: &mut Object) {
    for pair in object.pairs.iter_mut() {
        pair.span = Span::zero();
        pair.v.key.span = Span::zero();
        strip_expr(&mut pair.v.value);
    }
}

fn strip_inner(expr: &mut Expr) {
    match expr {
        Expr::Number(number) => {
            *number = number_of(number.literal.parse().expect("no number"));
        }
        Expr::Size(size) => {
            *size = size_of(points(size));
        }
        Expr::Tuple(tuple) => strip_tuple(tuple),
        Expr::NamedTuple(named) => {
            named.name.span = Span::zero();
            named.tuple.span = Span::zero();
            strip_tuple(&mut named.tuple.v);
        }
        Expr::Object(object) => strip_object(object),
        Expr::Neg(a) => strip_expr(a),
        Expr::Add(a, b) | Expr::Sub(a, b) | Expr::Mul(a, b) | Expr::Div(a, b) => {
            strip_expr(a);
            strip_expr(b);
        }
        _ => {}
    }
}

fn strip_node(node: &mut Spanned<N>) {
    node.span = Span::zero();
    if let Node::Model(func) = &mut node.v {
        func.header.name.span = Span::zero();
        strip_tuple(&mut func.header.args.pos);
        strip_object(&mut func.header.args.key);
        if let Some(body) = &mut func.body {
            for inner in body.nodes.iter_mut() {
                strip_node(inner);
            }
        }
    }
}

fn stripped(mut nodes: Vec<Spanned<N>>) -> Vec<Spanned<N>> {
    for node in nodes.iter_mut() {
        strip_node(node);
    }
    nodes
}

// ---------------------------------------------------------------------------
// Expected values.
// ---------------------------------------------------------------------------

fn z<T>(v: T) -> Spanned<T> {
    Spanned::zero(v)
}

fn span(start: (usize, usize), end: (usize, usize)) -> Span {
    Span::new(Position::new(start.0, start.1), Position::new(end.0, end.1))
}

fn at<T>(start: (usize, usize), end: (usize, usize), v: T) -> Spanned<T> {
    Spanned::new(v, span(start, end))
}

fn err(start: (usize, usize), end: (usize, usize), message: &str) -> Spanned<String> {
    at(start, end, message.to_string())
}

fn ident(text: &str) -> Ident {
    Ident(text.to_string())
}

fn id(text: &str) -> Expr {
    Expr::Ident(ident(text))
}

fn st(text: &str) -> Expr {
    Expr::Str(text.to_string())
}

fn num(number: f64) -> Expr {
    Expr::Number(number_of(number))
}

fn size(points: f32) -> Expr {
    Expr::Size(size_of(points))
}

fn pt(points: f32) -> Expr {
    size(points)
}

fn mm(mm: f32) -> Expr {
    size(2.83465 * mm)
}

fn cm(cm: f32) -> Expr {
    size(28.3465 * cm)
}

fn inches(inches: f32) -> Expr {
    size(72.0 * inches)
}

fn boolean(b: bool) -> Expr {
    Expr::Bool(b)
}

fn color(r: u8, g: u8, b: u8, a: u8) -> Expr {
    Expr::Color(RgbaColor::new(r, g, b, a))
}

fn color_str(hex: &str) -> Expr {
    Expr::Color(RgbaColor::from_str(hex).expect("invalid test color"))
}

fn color_healed() -> Expr {
    Expr::Color(RgbaColor::new_healed(0, 0, 0, 255))
}

fn neg(a: Expr) -> Expr {
    Expr::Neg(Box::new(z(a)))
}

fn add(a: Expr, b: Expr) -> Expr {
    Expr::Add(Box::new(z(a)), Box::new(z(b)))
}

fn sub(a: Expr, b: Expr) -> Expr {
    Expr::Sub(Box::new(z(a)), Box::new(z(b)))
}

fn mul(a: Expr, b: Expr) -> Expr {
    Expr::Mul(Box::new(z(a)), Box::new(z(b)))
}

fn div(a: Expr, b: Expr) -> Expr {
    Expr::Div(Box::new(z(a)), Box::new(z(b)))
}

fn plain_tuple(items: Vec<Expr>) -> Tuple {
    Tuple { items: items.into_iter().map(z).collect() }
}

fn plain_object(pairs: Vec<(&str, Expr)>) -> Object {
    Object {
        pairs: pairs
            .into_iter()
            .map(|(key, value)| z(Pair { key: z(ident(key)), value: z(value) }))
            .collect(),
    }
}

fn tuple(items: Vec<Expr>) -> Expr {
    Expr::Tuple(plain_tuple(items))
}

fn named_tuple(name: &str, items: Vec<Expr>) -> Expr {
    Expr::NamedTuple(NamedTuple { name: z(ident(name)), tuple: z(plain_tuple(items)) })
}

fn object(pairs: Vec<(&str, Expr)>) -> Expr {
    Expr::Object(plain_object(pairs))
}

fn t(text: &str) -> N {
    Node::Text(text.to_string())
}

fn raw(lines: Vec<&str>) -> N {
    Node::Raw(lines.into_iter().map(|line| line.to_string()).collect())
}

fn model(nodes: Vec<N>) -> SyntaxModel<DebugFn> {
    SyntaxModel { nodes: nodes.into_iter().map(z).collect() }
}

/// A function with arguments and a body, all without spans.
fn func_full(
    name: &str,
    pos: Vec<Expr>,
    key: Vec<(&str, Expr)>,
    body: Option<Vec<N>>,
) -> N {
    Node::Model(DebugFn {
        header: FuncHeader {
            name: z(ident(name)),
            args: FuncArgs { pos: plain_tuple(pos), key: plain_object(key) },
        },
        body: body.map(model),
    })
}

/// A function without arguments and without a body.
fn func(name: &str) -> N {
    func_full(name, vec![], vec![], None)
}

/// A function with arguments.
fn func_args(name: &str, pos: Vec<Expr>, key: Vec<(&str, Expr)>) -> N {
    func_full(name, pos, key, None)
}

/// A function with a body.
fn func_body(name: &str, body: Vec<N>) -> N {
    func_full(name, vec![], vec![], Some(body))
}

/// A function without arguments, with the span of its name and the spans of
/// the nodes of its body.
fn func_spanned(name: Spanned<&str>, body: Option<Vec<Spanned<N>>>) -> N {
    Node::Model(DebugFn {
        header: FuncHeader {
            name: Spanned::new(ident(name.v), name.span),
            args: FuncArgs { pos: plain_tuple(vec![]), key: plain_object(vec![]) },
        },
        body: body.map(|nodes| SyntaxModel { nodes }),
    })
}

// ---------------------------------------------------------------------------
// Checks.
// ---------------------------------------------------------------------------

/// The source parses into the nodes, spans aside, without problems.
fn p(src: &str, nodes: Vec<N>) {
    pe(src, nodes, vec![]);
}

/// The source parses into the nodes, spans aside, with exactly the problems.
fn pe(src: &str, nodes: Vec<N>, problems: Vec<Spanned<String>>) {
    let parsed = run(src);
    let expected: Vec<Spanned<N>> = nodes.into_iter().map(z).collect();
    assert_eq!(stripped(parsed.nodes), expected, "nodes of {:?}", src);
    assert_eq!(parsed.problems, problems, "problems of {:?}", src);
}

/// The source parses into the nodes, spans aside, with exactly the problems
/// and the decorations.
fn ped(
    src: &str,
    nodes: Vec<N>,
    problems: Vec<Spanned<String>>,
    decos: Vec<Spanned<Decoration>>,
) {
    let parsed = run(src);
    let expected: Vec<Spanned<N>> = nodes.into_iter().map(z).collect();
    assert_eq!(stripped(parsed.nodes), expected, "nodes of {:?}", src);
    assert_eq!(parsed.problems, problems, "problems of {:?}", src);
    assert_eq!(parsed.decos, decos, "decorations of {:?}", src);
}

/// The source parses into the nodes with their spans, without problems.
fn ps(src: &str, nodes: Vec<Spanned<N>>) {
    let parsed = run(src);
    assert_eq!(parsed.nodes, nodes, "nodes of {:?}", src);
    assert_eq!(parsed.problems, vec![], "problems of {:?}", src);
}

/// The source parses into the nodes with their spans, with exactly the
/// problems and the decorations.
fn psed(
    src: &str,
    nodes: Vec<Spanned<N>>,
    problems: Vec<Spanned<String>>,
    decos: Vec<Spanned<Decoration>>,
) {
    let parsed = run(src);
    assert_eq!(parsed.nodes, nodes, "nodes of {:?}", src);
    assert_eq!(parsed.problems, problems, "problems of {:?}", src);
    assert_eq!(parsed.decos, decos, "decorations of {:?}", src);
}

/// The header `[val: <header>]` parses into the arguments, without problems.
fn pval(header: &str, pos: Vec<Expr>, key: Vec<(&str, Expr)>) {
    p(&format!("[val: {}]", header), vec![func_args("val", pos, key)]);
}

// ---------------------------------------------------------------------------
// Tests.
// ---------------------------------------------------------------------------


const S: N = Node::Space;
const BOLD: N = Node::ToggleBolder;
const ITALIC: N = Node::ToggleItalic;
const PARBREAK: N = Node::Parbreak;
const LINEBREAK: N = Node::Linebreak;

#[test]
fn parse_basic_nodes() {
    // Basic nodes.
    p("", vec![]);
    p("hi", vec![t("hi")]);
    p("*hi", vec![BOLD, t("hi")]);
    p("hi_", vec![t("hi"), ITALIC]);
    p("hi you", vec![t("hi"), S, t("you")]);
    p("hi// you\nw", vec![t("hi"), S, t("w")]);
    p("\n\n\nhello", vec![PARBREAK, t("hello")]);
    p("first//\n//\nsecond", vec![t("first"), S, S, t("second")]);
    p("first//\n \nsecond", vec![t("first"), PARBREAK, t("second")]);
    p("first/*\n \n*/second", vec![t("first"), t("second")]);
    p(r"a\ b", vec![t("a"), LINEBREAK, S, t("b")]);
    p("💜\n\n 🌍", vec![t("💜"), PARBREAK, t("🌍")]);

    // Raw markup.
    p("`py`", vec![raw(vec!["py"])]);
    p("[val][`hi]`]", vec![func_body("val", vec![raw(vec!["hi]"])])]);
    pe("`hi\nyou", vec![raw(vec!["hi", "you"])], vec![err((1, 3), (1, 3), "expected backtick")]);
    p("`hi\\`du`", vec![raw(vec!["hi`du"])]);

    // Spanned nodes.
    ps("Hi", vec![at((0, 0), (0, 2), t("Hi"))]);
    ps(
        "*Hi*",
        vec![at((0, 0), (0, 1), BOLD), at((0, 1), (0, 3), t("Hi")), at((0, 3), (0, 4), BOLD)],
    );
    psed(
        "🌎\n*/[n]",
        vec![
            at((0, 0), (0, 1), t("🌎")),
            at((0, 1), (1, 0), S),
            at((1, 2), (1, 5), func_spanned(at((0, 1), (0, 2), "n"), None)),
        ],
        vec![err((1, 0), (1, 2), "unexpected end of block comment")],
        vec![at((1, 3), (1, 4), ValidFuncName)],
    );
}

#[test]
fn parse_function_names() {
    // No closing bracket.
    pe(
        "[",
        vec![func("")],
        vec![
            err((0, 1), (0, 1), "expected identifier"),
            err((0, 1), (0, 1), "expected closing bracket"),
        ],
    );

    // No name.
    pe("[]", vec![func("")], vec![err((0, 1), (0, 1), "expected identifier")]);
    pe(
        "[\"]",
        vec![func("")],
        vec![
            err((0, 1), (0, 3), "expected identifier, found string"),
            err((0, 3), (0, 3), "expected closing bracket"),
        ],
    );

    // An unknown name.
    ped(
        "[hi]",
        vec![func("hi")],
        vec![err((0, 1), (0, 3), "unknown function")],
        vec![at((0, 1), (0, 3), InvalidFuncName)],
    );

    // A valid name.
    ped("[f]", vec![func("f")], vec![], vec![at((0, 1), (0, 2), ValidFuncName)]);
    ped("[  f]", vec![func("f")], vec![], vec![at((0, 3), (0, 4), ValidFuncName)]);

    // An invalid token for a name.
    ped(
        "[12]",
        vec![func("")],
        vec![err((0, 1), (0, 3), "expected identifier, found number")],
        vec![],
    );
    ped(
        "[🌎]",
        vec![func("")],
        vec![err((0, 1), (0, 2), "expected identifier, found invalid token")],
        vec![],
    );
    ped(
        "[  🌎]",
        vec![func("")],
        vec![err((0, 3), (0, 4), "expected identifier, found invalid token")],
        vec![],
    );
}

#[test]
fn parse_colon_starting_function_arguments() {
    // Valid.
    ped(
        "[val: true]",
        vec![func_args("val", vec![boolean(true)], vec![])],
        vec![],
        vec![at((0, 1), (0, 4), ValidFuncName)],
    );

    // No colon before arg.
    pe("[val\"s\"]", vec![func("val")], vec![err((0, 4), (0, 4), "expected colon")]);

    // No colon before valid, but wrong token.
    pe("[val=]", vec![func("val")], vec![err((0, 4), (0, 4), "expected colon")]);

    // No colon before invalid tokens, which are ignored.
    ped(
        "[val/🌎:$]",
        vec![func("val")],
        vec![err((0, 4), (0, 4), "expected colon")],
        vec![at((0, 1), (0, 4), ValidFuncName)],
    );

    // String in invalid header without colon still parsed as string.
    // Note: No "expected quote" error because not even the string was
    //       expected.
    pe(
        "[val/\"]",
        vec![func("val")],
        vec![
            err((0, 4), (0, 4), "expected colon"),
            err((0, 7), (0, 7), "expected closing bracket"),
        ],
    );

    // Just colon without args.
    p("[val:]", vec![func("val")]);
    p("[val:/*12pt*/]", vec![func("val")]);

    // Whitespace / comments around colon.
    p("[val\n:\ntrue]", vec![func_args("val", vec![boolean(true)], vec![])]);
    p("[val/*:*/://\ntrue]", vec![func_args("val", vec![boolean(true)], vec![])]);
}

#[test]
fn parse_one_positional_argument() {
    // Different expressions.
    pval("_", vec![id("_")], vec![]);
    pval("name", vec![id("name")], vec![]);
    pval("\"hi\"", vec![st("hi")], vec![]);
    pval("3.14", vec![num(3.14)], vec![]);
    pval("4.5cm", vec![cm(4.5)], vec![]);
    pval("12e1pt", vec![pt(12e1)], vec![]);
    pval("#f7a20500", vec![color_str("f7a20500")], vec![]);
    pval("\"a\n[]\\\"string\"", vec![st("a\n[]\"string")], vec![]);

    // Trailing comma.
    pval("a,", vec![id("a")], vec![]);

    // Simple coerced tuple.
    pval("(hi)", vec![id("hi")], vec![]);

    // Math.
    pval("3.2in + 6pt", vec![add(inches(3.2), pt(6.0))], vec![]);
    pval("5 - 0.01", vec![sub(num(5.0), num(0.01))], vec![]);
    pval("(3mm * 2)", vec![mul(mm(3.0), num(2.0))], vec![]);
    pval("12e-3cm/1pt", vec![div(cm(12e-3), pt(1.0))], vec![]);

    // Unclosed string.
    pe(
        "[val: \"hello]",
        vec![func_args("val", vec![st("hello]")], vec![])],
        vec![
            err((0, 13), (0, 13), "expected quote"),
            err((0, 13), (0, 13), "expected closing bracket"),
        ],
    );

    // Invalid, healed colors.
    pe(
        "[val: #12345]",
        vec![func_args("val", vec![color_healed()], vec![])],
        vec![err((0, 6), (0, 12), "invalid color")],
    );
    pe(
        "[val: #a5]",
        vec![func_args("val", vec![color_healed()], vec![])],
        vec![err((0, 6), (0, 9), "invalid color")],
    );
    pe(
        "[val: #14b2ah]",
        vec![func_args("val", vec![color_healed()], vec![])],
        vec![err((0, 6), (0, 13), "invalid color")],
    );
    pe(
        "[val: #f075ff011]",
        vec![func_args("val", vec![color_healed()], vec![])],
        vec![err((0, 6), (0, 16), "invalid color")],
    );
}

#[test]
fn parse_complex_mathematical_expressions() {
    // Valid expressions.
    pval(
        "(3.2in + 6pt)*(5/2-1)",
        vec![mul(add(inches(3.2), pt(6.0)), sub(div(num(5.0), num(2.0)), num(1.0)))],
        vec![],
    );
    pval(
        "(6.3E+2+4* - 3.2pt)/2",
        vec![div(add(num(6.3e2), mul(num(4.0), neg(pt(3.2)))), num(2.0))],
        vec![],
    );

    // Invalid expressions.
    pe(
        "[val: 4pt--]",
        vec![func_args("val", vec![pt(4.0)], vec![])],
        vec![
            err((0, 10), (0, 11), "dangling minus"),
            err((0, 6), (0, 10), "missing right summand"),
        ],
    );
    pe(
        "[val: 3mm+4pt*]",
        vec![func_args("val", vec![add(mm(3.0), pt(4.0))], vec![])],
        vec![err((0, 10), (0, 14), "missing right factor")],
    );
}

#[test]
fn parse_tuples() {
    // Empty tuple.
    pval("()", vec![tuple(vec![])], vec![]);
    pval("empty()", vec![named_tuple("empty", vec![])], vec![]);

    // Invalid value.
    pe(
        "[val: sound(\x07)]",
        vec![func_args("val", vec![named_tuple("sound", vec![])], vec![])],
        vec![err((0, 12), (0, 13), "expected value, found invalid token")],
    );

    // Invalid tuple name.
    pe(
        "[val: 👠(\"abc\", 13e-5)]",
        vec![func_args("val", vec![tuple(vec![st("abc"), num(13.0e-5)])], vec![])],
        vec![err((0, 6), (0, 7), "expected argument, found invalid token")],
    );

    // Unclosed tuple.
    pe(
        "[val: lang(中文]",
        vec![func_args("val", vec![named_tuple("lang", vec![id("中文")])], vec![])],
        vec![err((0, 13), (0, 13), "expected closing paren")],
    );

    // Valid values.
    pval("(1, 2)", vec![tuple(vec![num(1.0), num(2.0)])], vec![]);
    pval("(\"s\",)", vec![tuple(vec![st("s")])], vec![]);
    pval(
        "items(\"fire\", #f93a6d)",
        vec![named_tuple("items", vec![st("fire"), color_str("f93a6d")])],
        vec![],
    );

    // Nested tuples.
    pval(
        "css(1pt, rgb(90, 102, 254), \"solid\")",
        vec![named_tuple(
            "css",
            vec![
                pt(1.0),
                named_tuple("rgb", vec![num(90.0), num(102.0), num(254.0)]),
                st("solid"),
            ],
        )],
        vec![],
    );

    // Invalid commas.
    pe(
        "[val: (,)]",
        vec![func_args("val", vec![tuple(vec![])], vec![])],
        vec![err((0, 7), (0, 8), "expected value, found comma")],
    );
    pe(
        "[val: (true false)]",
        vec![func_args("val", vec![tuple(vec![boolean(true), boolean(false)])], vec![])],
        vec![err((0, 11), (0, 11), "expected comma")],
    );
}

fn val_with_empty_object() -> N {
    func_args("val", vec![object(vec![])], vec![])
}

#[test]
fn parse_objects() {
    // Okay objects.
    pval("{}", vec![object(vec![])], vec![]);
    pval("{ key: value }", vec![object(vec![("key", id("value"))])], vec![]);

    // Unclosed object.
    pe(
        "[val: {hello: world]",
        vec![func_args("val", vec![object(vec![("hello", id("world"))])], vec![])],
        vec![err((0, 19), (0, 19), "expected closing brace")],
    );
    pe(
        "[val: { a]",
        vec![func_args("val", vec![object(vec![])], vec![])],
        vec![
            err((0, 9), (0, 9), "expected colon"),
            err((0, 9), (0, 9), "expected closing brace"),
        ],
    );

    // Missing key.
    pe(
        "[val: {,}]",
        vec![val_with_empty_object()],
        vec![err((0, 7), (0, 8), "expected key, found comma")],
    );
    pe(
        "[val: { 12pt }]",
        vec![val_with_empty_object()],
        vec![err((0, 8), (0, 12), "expected key, found size")],
    );
    pe(
        "[val: { : }]",
        vec![val_with_empty_object()],
        vec![err((0, 8), (0, 9), "expected key, found colon")],
    );

    // Missing colon.
    pe(
        "[val: { key }]",
        vec![val_with_empty_object()],
        vec![err((0, 11), (0, 11), "expected colon")],
    );
    pe(
        "[val: { key false }]",
        vec![val_with_empty_object()],
        vec![
            err((0, 11), (0, 11), "expected colon"),
            err((0, 12), (0, 17), "expected key, found bool"),
        ],
    );
    pe(
        "[val: { a b:c }]",
        vec![func_args("val", vec![object(vec![("b", id("c"))])], vec![])],
        vec![err((0, 9), (0, 9), "expected colon")],
    );

    // Missing value.
    pe(
        "[val: { key: : }]",
        vec![val_with_empty_object()],
        vec![err((0, 13), (0, 14), "expected value, found colon")],
    );
    pe(
        "[val: { key: , k: \"s\" }]",
        vec![func_args("val", vec![object(vec![("k", st("s"))])], vec![])],
        vec![err((0, 13), (0, 14), "expected value, found comma")],
    );

    // Missing comma, invalid token.
    pe(
        "[val: left={ a: 2, b: false 🌎 }]",
        vec![func_args(
            "val",
            vec![],
            vec![("left", object(vec![("a", num(2.0)), ("b", boolean(false))]))],
        )],
        vec![
            err((0, 27), (0, 27), "expected comma"),
            err((0, 28), (0, 29), "expected key, found invalid token"),
        ],
    );
}

#[test]
fn parse_nested_tuples_and_objects() {
    pval(
        "(1, { ab: (), d: (3, 14pt) }), false",
        vec![
            tuple(vec![
                num(1.0),
                object(vec![("ab", tuple(vec![])), ("d", tuple(vec![num(3.0), pt(14.0)]))]),
            ]),
            boolean(false),
        ],
        vec![],
    );
}

#[test]
fn parse_one_keyword_argument() {
    // Correct
    ped(
        "[val: x=true]",
        vec![func_args("val", vec![], vec![("x", boolean(true))])],
        vec![],
        vec![at((0, 6), (0, 7), ArgumentKey), at((0, 1), (0, 4), ValidFuncName)],
    );

    // Spacing around keyword arguments
    ped(
        "\n [val: \n hi \n = /* //\n */ \"s\n\"]",
        vec![S, func_args("val", vec![], vec![("hi", st("s\n"))])],
        vec![],
        vec![at((2, 1), (2, 3), ArgumentKey), at((1, 2), (1, 5), ValidFuncName)],
    );

    // Missing value
    ped(
        "[val: x=]",
        vec![func("val")],
        vec![err((0, 8), (0, 8), "expected value")],
        vec![at((0, 6), (0, 7), ArgumentKey), at((0, 1), (0, 4), ValidFuncName)],
    );
}

#[test]
fn parse_multiple_mixed_arguments() {
    ped(
        "[val: 12pt, key=value]",
        vec![func_args("val", vec![pt(12.0)], vec![("key", id("value"))])],
        vec![],
        vec![at((0, 12), (0, 15), ArgumentKey), at((0, 1), (0, 4), ValidFuncName)],
    );
    pval("a , x=\"b\" , c", vec![id("a"), id("c")], vec![("x", st("b"))]);
}

#[test]
fn parse_invalid_values() {
    pe(
        "[val: )]",
        vec![func("val")],
        vec![err((0, 6), (0, 7), "expected argument, found closing paren")],
    );
    pe(
        "[val: }]",
        vec![func("val")],
        vec![err((0, 6), (0, 7), "expected argument, found closing brace")],
    );
    pe("[val: :]", vec![func("val")], vec![err((0, 6), (0, 7), "expected argument, found colon")]);
    pe("[val: ,]", vec![func("val")], vec![err((0, 6), (0, 7), "expected argument, found comma")]);
    pe(
        "[val: =]",
        vec![func("val")],
        vec![err((0, 6), (0, 7), "expected argument, found equals sign")],
    );
    pe(
        "[val: 🌎]",
        vec![func("val")],
        vec![err((0, 6), (0, 7), "expected argument, found invalid token")],
    );
    pe(
        "[val: 12ept]",
        vec![func("val")],
        vec![err((0, 6), (0, 11), "expected argument, found invalid token")],
    );
    ped(
        "[val: [hi]]",
        vec![func("val")],
        vec![err((0, 6), (0, 10), "expected argument, found function")],
        vec![at((0, 1), (0, 4), ValidFuncName)],
    );
}

#[test]
fn parse_invalid_key_value_pairs() {
    // Invalid keys.
    ped(
        "[val: true=you]",
        vec![func_args("val", vec![boolean(true), id("you")], vec![])],
        vec![
            err((0, 10), (0, 10), "expected comma"),
            err((0, 10), (0, 11), "expected argument, found equals sign"),
        ],
        vec![at((0, 1), (0, 4), ValidFuncName)],
    );

    // Unexpected equals.
    pe(
        "[box: z=y=4]",
        vec![func_args("box", vec![num(4.0)], vec![("z", id("y"))])],
        vec![
            err((0, 9), (0, 9), "expected comma"),
            err((0, 9), (0, 10), "expected argument, found equals sign"),
        ],
    );

    // Invalid colon after keyable positional argument.
    ped(
        "[val: key:12]",
        vec![func_args("val", vec![id("key"), num(12.0)], vec![])],
        vec![
            err((0, 9), (0, 9), "expected comma"),
            err((0, 9), (0, 10), "expected argument, found colon"),
        ],
        vec![at((0, 1), (0, 4), ValidFuncName)],
    );

    // Invalid colon after unkeyable positional argument.
    ped(
        "[val: true:12]",
        vec![func_args("val", vec![boolean(true), num(12.0)], vec![])],
        vec![
            err((0, 10), (0, 10), "expected comma"),
            err((0, 10), (0, 11), "expected argument, found colon"),
        ],
        vec![at((0, 1), (0, 4), ValidFuncName)],
    );
}

#[test]
fn parse_invalid_commas() {
    // Missing commas.
    pe(
        "[val: 1pt 1]",
        vec![func_args("val", vec![pt(1.0), num(1.0)], vec![])],
        vec![err((0, 9), (0, 9), "expected comma")],
    );
    pe(
        r#"[val: _"s"]"#,
        vec![func_args("val", vec![id("_"), st("s")], vec![])],
        vec![err((0, 7), (0, 7), "expected comma")],
    );

    // Unexpected commas.
    pe("[val:,]", vec![func("val")], vec![err((0, 5), (0, 6), "expected argument, found comma")]);
    pe(
        "[val: key=,]",
        vec![func("val")],
        vec![err((0, 10), (0, 11), "expected value, found comma")],
    );
    pe(
        "[val:, true]",
        vec![func_args("val", vec![boolean(true)], vec![])],
        vec![err((0, 5), (0, 6), "expected argument, found comma")],
    );
}

#[test]
fn parse_bodies() {
    p("[val][Hi]", vec![func_body("val", vec![t("Hi")])]);
    pe(
        "[val:*][*Hi*]",
        vec![func_body("val", vec![BOLD, t("Hi"), BOLD])],
        vec![err((0, 5), (0, 6), "expected argument, found star")],
    );
    // Errors in bodies.
    pe(
        " [val][ */ ]",
        vec![S, func_body("val", vec![S, S])],
        vec![err((0, 8), (0, 10), "unexpected end of block comment")],
    );
}

#[test]
fn parse_spanned_functions() {
    // Space before function
    psed(
        " [val]",
        vec![
            at((0, 0), (0, 1), S),
            at((0, 1), (0, 6), func_spanned(at((0, 1), (0, 4), "val"), None)),
        ],
        vec![],
        vec![at((0, 2), (0, 5), ValidFuncName)],
    );

    // Newline before function
    psed(
        " \n\r\n[val]",
        vec![
            at((0, 0), (2, 0), PARBREAK),
            at((2, 0), (2, 5), func_spanned(at((0, 1), (0, 4), "val"), None)),
        ],
        vec![],
        vec![at((2, 1), (2, 4), ValidFuncName)],
    );

    // Content before function
    psed(
        "hello [val][world] 🌎",
        vec![
            at((0, 0), (0, 5), t("hello")),
            at((0, 5), (0, 6), S),
            at(
                (0, 6),
                (0, 18),
                func_spanned(
                    at((0, 1), (0, 4), "val"),
                    Some(vec![at((0, 6), (0, 11), t("world"))]),
                ),
            ),
            at((0, 18), (0, 19), S),
            at((0, 19), (0, 20), t("🌎")),
        ],
        vec![],
        vec![at((0, 7), (0, 10), ValidFuncName)],
    );

    // Nested function
    psed(
        " [val][\nbody[ box]\n ]",
        vec![
            at((0, 0), (0, 1), S),
            at(
                (0, 1),
                (2, 2),
                func_spanned(
                    at((0, 1), (0, 4), "val"),
                    Some(vec![
                        at((0, 6), (1, 0), S),
                        at((1, 0), (1, 4), t("body")),
                        at((1, 4), (1, 10), func_spanned(at((0, 2), (0, 5), "box"), None)),
                        at((1, 10), (2, 1), S),
                    ]),
                ),
            ),
        ],
        vec![],
        vec![at((0, 2), (0, 5), ValidFuncName), at((1, 6), (1, 9), ValidFuncName)],
    );
}

#[test]
fn parse_color_strings() {
    assert_eq!(color(0xf6, 0x12, 0x43, 0xff), color_str("f61243ff"));
    assert_eq!(color(0xb3, 0xd8, 0xb3, 0xff), color_str("b3d8b3"));
    assert_eq!(color(0xfc, 0xd2, 0xa9, 0xad), color_str("fCd2a9AD"));
    assert_eq!(color(0x22, 0x33, 0x33, 0xff), color_str("233"));
    assert_eq!(color(0x11, 0x11, 0x11, 0xbb), color_str("111b"));
}

// ---------------------------------------------------------------------------
// Properties on samples.
// ---------------------------------------------------------------------------

const SAMPLES: [&str; 28] = [
    "",
    "hi you",
    "[",
    "[]",
    "[\"]",
    "[hi]",
    "[val: 4pt--]",
    "[val: #12345]",
    "[val: (,)]",
    "[val: (true false)]",
    "[val: {hello: world]",
    "[val: { a]",
    "[val: left={ a: 2, b: false 🌎 }]",
    "[val: lang(中文]",
    "[val: \"hello]",
    "`hi\nyou",
    "🌎\n*/[n]",
    " [val][ */ ]",
    "\n [val: \n hi \n = /* //\n */ \"s\n\"]",
    " [val][\nbody[ box]\n ]",
    "[val:*][*Hi*]",
    "a\r\nb [f: (((] c",
    "[val: 1 +\n\n 2 *\n]\n\n[val: -]",
    "[box][[box][[hi: x=][`]]]",
    "]]]] */ */ [[[[",
    "[val: a=(b=c), {d: e=f}, g(h: i)]",
    "text [val: k=1, k=2, 3][inner [val: never closed",
    "[val: { a: 1,, b: }, (,,), +, 1 2 3]",
];

fn end_of(src: &str) -> Position {
    let mut line: usize = 0;
    let mut column: usize = 0;
    let mut chars = src.chars().peekable();
    while let Some(c) = chars.next() {
        if is_newline_char(c) && !(c == '\r' && chars.peek() == Some(&'\n')) {
            line += 1;
            column = 0;
        } else {
            column += 1;
        }
    }
    Position::new(line, column)
}

fn within(span: Span, end: Position) -> bool {
    span.start.le(span.end) && span.end.le(end)
}

#[test]
fn diagnostics_stay_within_the_source() {
    for src in SAMPLES {
        let parsed = run(src);
        let end = end_of(src);
        for problem in parsed.problems.iter() {
            assert!(within(problem.span, end), "{:?} in {:?}", problem, src);
        }
        for deco in parsed.decos.iter() {
            assert!(within(deco.span, end), "{:?} in {:?}", deco, src);
        }
        for node in parsed.nodes.iter() {
            assert!(within(node.span, end), "{:?} in {:?}", node, src);
        }
    }
}

#[test]
fn every_function_becomes_one_model() {
    // The nodes of a body are as many as its tokens that are neither
    // comments nor unexpected; each unexpected token is reported.
    for src in SAMPLES {
        let tokens = tokenize(Position::zero(), src, TokenizationMode::Body);
        let functions = tokens.iter().filter(|t| matches!(t.v, Token::Function { .. })).count();
        let dropped = tokens
            .iter()
            .filter(|t| matches!(t.v, Token::LineComment(_) | Token::BlockComment(_) | Token::Invalid(_)))
            .count();
        let parsed = run(src);
        let models = parsed.nodes.iter().filter(|n| matches!(n.v, Node::Model(_))).count();
        assert_eq!(models, functions, "{:?}", src);
        assert_eq!(parsed.nodes.len(), tokens.len() - dropped, "{:?}", src);
    }
}

#[test]
fn text_without_markup_is_segmented() {
    ps(
        "hello  world\n\nnext\tone\r\n.",
        vec![
            at((0, 0), (0, 5), t("hello")),
            at((0, 5), (0, 7), S),
            at((0, 7), (0, 12), t("world")),
            at((0, 12), (2, 0), PARBREAK),
            at((2, 0), (2, 4), t("next")),
            at((2, 4), (2, 5), S),
            at((2, 5), (2, 8), t("one")),
            at((2, 8), (3, 0), S),
            at((3, 0), (3, 1), t(".")),
        ],
    );
    assert_eq!(run("hello  world\n\nnext\tone\r\n.").decos, vec![]);
}

#[test]
fn trailing_commas_in_tuples() {
    pval("(1, 2,)", vec![tuple(vec![num(1.0), num(2.0)])], vec![]);
    pval("(1, 2)", vec![tuple(vec![num(1.0), num(2.0)])], vec![]);
    pval("(1)", vec![num(1.0)], vec![]);
    pval("(1,)", vec![tuple(vec![num(1.0)])], vec![]);
    pval("((1))", vec![num(1.0)], vec![]);
    pval("((1,))", vec![tuple(vec![num(1.0)])], vec![]);
    pval("((1),)", vec![tuple(vec![num(1.0)])], vec![]);
    pval("( (a + b) )", vec![add(id("a"), id("b"))], vec![]);
    pval("{ a: 1, }", vec![object(vec![("a", num(1.0))])], vec![]);
}

#[test]
fn subtraction_and_division_lean_to_the_right() {
    pval("(a - b - c)", vec![sub(id("a"), sub(id("b"), id("c")))], vec![]);
    pval("1 / 2 / 3", vec![div(num(1.0), div(num(2.0), num(3.0)))], vec![]);
    pval("(a - b + c)", vec![sub(id("a"), add(id("b"), id("c")))], vec![]);
    pval("(a * b - c / d)", vec![sub(mul(id("a"), id("b")), div(id("c"), id("d")))], vec![]);
    pval("-a * -(b)", vec![mul(neg(id("a")), neg(id("b")))], vec![]);
}

#[test]
fn an_argument_that_begins_with_a_name_is_that_name() {
    // A name at the beginning of an argument is a key, the name of a tuple
    // or the whole argument: an operator behind it begins the next one.
    pe(
        "[val: a - b]",
        vec![func_args("val", vec![id("a"), neg(id("b"))], vec![])],
        vec![err((0, 7), (0, 7), "expected comma")],
    );
    pval("k = a - b", vec![], vec![("k", sub(id("a"), id("b")))]);
}

#[test]
fn keys_may_repeat() {
    pval(
        "k=1, k=2, 3",
        vec![num(3.0)],
        vec![("k", num(1.0)), ("k", num(2.0))],
    );
}

#[test]
fn text_without_brackets_reports_only_stray_comment_ends() {
    // Style markers, comments and lone slashes are no problems.
    for src in ["*a_ b", "a // b\nc", "a /* b */ c", "a/b / c", "/", "a * b _ c /* never closed"] {
        let parsed = run(src);
        assert_eq!(parsed.problems, vec![], "{:?}", src);
        assert_eq!(parsed.decos, vec![], "{:?}", src);
    }
    // The end of a comment that was never opened is one, each time.
    pe(
        "a*/b */ // */\n*/",
        vec![t("a"), t("b"), S, S, S],
        vec![
            err((0, 1), (0, 3), "unexpected end of block comment"),
            err((0, 5), (0, 7), "unexpected end of block comment"),
            err((1, 0), (1, 2), "unexpected end of block comment"),
        ],
    );
    p("*a_/b", vec![BOLD, t("a"), ITALIC, t("/b")]);
}
