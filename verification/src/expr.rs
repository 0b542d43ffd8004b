//! Expressions in function headers.

use crate::color::RgbaColor;
use crate::span::Spanned;
use vstd::prelude::*;

verus! {

/// A number as it is written in the source, such as `6.3E+2` or `-.5`.
/// The parser carries numbers through and never computes with them, so a
/// number is held as its literal.
#[derive(Debug, PartialEq, Eq, Hash)]
pub struct Number {
    /// The literal of the number.
    pub literal: String,
}

impl View for Number {
    type V = Seq<char>;

    open spec fn view(&self) -> Seq<char> {
        self.literal@
    }
}

impl Clone for Number {
    fn clone(&self) -> (copy: Self)
        ensures
            copy@ == self@,
    {
        Number { literal: self.literal.clone() }
    }
}

/// A unit of length.
#[derive(Clone, Copy, Debug, PartialEq, Eq, Hash, Structural)]
pub enum Unit {
    /// Points: `pt`.
    Pt,
    /// Millimeters: `mm`.
    Mm,
    /// Centimeters: `cm`.
    Cm,
    /// Inches: `in`.
    In,
}

/// A length as it is written in the source, such as `12.5pt`: the literal
/// of a number and a unit.
#[derive(Debug, PartialEq, Eq, Hash)]
pub struct Size {
    /// The literal of the number before the unit.
    pub value: String,
    /// The unit.
    pub unit: Unit,
}

/// The mathematical value of a [`Size`].
pub struct SizeView {
    pub value: Seq<char>,
    pub unit: Unit,
}

impl View for Size {
    type V = SizeView;

    open spec fn view(&self) -> SizeView {
        SizeView { value: self.value@, unit: self.unit }
    }
}

impl Clone for Size {
    fn clone(&self) -> (copy: Self)
        ensures
            copy@ == self@,
    {
        Size { value: self.value.clone(), unit: self.unit }
    }
}

/// An identifier.
#[derive(Debug, PartialEq, Eq, Hash)]
pub struct Ident(pub String);

impl Clone for Ident {
    fn clone(&self) -> (copy: Self)
        ensures
            copy@ == self@,
    {
        Ident(self.0.clone())
    }
}

impl View for Ident {
    type V = Seq<char>;

    open spec fn view(&self) -> Seq<char> {
        self.0@
    }
}

impl Ident {
    /// Create an identifier from its text.
    pub fn new(text: String) -> (ident: Ident)
        ensures
            ident@ == text@,
    {
        Ident(text)
    }

    /// The text of the identifier.
    pub fn as_str(&self) -> (text: &str)
        ensures
            text@ == self@,
    {
        self.0.as_str()
    }
}

/// An expression.
#[derive(Debug, PartialEq)]
pub enum Expr {
    /// A name.
    Ident(Ident),
    /// A string literal, unescaped.
    Str(String),
    /// A number.
    Number(Number),
    /// A length.
    Size(Size),
    /// A truth value.
    Bool(bool),
    /// A color.
    Color(RgbaColor),
    /// A parenthesized list of expressions.
    Tuple(Tuple),
    /// A tuple behind a name: `rgb(1, 2, 3)`.
    NamedTuple(NamedTuple),
    /// A list of key-value pairs in braces.
    Object(Object),
    /// A negation.
    Neg(Box<Spanned<Expr>>),
    /// A sum.
    Add(Box<Spanned<Expr>>, Box<Spanned<Expr>>),
    /// A difference.
    Sub(Box<Spanned<Expr>>, Box<Spanned<Expr>>),
    /// A product.
    Mul(Box<Spanned<Expr>>, Box<Spanned<Expr>>),
    /// A quotient.
    Div(Box<Spanned<Expr>>, Box<Spanned<Expr>>),
}

/// An ordered list of expressions.
#[derive(Debug, PartialEq)]
pub struct Tuple {
    /// The items, in source order.
    pub items: Vec<Spanned<Expr>>,
}

/// A tuple with a name in front.
#[derive(Debug, PartialEq)]
pub struct NamedTuple {
    /// The name.
    pub name: Spanned<Ident>,
    /// The tuple behind the name.
    pub tuple: Spanned<Tuple>,
}

/// An ordered list of key-value pairs. A key may occur more than once.
#[derive(Debug, PartialEq)]
pub struct Object {
    /// The pairs, in source order.
    pub pairs: Vec<Spanned<Pair>>,
}

/// A key with its value.
#[derive(Debug, PartialEq)]
pub struct Pair {
    /// The key.
    pub key: Spanned<Ident>,
    /// The value.
    pub value: Spanned<Expr>,
}

/// The mathematical value of an [`Expr`].
pub enum ExprView {
    Ident(Seq<char>),
    Str(Seq<char>),
    Number(Seq<char>),
    Size(SizeView),
    Bool(bool),
    Color(RgbaColor),
    Tuple(TupleView),
    NamedTuple(NamedTupleView),
    Object(ObjectView),
    Neg(Box<Spanned<ExprView>>),
    Add(Box<Spanned<ExprView>>, Box<Spanned<ExprView>>),
    Sub(Box<Spanned<ExprView>>, Box<Spanned<ExprView>>),
    Mul(Box<Spanned<ExprView>>, Box<Spanned<ExprView>>),
    Div(Box<Spanned<ExprView>>, Box<Spanned<ExprView>>),
}

/// The mathematical value of a [`Tuple`].
pub struct TupleView {
    pub items: Seq<Spanned<ExprView>>,
}

/// The mathematical value of a [`NamedTuple`].
pub struct NamedTupleView {
    pub name: Spanned<Seq<char>>,
    pub tuple: Spanned<TupleView>,
}

/// The mathematical value of an [`Object`].
pub struct ObjectView {
    pub pairs: Seq<Spanned<PairView>>,
}

/// The mathematical value of a [`Pair`].
pub struct PairView {
    pub key: Spanned<Seq<char>>,
    pub value: Spanned<ExprView>,
}

/// The view of an expression with its span.
pub open spec fn spanned_expr_view(e: Spanned<Expr>) -> Spanned<ExprView>
    decreases e, 1int,
{
    Spanned { v: expr_view(e.v), span: e.span }
}

/// The view of an expression: strings become character sequences, vectors
/// become sequences.
pub open spec fn expr_view(e: Expr) -> ExprView
    decreases e, 0int,
{
    match e {
        Expr::Ident(i) => ExprView::Ident(i@),
        Expr::Str(s) => ExprView::Str(s@),
        Expr::Number(n) => ExprView::Number(n@),
        Expr::Size(s) => ExprView::Size(s@),
        Expr::Bool(b) => ExprView::Bool(b),
        Expr::Color(c) => ExprView::Color(c),
        Expr::Tuple(t) => ExprView::Tuple(tuple_view(t)),
        Expr::NamedTuple(t) => ExprView::NamedTuple(
            NamedTupleView {
                name: t.name@,
                tuple: Spanned { v: tuple_view(t.tuple.v), span: t.tuple.span },
            },
        ),
        Expr::Object(o) => ExprView::Object(object_view(o)),
        Expr::Neg(a) => ExprView::Neg(Box::new(spanned_expr_view(*a))),
        Expr::Add(a, b) => ExprView::Add(
            Box::new(spanned_expr_view(*a)),
            Box::new(spanned_expr_view(*b)),
        ),
        Expr::Sub(a, b) => ExprView::Sub(
            Box::new(spanned_expr_view(*a)),
            Box::new(spanned_expr_view(*b)),
        ),
        Expr::Mul(a, b) => ExprView::Mul(
            Box::new(spanned_expr_view(*a)),
            Box::new(spanned_expr_view(*b)),
        ),
        Expr::Div(a, b) => ExprView::Div(
            Box::new(spanned_expr_view(*a)),
            Box::new(spanned_expr_view(*b)),
        ),
    }
}

/// The view of a tuple, item by item.
pub open spec fn tuple_view(t: Tuple) -> TupleView
    decreases t, 0int,
{
    TupleView {
        items: Seq::new(
            t.items.len() as nat,
            |i: int|
                if 0 <= i < t.items.len() {
                    spanned_expr_view(t.items[i])
                } else {
                    arbitrary()
                },
        ),
    }
}

/// The view of a pair.
pub open spec fn pair_view(p: Pair) -> PairView
    decreases p, 2int,
{
    PairView { key: p.key@, value: spanned_expr_view(p.value) }
}

/// The view of an object, pair by pair.
pub open spec fn object_view(o: Object) -> ObjectView
    decreases o, 0int,
{
    ObjectView {
        pairs: Seq::new(
            o.pairs.len() as nat,
            |i: int|
                if 0 <= i < o.pairs.len() {
                    Spanned { v: pair_view(o.pairs[i].v), span: o.pairs[i].span }
                } else {
                    arbitrary()
                },
        ),
    }
}

impl View for Expr {
    type V = ExprView;

    open spec fn view(&self) -> ExprView {
        expr_view(*self)
    }
}

impl View for Tuple {
    type V = TupleView;

    open spec fn view(&self) -> TupleView {
        tuple_view(*self)
    }
}

impl View for NamedTuple {
    type V = NamedTupleView;

    open spec fn view(&self) -> NamedTupleView {
        NamedTupleView { name: self.name@, tuple: self.tuple@ }
    }
}

impl View for Pair {
    type V = PairView;

    open spec fn view(&self) -> PairView {
        pair_view(*self)
    }
}

impl View for Object {
    type V = ObjectView;

    open spec fn view(&self) -> ObjectView {
        object_view(*self)
    }
}

} // verus!
