//! Function headers and their arguments.

use crate::expr::{Expr, ExprView, Ident, Object, ObjectView, Pair, PairView, Tuple, TupleView};
use crate::span::Spanned;
use vstd::prelude::*;

verus! {

/// One argument of a function: a positional value or a key with its value.
/// The items of every comma-separated collection are delivered in this form.
#[derive(Debug, PartialEq)]
pub enum FuncArg {
    /// A positional argument.
    Pos(Expr),
    /// A keyword argument.
    Key(Pair),
}

/// The mathematical value of a [`FuncArg`].
pub enum FuncArgView {
    Pos(ExprView),
    Key(PairView),
}

impl View for FuncArg {
    type V = FuncArgView;

    open spec fn view(&self) -> FuncArgView {
        match self {
            FuncArg::Pos(e) => FuncArgView::Pos(e@),
            FuncArg::Key(p) => FuncArgView::Key(p@),
        }
    }
}

/// The arguments of a function: the positional ones in order, and the keyword
/// ones in order. A key may occur more than once; which occurrence counts is
/// for the function to decide.
#[derive(Debug, PartialEq)]
pub struct FuncArgs {
    /// The positional arguments.
    pub pos: Tuple,
    /// The keyword arguments.
    pub key: Object,
}

/// The mathematical value of a [`FuncArgs`].
pub struct FuncArgsView {
    pub pos: TupleView,
    pub key: ObjectView,
}

impl FuncArgsView {
    /// No arguments.
    pub open spec fn empty() -> FuncArgsView {
        FuncArgsView {
            pos: TupleView { items: Seq::empty() },
            key: ObjectView { pairs: Seq::empty() },
        }
    }

    /// The arguments with one more: a positional one goes to the end of the
    /// positional arguments, a keyword one to the end of the keyword arguments.
    pub open spec fn add(self, arg: Spanned<FuncArgView>) -> FuncArgsView {
        match arg.v {
            FuncArgView::Pos(e) => FuncArgsView {
                pos: TupleView { items: self.pos.items.push(Spanned { v: e, span: arg.span }) },
                key: self.key,
            },
            FuncArgView::Key(p) => FuncArgsView {
                pos: self.pos,
                key: ObjectView { pairs: self.key.pairs.push(Spanned { v: p, span: arg.span }) },
            },
        }
    }
}

impl View for FuncArgs {
    type V = FuncArgsView;

    open spec fn view(&self) -> FuncArgsView {
        FuncArgsView { pos: self.pos@, key: self.key@ }
    }
}

impl Tuple {
    /// Create an empty tuple.
    pub fn new() -> (tuple: Tuple)
        ensures
            tuple@.items == Seq::<Spanned<ExprView>>::empty(),
    {
        let tuple = Tuple { items: Vec::new() };
        assert(tuple@.items =~= Seq::empty());
        tuple
    }

    /// Put an item at the end.
    pub fn add(&mut self, item: Spanned<Expr>)
        ensures
            final(self)@.items == old(self)@.items.push(item@),
    {
        self.items.push(item);
        assert(self@.items =~= old(self)@.items.push(item@));
    }
}

impl Object {
    /// Create an empty object.
    pub fn new() -> (object: Object)
        ensures
            object@.pairs == Seq::<Spanned<PairView>>::empty(),
    {
        let object = Object { pairs: Vec::new() };
        assert(object@.pairs =~= Seq::empty());
        object
    }

    /// Put a pair at the end.
    pub fn add(&mut self, pair: Spanned<Pair>)
        ensures
            final(self)@.pairs == old(self)@.pairs.push(pair@),
    {
        self.pairs.push(pair);
        assert(self@.pairs =~= old(self)@.pairs.push(pair@));
    }
}

impl FuncArgs {
    /// Create an empty argument list.
    pub fn new() -> (args: FuncArgs)
        ensures
            args@ == FuncArgsView::empty(),
    {
        FuncArgs { pos: Tuple::new(), key: Object::new() }
    }

    /// Add an argument.
    pub fn add(&mut self, arg: Spanned<FuncArg>)
        ensures
            final(self)@ == old(self)@.add(arg@),
    {
        match arg.v {
            FuncArg::Pos(item) => self.pos.add(Spanned::new(item, arg.span)),
            FuncArg::Key(pair) => self.key.add(Spanned::new(pair, arg.span)),
        }
    }
}

/// The header of a function: its name and its arguments.
#[derive(Debug, PartialEq)]
pub struct FuncHeader {
    /// The name, with its span in the header.
    pub name: Spanned<Ident>,
    /// The arguments behind the colon.
    pub args: FuncArgs,
}

/// The mathematical value of a [`FuncHeader`].
pub struct FuncHeaderView {
    pub name: Spanned<Seq<char>>,
    pub args: FuncArgsView,
}

impl View for FuncHeader {
    type V = FuncHeaderView;

    open spec fn view(&self) -> FuncHeaderView {
        FuncHeaderView { name: self.name@, args: self.args@ }
    }
}

} // verus!
