//! Syntax models: the trees that a parse produces.

use crate::span::Spanned;
use vstd::prelude::*;

verus! {

/// A node of a syntax model. `M` is what the functions of a document are
/// parsed into.
#[derive(Debug, PartialEq)]
pub enum Node<M> {
    /// Whitespace with at most one line ending.
    Space,
    /// Whitespace with two or more line endings: a new paragraph.
    Parbreak,
    /// A forced line break.
    Linebreak,
    /// Plain text.
    Text(String),
    /// Italics were switched on or off.
    ToggleItalic,
    /// Bolder was switched on or off.
    ToggleBolder,
    /// Raw text, line by line.
    Raw(Vec<String>),
    /// What a function was parsed into.
    Model(M),
}

/// The mathematical value of a [`Node`].
pub enum NodeView<M> {
    Space,
    Parbreak,
    Linebreak,
    Text(Seq<char>),
    ToggleItalic,
    ToggleBolder,
    Raw(Seq<Seq<char>>),
    Model(M),
}

impl<M> View for Node<M> {
    type V = NodeView<M>;

    open spec fn view(&self) -> NodeView<M> {
        match self {
            Node::Space => NodeView::Space,
            Node::Parbreak => NodeView::Parbreak,
            Node::Linebreak => NodeView::Linebreak,
            Node::Text(text) => NodeView::Text(text@),
            Node::ToggleItalic => NodeView::ToggleItalic,
            Node::ToggleBolder => NodeView::ToggleBolder,
            Node::Raw(lines) => NodeView::Raw(lines.deep_view()),
            Node::Model(model) => NodeView::Model(*model),
        }
    }
}

/// A sequence of nodes with their spans, in source order.
#[derive(Debug, PartialEq)]
pub struct SyntaxModel<M> {
    /// The nodes.
    pub nodes: Vec<Spanned<Node<M>>>,
}

impl<M> View for SyntaxModel<M> {
    type V = Seq<Spanned<NodeView<M>>>;

    open spec fn view(&self) -> Seq<Spanned<NodeView<M>>> {
        Seq::new(self.nodes@.len(), |i: int| self.nodes@[i]@)
    }
}

impl<M> SyntaxModel<M> {
    /// Create an empty model.
    pub fn new() -> (model: SyntaxModel<M>)
        ensures
            model@ == Seq::<Spanned<NodeView<M>>>::empty(),
    {
        let model = SyntaxModel { nodes: Vec::new() };
        assert(model@ =~= Seq::empty());
        model
    }

    /// Put a node at the end of the model.
    pub fn add(&mut self, node: Spanned<Node<M>>)
        ensures
            final(self)@ == old(self)@.push(node@),
    {
        self.nodes.push(node);
        assert(self@ =~= old(self)@.push(node@));
    }
}

} // verus!
