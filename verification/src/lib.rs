//! Parsing of markup into span-annotated syntax models.
//!
//! A document is text with markup and with functions in brackets:
//! `[name: arguments][body]`. [`parse`] cuts the text into [`Token`]s and
//! turns them into a [`SyntaxModel`]. It hands each function to the parser
//! that a [`Scope`] holds for its name, after [`parser::FuncParser`] has
//! read its header. Parsing never fails: whatever cannot be parsed is
//! reported in the [`Feedback`], with the span it is about, and the parse
//! goes on.
//!
//! Numbers and lengths are kept as they are written: nothing here computes
//! with them.
//!
//! What the tokenizer and the parser do is stated by mathematical functions
//! on the text: [`lexing`] defines the tokens of a text, [`grammar`] what the
//! tokens of a header stand for, and [`body`] what the tokens of a body
//! stand for. The executable code is proved to compute exactly that.
//! [`laws`] holds what follows for every input.

pub mod body;
pub mod bounds;
pub mod color;
pub mod escaping;
pub mod expr;
pub mod extent;
pub mod feedback;
pub mod func;
pub mod grammar;
pub mod laws;
pub mod lexing;
pub mod model;
pub mod parser;
pub mod parsing;
pub mod progress;
pub mod scope;
pub mod span;
pub mod tokenizer;
pub mod tokens;

pub use crate::color::{ParseColorError, RgbaColor};
pub use crate::escaping::{unescape_raw, unescape_string};
pub use crate::expr::{Expr, Ident, NamedTuple, Number, Object, Pair, Size, Tuple, Unit};
pub use crate::feedback::{Decoration, Feedback, Pass};
pub use crate::func::{FuncArg, FuncArgs, FuncHeader};
pub use crate::lexing::TokenizationMode;
pub use crate::model::{Node, SyntaxModel};
pub use crate::parsing::{parse, parse_tokens};
pub use crate::scope::{ParseContext, ParseFunc, Scope};
pub use crate::span::{Position, Span, Spanned};
pub use crate::tokenizer::{tokenize, Tokens};
pub use crate::tokens::Token;
