//! The functions that a document may call.

use crate::feedback::Pass;
use crate::func::FuncHeader;
use crate::span::Spanned;
use vstd::prelude::*;

verus! {

/// A parser for the functions of a document. It turns the header of a
/// function and the text of its body into a model of its own kind, and reports
/// what it finds. Spans in its feedback are counted from the opening bracket
/// of the function.
pub trait ParseFunc: Sized {
    /// What a function is parsed into.
    type Model;

    /// Parse a function from its header and its body.
    fn parse(
        &self,
        header: FuncHeader,
        body: Option<Spanned<&str>>,
        ctx: ParseContext<'_, Self>,
    ) -> Pass<Self::Model>;
}

/// The registry of functions: a parser for each known name, and a fallback
/// parser for every other name.
pub struct Scope<P> {
    entries: Vec<(String, P)>,
    fallback: P,
}

/// The parsers that a run of registrations leaves: each name is bound to
/// the parser of its last registration.
pub open spec fn registered<P>(entries: Seq<(String, P)>) -> Map<Seq<char>, P>
    decreases entries.len(),
{
    if entries.len() == 0 {
        Map::empty()
    } else {
        registered(entries.drop_last()).insert(entries.last().0@, entries.last().1)
    }
}

/// A name that no entry from `from` on bears is bound as the entries before
/// `from` bind it.
proof fn lemma_registered_prefix<P>(entries: Seq<(String, P)>, from: int, name: Seq<char>)
    requires
        0 <= from <= entries.len(),
        forall|j: int| from <= j < entries.len() ==> (#[trigger] entries[j]).0@ != name,
    ensures
        registered(entries).contains_key(name) == registered(entries.take(from)).contains_key(name),
        registered(entries).contains_key(name) ==> registered(entries)[name] == registered(
            entries.take(from),
        )[name],
    decreases entries.len() - from,
{
    if from == entries.len() {
        assert(entries.take(from) =~= entries);
    } else {
        assert(entries.drop_last().take(from) =~= entries.take(from));
        lemma_registered_prefix(entries.drop_last(), from, name);
    }
}

impl<P> Scope<P> {
    /// The parser of each known name.
    pub closed spec fn parsers(&self) -> Map<Seq<char>, P> {
        registered(self.entries@)
    }

    /// The parser for every other name.
    pub closed spec fn fallback(&self) -> P {
        self.fallback
    }

    /// Whether a name is known.
    pub open spec fn knows(&self, name: Seq<char>) -> bool {
        self.parsers().contains_key(name)
    }

    /// Create a scope that knows no name, with its fallback parser.
    pub fn new(fallback: P) -> (scope: Scope<P>)
        ensures
            scope.parsers() == Map::<Seq<char>, P>::empty(),
            scope.fallback() == fallback,
    {
        Scope { entries: Vec::new(), fallback }
    }

    /// Bind a name to a parser. An earlier binding of the name is replaced.
    pub fn add(&mut self, name: &str, parser: P)
        ensures
            final(self).parsers() == old(self).parsers().insert(name@, parser),
            final(self).fallback() == old(self).fallback(),
    {
        self.entries.push((name.to_owned(), parser));
        assert(self.entries@.drop_last() =~= old(self).entries@);
    }

    /// The parser bound to a name, or, for an unknown name, the fallback
    /// parser as the error.
    pub fn get_parser(&self, name: &str) -> (found: Result<&P, &P>)
        ensures
            match found {
                Ok(parser) => self.knows(name@) && *parser == self.parsers()[name@],
                Err(parser) => !self.knows(name@) && *parser == self.fallback(),
            },
    {
        let key = name.to_owned();
        let mut i = self.entries.len();
        while i > 0
            invariant
                i <= self.entries.len(),
                key@ == name@,
                forall|j: int| i <= j < self.entries.len() ==> (#[trigger] self.entries@[j]).0@ != name@,
            decreases i,
        {
            i -= 1;
            if self.entries[i].0 == key {
                proof {
                    lemma_registered_prefix(self.entries@, i + 1, name@);
                    assert(self.entries@.take(i + 1).drop_last() =~= self.entries@.take(i as int));
                }
                return Ok(&self.entries[i].1);
            }
        }
        proof {
            lemma_registered_prefix(self.entries@, 0, name@);
            assert(self.entries@.take(0) =~= Seq::empty());
        }
        Err(&self.fallback)
    }

    /// The parser for unknown names and for headers without a name.
    pub fn get_fallback_parser(&self) -> (parser: &P)
        ensures
            *parser == self.fallback(),
    {
        &self.fallback
    }
}

/// The context for parsing.
pub struct ParseContext<'a, P> {
    /// The scope containing function definitions.
    pub scope: &'a Scope<P>,
}

impl<'a, P> Clone for ParseContext<'a, P> {
    fn clone(&self) -> (ctx: Self)
        ensures
            ctx == *self,
    {
        ParseContext { scope: self.scope }
    }
}

impl<'a, P> Copy for ParseContext<'a, P> {

}

} // verus!
