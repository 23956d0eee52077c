//! The compilation-unit aggregate: the atoms a source file defines and the
//! data tables packed from it. Symbols not defined in the file are imports,
//! to be linked against other objects in a later, out-of-scope phase.

use vstd::prelude::*;

use crate::error::{ParseError, ParseErrorKind};
use crate::node::{Node, NodeKind};
use crate::table::Table;
use crate::token::Token;

verus! {

/// An Atom definition: a unique, valueless symbol exported by an object,
/// used for things like machine register names.
#[derive(Debug)]
pub struct Atom {
    /// The name of the Atom; its whole identity.
    pub name: String,
    /// A reference back to the source code where the Atom was defined,
    /// for diagnostics.
    pub token: Option<Token>,
}

impl Atom {
    /// Create a new Atom; only the name is required.
    pub fn new(name: &str) -> (a: Atom)
        ensures
            a.name@ == name@,
            a.token is None,
    {
        Atom { name: name.to_owned(), token: None }
    }
}

/// The partially compiled representation of one source file: its Atom
/// definitions and its packed data tables.
#[derive(Debug)]
pub struct Object {
    /// The Atoms the unit defines, each name unique, insertion order kept
    /// but without meaning.
    pub atoms: Vec<Atom>,
    /// The data tables packed from the unit's statements, in order.
    pub tables: Vec<Table>,
}

impl Object {
    /// Does the object already define an Atom of this name?
    pub open spec fn spec_has_atom(&self, name: Seq<char>) -> bool {
        exists|i: int| 0 <= i < self.atoms@.len() && (#[trigger] self.atoms@[i]).name@ == name
    }

    /// Well-formed: no two Atoms share a name.
    pub open spec fn wf(&self) -> bool {
        forall|i: int, j: int| 0 <= i < j < self.atoms@.len()
            ==> (#[trigger] self.atoms@[i]).name@ != (#[trigger] self.atoms@[j]).name@
    }

    /// An empty object: no atoms, no tables.
    pub fn new() -> (o: Object)
        ensures
            o.wf(),
            o.atoms@ == Seq::<Atom>::empty(),
            o.tables@ == Seq::<Table>::empty(),
    {
        Object { atoms: Vec::new(), tables: Vec::new() }
    }

    /// Define a new Atom from an atom-definition node, storing it in the
    /// object's symbol pool. Returns `None` on success; defining an Atom
    /// whose name already exists fails with `Duplicate` and leaves the
    /// existing entry — and the whole pool — untouched.
    pub fn new_atom(&mut self, node: &Node) -> (e: Option<ParseError>)
        requires
            old(self).wf(),
            node.kind is DefAtom,
        ensures
            final(self).wf(),
            final(self).tables@ == old(self).tables@,
            e is Some <==> old(self).spec_has_atom(node.kind->DefAtom_0@),
            e matches Some(err) ==> err.0 is Duplicate && *final(self) == *old(self),
            e is None ==> ({
                &&& final(self).atoms@.len() == old(self).atoms@.len() + 1
                &&& final(self).atoms@.subrange(0, old(self).atoms@.len() as int)
                    == old(self).atoms@
                &&& final(self).atoms@.last().name@ == node.kind->DefAtom_0@
                &&& final(self).atoms@.last().token == node.token
            }),
    {
        let name: &String = match &node.kind {
            NodeKind::DefAtom(s) => s,
            _ => {
                return Some(ParseError(ParseErrorKind::Unexpected));
            },
        };
        let n = self.atoms.len();
        let mut i: usize = 0;
        while i < n
            invariant
                old(self).wf(),
                *self == *old(self),
                *name == node.kind->DefAtom_0,
                n == self.atoms@.len(),
                0 <= i <= n,
                forall|j: int| 0 <= j < i ==> (#[trigger] self.atoms@[j]).name@ != name@,
            decreases n - i,
        {
            if self.atoms[i].name == *name {
                proof {
                    assert((#[trigger] old(self).atoms@[i as int]).name@
                        == node.kind->DefAtom_0@);
                    assert forall|a: int, b: int| 0 <= a < b < self.atoms@.len() implies
                        (#[trigger] self.atoms@[a]).name@
                            != (#[trigger] self.atoms@[b]).name@ by {
                        assert(self.atoms@[a] == old(self).atoms@[a]);
                        assert(self.atoms@[b] == old(self).atoms@[b]);
                        assert(0 <= a < b < old(self).atoms@.len());
                        assert((#[trigger] old(self).atoms@[a]).name@
                            != (#[trigger] old(self).atoms@[b]).name@);
                    }
                }
                return Some(ParseError(ParseErrorKind::Duplicate));
            }
            i = i + 1;
        }
        let token = match &node.token {
            Some(t) => Some(t.clone()),
            None => None,
        };
        let atom = Atom { name: name.clone(), token };
        self.atoms.push(atom);
        proof {
            let olds = old(self).atoms@;
            let news = self.atoms@;
            assert(news.subrange(0, olds.len() as int) =~= olds);
            assert forall|a: int, b: int| 0 <= a < b < news.len() implies
                (#[trigger] news[a]).name@ != (#[trigger] news[b]).name@ by {
                if b < olds.len() {
                    assert(news[a] == olds[a] && news[b] == olds[b]);
                } else {
                    assert(news[a] == olds[a]);
                    assert(news[b].name@ == name@);
                }
            }
        }
        None
    }
}

impl Default for Object {
    /// The default object is empty.
    fn default() -> (o: Self)
        ensures
            o.wf(),
            o.atoms@ == Seq::<Atom>::empty(),
            o.tables@ == Seq::<Table>::empty(),
    {
        Object::new()
    }
}

} // verus!
