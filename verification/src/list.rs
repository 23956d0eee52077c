//! Lists of syntax-tree nodes.
//!
//! Source code consists almost entirely of implicit lists and their
//! elements: a record-type declaration is a list of type nodes, and a source
//! file is an implicit list of values to pack.

use vstd::prelude::*;

use crate::node::Node;

verus! {

/// An ordered list of nodes, together with a cached flag saying whether
/// every node in it is static.
#[derive(Debug)]
pub struct List {
    /// The nodes of the list, in order.
    pub nodes: Vec<Node>,
    /// Cached flag: do all nodes of the list claim to be static?
    pub is_static: bool,
}

impl List {
    /// The nodes of the list, in order.
    pub open spec fn spec_nodes(&self) -> Seq<Node> {
        self.nodes@
    }

    /// Do all nodes of the list claim to be static?
    pub open spec fn spec_all_static(&self) -> bool {
        forall|i: int| 0 <= i < self.nodes@.len() ==> (#[trigger] self.nodes@[i]).is_static
    }

    /// Well-formed: every node is well-formed and the cached flag agrees
    /// with the nodes.
    pub open spec fn wf(&self) -> bool
        decreases self,
    {
        &&& forall|i: int| 0 <= i < self.nodes@.len() ==> (#[trigger] self.nodes@[i]).wf()
        &&& self.is_static == self.spec_all_static()
    }

    /// An empty list; vacuously static.
    pub fn new() -> (l: List)
        ensures
            l.spec_nodes() == Seq::<Node>::empty(),
            l.wf(),
            l.is_static,
    {
        List { nodes: Vec::new(), is_static: true }
    }

    /// Append a node. A list stops being static as soon as one node in it
    /// is not static.
    pub fn push(&mut self, node: Node)
        requires
            old(self).wf(),
            node.wf(),
        ensures
            final(self).wf(),
            final(self).spec_nodes() == old(self).spec_nodes().push(node),
    {
        if !node.is_static {
            self.is_static = false;
        }
        self.nodes.push(node);
        proof {
            let olds = old(self).spec_nodes();
            let news = self.nodes@;
            assert forall|i: int| 0 <= i < news.len() implies (#[trigger] news[i]).wf() by {
                if i < olds.len() {
                    assert(news[i] == olds[i]);
                } else {
                    assert(news[i] == node);
                }
            }
            if self.is_static {
                assert forall|i: int| 0 <= i < news.len() implies (#[trigger] news[i]).is_static by {
                    if i < olds.len() {
                        assert(news[i] == olds[i]);
                    } else {
                        assert(news[i] == node);
                    }
                }
            } else {
                if node.is_static {
                    // the cached flag was already false, so some earlier
                    // node is not static
                    let j = choose|j: int| 0 <= j < olds.len() && !(#[trigger] olds[j]).is_static;
                    assert(news[j] == olds[j]);
                    assert(!self.spec_all_static());
                } else {
                    assert(news[news.len() - 1] == node);
                    assert(!self.spec_all_static());
                }
            }
        }
    }

    /// Does this list contain only static nodes? A static node is one that
    /// needs no external information to compute a value.
    pub fn is_static(&self) -> (b: bool)
        requires
            self.wf(),
        ensures
            b == self.spec_all_static(),
    {
        self.is_static
    }

    /// Number of nodes in the list.
    pub fn len(&self) -> (n: usize)
        ensures
            n == self.spec_nodes().len(),
    {
        self.nodes.len()
    }

    /// The node at the given position.
    pub fn get(&self, i: usize) -> (node: &Node)
        requires
            i < self.spec_nodes().len(),
        ensures
            *node == self.spec_nodes()[i as int],
    {
        &self.nodes[i]
    }
}

impl Default for List {
    /// The default list is empty.
    fn default() -> (l: Self)
        ensures
            l.spec_nodes() == Seq::<Node>::empty(),
            l.wf(),
    {
        List::new()
    }
}

} // verus!
