//! The syntax-tree node: the core representation of source code.
//!
//! The tree is made up of nodes where each node is one top-level statement
//! and may contain descendants: expressions hold two sub-nodes, record-type
//! declarations and lists hold a list of nodes.

use vstd::prelude::*;

use crate::error::{ParseError, ParseErrorKind, ParseResult};
use crate::expr::Expr;
use crate::list::List;
use crate::ptype::PType;
use crate::token::{Token, TokenKind};

verus! {

/// A literal value carried by a value node.
#[derive(Clone, Copy, Debug, PartialEq, Eq, Structural)]
pub enum Value {
    /// A signed integer literal, from a decimal number.
    Int(i32),
    /// An unsigned literal, as used by hexadecimal and binary numbers to
    /// represent raw values of up to 32 bits.
    UInt(u32),
}

/// What a node is: a statement, a value, or a container of other nodes.
#[derive(Debug)]
pub enum NodeKind {
    /// An empty node.
    Void,
    /// An Atom definition: defines a new Atom and exports it.
    DefAtom(String),
    /// A primitive type name.
    Primitive(PType),
    /// The name of a user-defined record type, kept unresolved: the type it
    /// refers to may be defined later or in another compilation unit.
    StructName(String),
    /// A record-type declaration. Nested struct names cannot be resolved at
    /// parse time, so the declaration is kept as a list of type nodes and
    /// resolved into a record type in a later pass.
    Record(Box<List>),
    /// A list of nodes.
    List(Box<List>),
    /// An expression: a calculation over two sub-nodes.
    Expr(Box<Expr>),
    /// An Atom reference.
    Atom(String),
    /// A Macro invocation.
    Macro(String),
    /// A string literal. Strings are self-contained lists and are not
    /// treated as expression values.
    Str(String),
    /// A literal value.
    Value(Value),
}

/// One node of the syntax tree: its kind, an optional reference back to the
/// token it came from (for diagnostics), and whether it is static.
#[derive(Debug)]
pub struct Node {
    /// What the node is. This can contain nested nodes.
    pub kind: NodeKind,
    /// The token the node was built from, when there is a single one.
    pub token: Option<Token>,
    /// A node is static when it and all its descendants hold only literal
    /// values, so its value needs no outside information.
    pub is_static: bool,
}

impl NodeKind {
    /// Does the cached `is_static` flag of every node below this kind agree
    /// with the node structure?
    pub open spec fn wf(&self) -> bool
        decreases self,
    {
        match self {
            NodeKind::Record(l) => l.wf(),
            NodeKind::List(l) => l.wf(),
            NodeKind::Expr(x) => x.left.wf() && x.right.wf(),
            _ => true,
        }
    }

    /// Whether a node of this kind is static: literal values, strings and
    /// type names need no resolution; atom and macro references always do;
    /// an expression is static exactly when both its operands are.
    pub open spec fn spec_static(&self) -> bool {
        match self {
            NodeKind::Void => true,
            NodeKind::DefAtom(_) => true,
            NodeKind::Primitive(_) => true,
            NodeKind::StructName(_) => false,
            NodeKind::Record(_) => false,
            NodeKind::List(l) => l.spec_all_static(),
            NodeKind::Expr(x) => x.left.is_static && x.right.is_static,
            NodeKind::Atom(_) => false,
            NodeKind::Macro(_) => false,
            NodeKind::Str(_) => true,
            NodeKind::Value(_) => true,
        }
    }
}

impl Node {
    /// Well-formed: the cached `is_static` flag agrees with the node's
    /// structure, here and in every descendant.
    pub open spec fn wf(&self) -> bool
        decreases self,
    {
        self.kind.wf() && self.is_static == self.kind.spec_static()
    }

    /// The node a token converts to; meaningful when `spec_node_ok` holds
    /// of the token.
    pub open spec fn spec_from_token(token: Token) -> Node {
        Node {
            kind: match token.spec_kind() {
                TokenKind::Primitive(p) => NodeKind::Primitive(p),
                TokenKind::Struct(s) => NodeKind::StructName(s),
                TokenKind::Int(i) => NodeKind::Value(Value::Int(i)),
                TokenKind::Hex(h) => NodeKind::Value(Value::UInt(h)),
                TokenKind::Bin(b) => NodeKind::Value(Value::UInt(b)),
                TokenKind::Atom(s) => NodeKind::Atom(s),
                _ => NodeKind::Macro(token.text),
            },
            token: Some(token),
            is_static: token.spec_is_static(),
        }
    }

    /// Convert a token into a node: type names, number literals, atom names
    /// and macro names translate; number literals are decoded. Fails with
    /// `ParseInt` when a number's text does not denote a value of its type,
    /// and with `Unexpected` for any other kind of token.
    pub fn from_token(token: Token) -> (r: ParseResult<Node>)
        ensures
            r is Ok <==> token.spec_node_ok(),
            r is Ok ==> r->Ok_0 == Node::spec_from_token(token),
            r is Ok ==> r->Ok_0.wf(),
            r is Err ==> (r->Err_0.0 is ParseInt <==> token.spec_is_number()),
            r is Err ==> (r->Err_0.0 is Unexpected <==> !token.spec_is_number()),
    {
        let is_static = token.is_static();
        let kind = match token.kind() {
            Ok(TokenKind::Primitive(p)) => NodeKind::Primitive(p),
            Ok(TokenKind::Struct(s)) => NodeKind::StructName(s),
            Ok(TokenKind::Int(i)) => NodeKind::Value(Value::Int(i)),
            Ok(TokenKind::Hex(h)) => NodeKind::Value(Value::UInt(h)),
            Ok(TokenKind::Bin(b)) => NodeKind::Value(Value::UInt(b)),
            Ok(TokenKind::Atom(s)) => NodeKind::Atom(s),
            Ok(TokenKind::Macro(s)) => NodeKind::Macro(s),
            Ok(_) => {
                return Err(ParseError(ParseErrorKind::Unexpected));
            },
            Err(e) => {
                return Err(e);
            },
        };
        Ok(Node { kind, token: Some(token), is_static })
    }

    /// Combine two nodes into an expression node. The node's source-code
    /// reference is the operator's token; the expression is static exactly
    /// when both sides are.
    pub fn new_expr(left: Node, oper: Token, right: Node) -> (n: Node)
        requires
            oper.spec_is_oper(),
            left.wf(),
            right.wf(),
        ensures
            n.wf(),
            n.is_static == (left.is_static && right.is_static),
            n.kind matches NodeKind::Expr(x) && x.left == left && x.right == right
                && x.oper == oper.spec_operator(),
            n.token == Some(oper),
    {
        let is_static = left.is_static && right.is_static;
        let expr = Expr::new(left, &oper, right);
        Node { is_static, kind: NodeKind::Expr(Box::new(expr)), token: Some(oper) }
    }

    /// A node that defines a new Atom. There is no single token that does
    /// this ("atom A" is a keyword then a name), so the definition cannot be
    /// converted straight from a token: the stored reference is the Atom
    /// name's token, not the keyword's.
    pub fn new_atom(atom: Token) -> (n: Node)
        ensures
            n.wf(),
            n.is_static,
            n.kind matches NodeKind::DefAtom(s) && s == atom.text,
            n.token == Some(atom),
    {
        let name = atom.text.clone();
        Node { kind: NodeKind::DefAtom(name), token: Some(atom), is_static: true }
    }

    /// A node that declares a record type, holding the unresolved list of
    /// type nodes. The items of the list keep their own token references;
    /// the declaration itself needs none.
    pub fn new_record(list: List) -> (n: Node)
        requires
            list.wf(),
        ensures
            n.wf(),
            !n.is_static,
            n.kind matches NodeKind::Record(l) && *l == list,
            n.token is None,
    {
        Node { kind: NodeKind::Record(Box::new(list)), token: None, is_static: false }
    }

    /// Does this node carry data to pack: a literal value, an expression,
    /// or a string?
    pub fn is_data(&self) -> (b: bool)
        ensures
            b == (self.kind is Value || self.kind is Expr || self.kind is Str),
    {
        match self.kind {
            NodeKind::Value(_) | NodeKind::Expr(_) | NodeKind::Str(_) => true,
            _ => false,
        }
    }

    /// Is this node a record-type declaration?
    pub fn is_record(&self) -> (b: bool)
        ensures
            b == (self.kind is Record),
    {
        match self.kind {
            NodeKind::Record(_) => true,
            _ => false,
        }
    }

    /// Is this node an Atom definition?
    pub fn is_atom_def(&self) -> (b: bool)
        ensures
            b == (self.kind is DefAtom),
    {
        match self.kind {
            NodeKind::DefAtom(_) => true,
            _ => false,
        }
    }

    /// Is this node an Atom reference?
    pub fn is_atom(&self) -> (b: bool)
        ensures
            b == (self.kind is Atom),
    {
        match self.kind {
            NodeKind::Atom(_) => true,
            _ => false,
        }
    }

    /// Is this node a Macro invocation?
    pub fn is_macro(&self) -> (b: bool)
        ensures
            b == (self.kind is Macro),
    {
        match self.kind {
            NodeKind::Macro(_) => true,
            _ => false,
        }
    }
}

impl Token {
    /// Does this token convert to a node? Type names, atom names and macro
    /// names always do; number literals must decode.
    pub open spec fn spec_node_ok(&self) -> bool {
        &&& (self.spec_is_type() || self.spec_is_expr() || self.spec_is_macro())
        &&& self.spec_kind_ok()
    }
}

impl Default for Node {
    /// The default node is empty and static.
    fn default() -> (n: Self)
        ensures
            n.wf(),
            n.kind is Void,
            n.token is None,
            n.is_static,
    {
        Node { kind: NodeKind::Void, token: None, is_static: true }
    }
}

/// Law (static propagation): in a well-formed node, an expression is
/// static exactly when both its operands are; a bare literal value or
/// string is always static; an atom or macro reference is never static.
pub proof fn lemma_static_propagation(n: Node)
    requires
        n.wf(),
    ensures
        n.kind matches NodeKind::Expr(x)
            ==> (n.is_static <==> (x.left.is_static && x.right.is_static)),
        n.kind is Value ==> n.is_static,
        n.kind is Str ==> n.is_static,
        n.kind is Atom ==> !n.is_static,
        n.kind is Macro ==> !n.is_static,
{
}

} // verus!
