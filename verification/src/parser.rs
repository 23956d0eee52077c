//! The recursive-descent parser: turns a stream of tokens into
//! syntax-tree nodes, one statement at a time.
//!
//! What each statement parses to is pinned down by the specification
//! functions below ([`spec_statement`] and its helpers); the executable
//! parser is proved to produce exactly that.

use vstd::prelude::*;

use crate::error::{ParseError, ParseErrorKind, ParseResult};
use crate::expr::Expr;
use crate::list::List;
use crate::node::{Node, NodeKind};
use crate::token::Token;

verus! {

/// What parsing one statement yields: a node, an unresolved record-type
/// declaration (given by its list of type nodes), a failure, or "not
/// recognized" — the token does not begin a statement this parser
/// understands, and the caller decides whether that is an error.
pub enum Parsed {
    /// The token does not begin a statement; it is consumed.
    NotRecognized,
    /// A statement node.
    Stmt(Node),
    /// A record-type declaration: the type nodes of the list, in order.
    Record(Seq<Node>),
    /// The statement is malformed; parsing it stopped with this error.
    Failed(ParseErrorKind),
}

/// The end of the contiguous run of type tokens starting at `i`: the first
/// position at or after `i` that is not a type token.
pub open spec fn spec_type_run_end(ts: Seq<Token>, i: int) -> int
    decreases ts.len() - i,
{
    if i < ts.len() && ts[i].spec_is_type() {
        spec_type_run_end(ts, i + 1)
    } else {
        i
    }
}

/// The node that extends an expression by one operator and one value:
/// the built expression becomes the left-hand side, the node's source
/// reference is the operator's token, and the result is static exactly
/// when both sides are.
pub open spec fn spec_expr_node(left: Node, op: Token, val: Token) -> Node {
    Node {
        kind: NodeKind::Expr(
            Box::new(Expr { left, oper: op.spec_operator(), right: Node::spec_from_token(val) }),
        ),
        token: Some(op),
        is_static: left.is_static && val.spec_is_static(),
    }
}

/// Continue an expression whose parsed left-hand side is `left`, the last
/// consumed token standing at `v`. While an operator follows directly, one
/// more value is required after it: the stream ending there is `EndOfFile`,
/// a non-value token is `Unexpected`, and a number that does not decode is
/// `ParseInt`. Chaining is left-associative: the expression built so far
/// becomes the left operand of the next operator.
pub open spec fn spec_expr_chain(ts: Seq<Token>, left: Node, v: int) -> (Parsed, int)
    decreases ts.len() - v,
{
    if v + 1 >= ts.len() || !ts[v + 1].spec_is_oper() {
        (Parsed::Stmt(left), v + 1)
    } else if v + 2 >= ts.len() {
        (Parsed::Failed(ParseErrorKind::EndOfFile), ts.len() as int)
    } else if !ts[v + 2].spec_is_expr() {
        (Parsed::Failed(ParseErrorKind::Unexpected), v + 3)
    } else if !ts[v + 2].spec_node_ok() {
        (Parsed::Failed(ParseErrorKind::ParseInt), v + 3)
    } else {
        spec_expr_chain(ts, spec_expr_node(left, ts[v + 1], ts[v + 2]), v + 2)
    }
}

/// What the statement beginning at token `i` parses to, and the position of
/// the first token after it. Dispatch order: keywords, record-type
/// declarations, macro invocations, expressions; any other token is not
/// recognized and consumed.
pub open spec fn spec_statement(ts: Seq<Token>, i: int) -> (Parsed, int)
    recommends
        0 <= i < ts.len(),
{
    let t = ts[i];
    if t.spec_is_keyword_atom() {
        // an atom definition: the next token must be an atom name
        if i + 1 >= ts.len() {
            (Parsed::Failed(ParseErrorKind::EndOfFile), ts.len() as int)
        } else if ts[i + 1].spec_is_atom() {
            (
                Parsed::Stmt(
                    Node { kind: NodeKind::DefAtom(ts[i + 1].text), token: Some(ts[i + 1]), is_static: true },
                ),
                i + 2,
            )
        } else {
            (Parsed::Failed(ParseErrorKind::Unexpected), i + 2)
        }
    } else if t.spec_is_keyword_macro() {
        // macro definitions are recognised but not supported yet
        (Parsed::Failed(ParseErrorKind::Unimplemented), i + 1)
    } else if t.spec_is_type() {
        // a record type: the contiguous run of type tokens, one node each
        let j = spec_type_run_end(ts, i);
        (Parsed::Record(Seq::new((j - i) as nat, |k: int| Node::spec_from_token(ts[i + k]))), j)
    } else if t.spec_is_macro() {
        (Parsed::Stmt(Node::spec_from_token(t)), i + 1)
    } else if t.spec_is_expr() {
        if !t.spec_node_ok() {
            (Parsed::Failed(ParseErrorKind::ParseInt), i + 1)
        } else if i + 1 >= ts.len() || !ts[i + 1].spec_is_oper() {
            // a single value rather than an expression
            (Parsed::Stmt(Node::spec_from_token(t)), i + 1)
        } else {
            spec_expr_chain(ts, Node::spec_from_token(t), i)
        }
    } else {
        (Parsed::NotRecognized, i + 1)
    }
}

/// The recursive-descent parser over a token stream. Crank it with
/// [`Parser::parse_statement`] until [`Parser::is_eof`] and it spits out
/// syntax-tree nodes.
#[derive(Debug)]
pub struct Parser {
    /// The token stream being parsed.
    pub tokens: Vec<Token>,
    /// Position of the next unconsumed token.
    pub index: usize,
}

impl Parser {
    /// Well-formed: the cursor never passes the end of the stream.
    pub open spec fn wf(&self) -> bool {
        self.index <= self.tokens@.len()
    }

    /// Has the whole stream been consumed?
    pub open spec fn spec_at_eof(&self) -> bool {
        self.index >= self.tokens@.len()
    }

    /// A parser positioned at the start of the given token stream.
    pub fn from_tokens(tokens: Vec<Token>) -> (p: Parser)
        ensures
            p.wf(),
            p.tokens@ == tokens@,
            p.index == 0,
    {
        Parser { tokens, index: 0 }
    }

    /// Has the whole stream been consumed?
    pub fn is_eof(&self) -> (b: bool)
        ensures
            b == self.spec_at_eof(),
    {
        self.index >= self.tokens.len()
    }

    /// Consume and return the current token.
    fn take(&mut self) -> (t: Token)
        requires
            old(self).index < old(self).tokens@.len(),
        ensures
            final(self).tokens@ == old(self).tokens@,
            final(self).index == old(self).index + 1,
            t == old(self).tokens@[old(self).index as int],
    {
        let n = self.tokens.len();
        let t = self.tokens[self.index].clone();
        self.index = self.index + 1;
        t
    }

    /// Parse one statement: dispatches, in order, to keyword handling,
    /// record-type handling, macro invocations, then expressions. Returns a
    /// produced node, `None` when the consumed token does not begin a
    /// statement this parser understands (the caller decides whether that
    /// is an error), or the statement's error. Exactly what is produced,
    /// consumed and reported is given by [`spec_statement`].
    pub fn parse_statement(&mut self) -> (r: ParseResult<Option<Node>>)
        requires
            old(self).wf(),
            !old(self).spec_at_eof(),
        ensures
            final(self).wf(),
            final(self).tokens@ == old(self).tokens@,
            final(self).index == spec_statement(old(self).tokens@, old(self).index as int).1,
            ({
                let p = spec_statement(old(self).tokens@, old(self).index as int).0;
                match p {
                    Parsed::NotRecognized => r == Ok::<Option<Node>, ParseError>(None),
                    Parsed::Stmt(n) => r == Ok::<Option<Node>, ParseError>(Some(n)) && n.wf(),
                    Parsed::Record(nodes) => r matches Ok(Some(n)) && n.wf() && !n.is_static
                        && n.token is None
                        && (n.kind matches NodeKind::Record(l) && l.nodes@ == nodes && l.wf()),
                    Parsed::Failed(k) => r matches Err(e) && e.0 == k,
                }
            }),
    {
        let ghost ts = self.tokens@;
        let ghost i0 = self.index as int;
        let token = self.take();
        if token.is_keyword_atom() {
            if self.index >= self.tokens.len() {
                // "atom" begins a definition; the stream ends mid-construct
                return Err(ParseError(ParseErrorKind::EndOfFile));
            }
            let name = self.take();
            if !name.is_atom() {
                // the token after the keyword must be an atom name, not any
                // kind of expression or macro that might return one
                return Err(ParseError(ParseErrorKind::Unexpected));
            }
            let node = Node::new_atom(name);
            proof {
                assert(node == spec_statement(ts, i0).0->Stmt_0);
            }
            return Ok(Some(node));
        }
        if token.is_keyword_macro() {
            return Err(ParseError(ParseErrorKind::Unimplemented));
        }
        if token.is_type() {
            return self.parse_record_type(token, Ghost(ts), Ghost(i0));
        }
        if token.is_macro() {
            let node = match Node::from_token(token) {
                Ok(n) => n,
                Err(e) => {
                    return Err(e);
                },
            };
            return Ok(Some(node));
        }
        if token.is_expr() {
            return self.parse_expr(token, Ghost(ts), Ghost(i0));
        }
        Ok(None)
    }

    /// Parse a record-type declaration: greedily consume every contiguous
    /// type token into an ordered list of type nodes, stopping at the first
    /// non-type token or the end of the stream. Nested struct names are not
    /// resolved here — they may be defined in other compilation units — so
    /// the list is kept for a later resolution pass.
    fn parse_record_type(&mut self, token: Token, ts: Ghost<Seq<Token>>, i0: Ghost<int>) -> (r:
        ParseResult<Option<Node>>)
        requires
            old(self).wf(),
            old(self).tokens@ == ts@,
            0 <= i0@ < ts@.len(),
            old(self).index == i0@ + 1,
            token == ts@[i0@],
            token.spec_is_type(),
        ensures
            final(self).wf(),
            final(self).tokens@ == ts@,
            final(self).index == spec_statement(ts@, i0@).1,
            ({
                let p = spec_statement(ts@, i0@).0;
                p matches Parsed::Record(nodes) && r matches Ok(Some(n)) && n.wf()
                    && !n.is_static && n.token is None
                    && (n.kind matches NodeKind::Record(l) && l.nodes@ == nodes && l.wf())
            }),
    {
        let mut list = List::new();
        let first = match Node::from_token(token) {
            Ok(n) => n,
            Err(e) => {
                return Err(e);
            },
        };
        list.push(first);
        proof {
            assert(list.spec_nodes() =~= Seq::new(
                (self.index - i0@) as nat,
                |k: int| Node::spec_from_token(ts@[i0@ + k]),
            ));
        }
        while self.index < self.tokens.len() && self.tokens[self.index].is_type()
            invariant
                self.wf(),
                self.tokens@ == ts@,
                0 <= i0@ < self.index <= ts@.len(),
                forall|k: int| i0@ <= k < self.index ==> (#[trigger] ts@[k]).spec_is_type(),
                list.wf(),
                list.spec_nodes() == Seq::new(
                    (self.index - i0@) as nat,
                    |k: int| Node::spec_from_token(ts@[i0@ + k]),
                ),
                spec_type_run_end(ts@, i0@) == spec_type_run_end(ts@, self.index as int),
            decreases ts@.len() - self.index,
        {
            let t = self.take();
            let n = match Node::from_token(t) {
                Ok(n) => n,
                Err(e) => {
                    return Err(e);
                },
            };
            list.push(n);
            proof {
                assert(list.spec_nodes() =~= Seq::new(
                    (self.index - i0@) as nat,
                    |k: int| Node::spec_from_token(ts@[i0@ + k]),
                ));
            }
        }
        proof {
            assert(spec_type_run_end(ts@, self.index as int) == self.index);
            assert(list.spec_nodes() =~= spec_statement(ts@, i0@).0->Record_0);
        }
        Ok(Some(Node::new_record(list)))
    }

    /// Parse an expression beginning with the given value token. A bare
    /// value not followed by an operator stays a value node; otherwise the
    /// expression chains left-associatively while operators follow.
    fn parse_expr(&mut self, token: Token, ts: Ghost<Seq<Token>>, i0: Ghost<int>) -> (r:
        ParseResult<Option<Node>>)
        requires
            old(self).wf(),
            old(self).tokens@ == ts@,
            0 <= i0@ < ts@.len(),
            old(self).index == i0@ + 1,
            token == ts@[i0@],
            token.spec_is_expr(),
        ensures
            final(self).wf(),
            final(self).tokens@ == ts@,
            final(self).index == spec_statement(ts@, i0@).1,
            ({
                let p = spec_statement(ts@, i0@).0;
                match p {
                    Parsed::Stmt(n) => r == Ok::<Option<Node>, ParseError>(Some(n)) && n.wf(),
                    Parsed::Failed(k) => r matches Err(e) && e.0 == k,
                    _ => false,
                }
            }),
    {
        // the opening token is the inner-most, left-most value
        let left0 = match Node::from_token(token) {
            Ok(n) => n,
            Err(e) => {
                return Err(e);
            },
        };
        if self.index >= self.tokens.len() || !self.tokens[self.index].is_oper() {
            // a single value rather than an expression: no expression node
            return Ok(Some(left0));
        }
        let mut left = left0;
        let ghost start = spec_expr_chain(ts@, left0, i0@);
        proof {
            assert(start == spec_statement(ts@, i0@));
        }
        while self.index < self.tokens.len() && self.tokens[self.index].is_oper()
            invariant
                self.wf(),
                self.tokens@ == ts@,
                0 <= i0@ < self.index <= ts@.len(),
                left.wf(),
                spec_expr_chain(ts@, left, self.index - 1) == start,
                start == spec_statement(ts@, i0@),
            decreases ts@.len() - self.index,
        {
            let ghost v = self.index - 1;
            let ghost prev = left;
            let oper = self.take();
            if self.index >= self.tokens.len() {
                // an operator with no value following it, at end of stream
                return Err(ParseError(ParseErrorKind::EndOfFile));
            }
            let val = self.take();
            if !val.is_expr() {
                // an operator with no value following it, e.g. "1 + +"
                return Err(ParseError(ParseErrorKind::Unexpected));
            }
            let right = match Node::from_token(val) {
                Ok(n) => n,
                Err(e) => {
                    return Err(e);
                },
            };
            left = Node::new_expr(left, oper, right);
            proof {
                assert(left == spec_expr_node(prev, ts@[v + 1], ts@[v + 2]));
                assert(spec_expr_chain(ts@, prev, v) == spec_expr_chain(ts@, left, v + 2));
            }
        }
        proof {
            assert(spec_expr_chain(ts@, left, self.index - 1)
                == (Parsed::Stmt(left), self.index as int));
        }
        Ok(Some(left))
    }
}

/// The end of a type run lies between its start and the end of the stream.
pub proof fn lemma_type_run_end_bounds(ts: Seq<Token>, i: int)
    requires
        0 <= i <= ts.len(),
    ensures
        i <= spec_type_run_end(ts, i) <= ts.len(),
    decreases ts.len() - i,
{
    if i < ts.len() && ts[i].spec_is_type() {
        lemma_type_run_end_bounds(ts, i + 1);
    }
}

/// Continuing an expression consumes at least one more token and never
/// passes the end of the stream.
pub proof fn lemma_chain_advances(ts: Seq<Token>, left: Node, v: int)
    requires
        0 <= v < ts.len(),
    ensures
        v + 1 <= spec_expr_chain(ts, left, v).1 <= ts.len(),
    decreases ts.len() - v,
{
    if v + 1 >= ts.len() || !ts[v + 1].spec_is_oper() {
    } else if v + 2 >= ts.len() {
    } else if !ts[v + 2].spec_is_expr() {
    } else if !ts[v + 2].spec_node_ok() {
    } else {
        lemma_chain_advances(ts, spec_expr_node(left, ts[v + 1], ts[v + 2]), v + 2);
    }
}

/// Parsing a statement consumes at least one token and never passes the
/// end of the stream.
pub proof fn lemma_statement_advances(ts: Seq<Token>, i: int)
    requires
        0 <= i < ts.len(),
    ensures
        i < spec_statement(ts, i).1 <= ts.len(),
{
    let t = ts[i];
    if t.spec_is_keyword_atom() {
    } else if t.spec_is_keyword_macro() {
    } else if t.spec_is_type() {
        lemma_type_run_end_bounds(ts, i);
        assert(spec_type_run_end(ts, i) == spec_type_run_end(ts, i + 1));
        lemma_type_run_end_bounds(ts, i + 1);
    } else if t.spec_is_macro() {
    } else if t.spec_is_expr() {
        if t.spec_node_ok() && i + 1 < ts.len() && ts[i + 1].spec_is_oper() {
            lemma_chain_advances(ts, Node::spec_from_token(t), i);
        }
    }
}

} // verus!

