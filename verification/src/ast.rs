//! The abstract syntax tree: the machine-understandable representation of
//! one source unit, a sequence of statement nodes.

use vstd::prelude::*;

use crate::error::{ParseErrorKind, ParseResult};
use crate::list::List;
use crate::node::{Node, NodeKind};
use crate::parser::{lemma_statement_advances, spec_statement, Parsed, Parser};
use crate::token::Token;

verus! {

/// Does a built node match what one statement parses to? Statement nodes
/// match exactly; a record-type declaration matches any node holding a
/// well-formed list of exactly the declared type nodes.
pub open spec fn node_matches(n: Node, p: Parsed) -> bool {
    match p {
        Parsed::Stmt(m) => n == m && n.wf(),
        Parsed::Record(nodes) => n.wf() && !n.is_static && n.token is None
            && (n.kind matches NodeKind::Record(l) && l.nodes@ == nodes && l.wf()),
        _ => false,
    }
}

/// Do built statement nodes match the parsed statements, one for one?
pub open spec fn stmts_match(nodes: Seq<Node>, ps: Seq<Parsed>) -> bool {
    nodes.len() == ps.len() && forall|k: int| 0 <= k < ps.len()
        ==> node_matches(#[trigger] nodes[k], ps[k])
}

/// What parsing every statement of the stream from position `i` yields:
/// the statements in order, stopping at the end of the stream or at the
/// first unrecognized token, or the first statement's error.
pub open spec fn spec_ast(ts: Seq<Token>, i: int) -> Result<Seq<Parsed>, ParseErrorKind>
    decreases ts.len() - i,
{
    if !(0 <= i < ts.len()) {
        Ok(Seq::empty())
    } else {
        let (p, ni) = spec_statement(ts, i);
        match p {
            Parsed::Failed(k) => Err(k),
            Parsed::NotRecognized => Ok(Seq::empty()),
            _ => {
                proof {
                    lemma_statement_advances(ts, i);
                }
                match spec_ast(ts, ni) {
                    Ok(rest) => Ok(seq![p] + rest),
                    Err(k) => Err(k),
                }
            },
        }
    }
}

/// The syntax tree of one source unit: its statement nodes in order.
/// Nodes keep references back to the tokens they came from, so diagnostics
/// can always recover a source position.
#[derive(Debug)]
pub struct AST {
    /// The statement nodes, in source order.
    pub nodes: List,
}

impl AST {
    /// Parse a whole token stream into a tree: one statement after
    /// another, until the stream ends or a token begins no known statement
    /// (the remainder is then left unparsed, as an interactive driver would
    /// choose to). The first malformed statement aborts with its error.
    pub fn from_tokens(tokens: Vec<Token>) -> (r: ParseResult<AST>)
        ensures
            r is Ok <==> spec_ast(tokens@, 0) is Ok,
            r matches Ok(ast) ==> ({
                let stmts = spec_ast(tokens@, 0)->Ok_0;
                &&& ast.nodes.wf()
                &&& ast.nodes.spec_nodes().len() == stmts.len()
                &&& forall|k: int| 0 <= k < stmts.len()
                    ==> node_matches(#[trigger] ast.nodes.spec_nodes()[k], stmts[k])
            }),
            r matches Err(e) ==> e.0 == spec_ast(tokens@, 0)->Err_0,
    {
        let ghost ts = tokens@;
        let mut parser = Parser::from_tokens(tokens);
        let mut list = List::new();
        let ghost mut done: Seq<Parsed> = Seq::empty();
        loop
            invariant
                ts == tokens@,
                parser.wf(),
                parser.tokens@ == ts,
                list.wf(),
                list.spec_nodes().len() == done.len(),
                forall|k: int| 0 <= k < done.len()
                    ==> node_matches(#[trigger] list.spec_nodes()[k], done[k]),
                (spec_ast(ts, 0) is Ok <==> spec_ast(ts, parser.index as int) is Ok),
                spec_ast(ts, 0) is Ok
                    ==> spec_ast(ts, 0)->Ok_0 == done + spec_ast(ts, parser.index as int)->Ok_0,
                spec_ast(ts, 0) is Err
                    ==> spec_ast(ts, 0)->Err_0 == spec_ast(ts, parser.index as int)->Err_0,
            ensures
                ts == tokens@,
                parser.index >= ts.len(),
                parser.tokens@ == ts,
                list.wf(),
                list.spec_nodes().len() == done.len(),
                forall|k: int| 0 <= k < done.len()
                    ==> node_matches(#[trigger] list.spec_nodes()[k], done[k]),
                (spec_ast(ts, 0) is Ok <==> spec_ast(ts, parser.index as int) is Ok),
                spec_ast(ts, 0) is Ok
                    ==> spec_ast(ts, 0)->Ok_0 == done + spec_ast(ts, parser.index as int)->Ok_0,
            decreases ts.len() - parser.index,
        {
            if parser.is_eof() {
                break;
            }
            let ghost i = parser.index as int;
            let ghost (p, ni) = spec_statement(ts, i);
            proof {
                lemma_statement_advances(ts, i);
            }
            match parser.parse_statement() {
                Err(e) => {
                    proof {
                        assert(p is Failed && e.0 == p->Failed_0);
                        assert(spec_ast(ts, i) == Err::<Seq<Parsed>, ParseErrorKind>(
                            p->Failed_0));
                        assert(spec_ast(ts, 0) is Err);
                        assert(spec_ast(ts, 0)->Err_0 == e.0);
                    }
                    return Err(e);
                },
                Ok(None) => {
                    // the token began no known statement: leave the rest
                    // of the stream unparsed
                    proof {
                        assert(spec_ast(ts, i) == Ok::<Seq<Parsed>, ParseErrorKind>(
                            Seq::empty()));
                        assert(done + Seq::<Parsed>::empty() =~= done);
                    }
                    return Ok(AST { nodes: list });
                },
                Ok(Some(node)) => {
                    let ghost prev_nodes = list.spec_nodes();
                    let ghost prev_done = done;
                    list.push(node);
                    proof {
                        done = done + seq![p];
                        assert forall|k: int| 0 <= k < done.len() implies
                            node_matches(#[trigger] list.spec_nodes()[k], done[k]) by {
                            if k < prev_done.len() {
                                assert(list.spec_nodes()[k] == prev_nodes[k]);
                                assert(done[k] == prev_done[k]);
                            } else {
                                assert(list.spec_nodes()[k] == node);
                                assert(done[k] == p);
                            }
                        }
                        assert(spec_ast(ts, i) == (match spec_ast(ts, ni) {
                            Ok(rest) => Ok::<Seq<Parsed>, ParseErrorKind>(seq![p] + rest),
                            Err(k) => Err(k),
                        }));
                        if spec_ast(ts, 0) is Ok {
                            assert(spec_ast(ts, i)->Ok_0 =~= seq![p] + spec_ast(ts, ni)->Ok_0);
                            assert(prev_done + (seq![p] + spec_ast(ts, ni)->Ok_0)
                                =~= done + spec_ast(ts, ni)->Ok_0);
                        }
                    }
                },
            }
        }
        // the whole stream was consumed
        proof {
            assert(spec_ast(ts, parser.index as int) == Ok::<Seq<Parsed>, ParseErrorKind>(
                Seq::empty()));
            assert(done + Seq::<Parsed>::empty() =~= done);
        }
        Ok(AST { nodes: list })
    }
}

impl Default for AST {
    /// The default tree is empty.
    fn default() -> (ast: Self)
        ensures
            ast.nodes.spec_nodes() == Seq::<Node>::empty(),
            ast.nodes.wf(),
    {
        AST { nodes: List::new() }
    }
}

} // verus!
