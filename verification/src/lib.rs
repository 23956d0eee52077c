//! The front end and data-layout core of an assembler for retro computer
//! systems: a token contract, a recursive-descent parser producing a symbolic
//! tree, a record-type system describing fixed-width binary layout, a
//! row/table packing engine, and constant folding of static expressions.

use vstd::prelude::*;

pub mod assembler;
pub mod ast;
pub mod error;
pub mod eval;
pub mod expr;
pub mod list;
pub mod node;
pub mod object;
pub mod ops;
pub mod parser;
pub mod ptype;
pub mod record;
pub mod segment;
pub mod row;
pub mod table;
pub mod token;
pub mod tokenizer;

use crate::assembler::{object_matches, spec_assemble, Assembler};
use crate::ast::{spec_ast, stmts_match, AST};
use crate::error::{ParseErrorKind, ParseResult};
use crate::node::Node;
use crate::object::Object;
use crate::token::Token;
use crate::tokenizer::{spec_lex, tokens_match, Tokenizer};

verus! {

/// Does assembling this source text succeed with this object? The source
/// must scan to its lexemes ([`spec_lex`]); a token stream carrying
/// exactly those lexemes must parse into statements ([`spec_ast`]); nodes
/// matching those statements must pass the abstract assembly
/// ([`spec_assemble`]); and the object must carry exactly what that pass
/// yields. The witnesses are unique up to the text the tokens carry, so
/// the outcome is fixed by the source text alone.
pub open spec fn spec_assembles(source: Seq<char>, o: Object) -> bool {
    match spec_lex(source) {
        Err(_) => false,
        Ok(xs) => exists|ts: Seq<Token>| {
            &&& #[trigger] tokens_match(ts, xs)
            &&& match spec_ast(ts, 0) {
                Err(_) => false,
                Ok(ps) => exists|nodes: Seq<Node>| {
                    &&& #[trigger] stmts_match(nodes, ps)
                    &&& spec_assemble(nodes) matches Ok(st) && object_matches(o, st)
                },
            }
        },
    }
}

/// Does assembling this source text fail with this error kind? The first
/// stage to fail — scanning, parsing, or the assembly pass — decides,
/// and its error passes through unchanged.
pub open spec fn spec_assemble_fails(source: Seq<char>, k: ParseErrorKind) -> bool {
    match spec_lex(source) {
        Err(k0) => k == k0,
        Ok(xs) => exists|ts: Seq<Token>| {
            &&& #[trigger] tokens_match(ts, xs)
            &&& match spec_ast(ts, 0) {
                Err(k1) => k == k1,
                Ok(ps) => exists|nodes: Seq<Node>| {
                    &&& #[trigger] stmts_match(nodes, ps)
                    &&& spec_assemble(nodes) matches Err(k2) && k == k2
                },
            }
        },
    }
}

/// Assemble one source unit from its text: tokenize, parse, then walk the
/// statements into an object — atoms defined, record types resolved, data
/// packed into tables. Success yields exactly what the staged pipeline
/// yields for this text ([`spec_assembles`]); failure carries exactly the
/// first failing stage's error ([`spec_assemble_fails`]).
pub fn assemble_str(source: &str) -> (r: ParseResult<Object>)
    ensures
        r matches Ok(o) ==> spec_assembles(source@, o),
        r matches Err(e) ==> spec_assemble_fails(source@, e.0),
        spec_lex(source@) is Err ==> r is Err,
{
    let tokenizer = match Tokenizer::tokenize_str(source) {
        Ok(t) => t,
        Err(e) => {
            return Err(e);
        },
    };
    let ghost xs = spec_lex(source@)->Ok_0;
    let ghost ts = tokenizer.tokens@;
    let ast = match AST::from_tokens(tokenizer.into_tokens()) {
        Ok(a) => a,
        Err(e) => {
            proof {
                assert(tokens_match(ts, xs));
                assert(spec_assemble_fails(source@, e.0));
            }
            return Err(e);
        },
    };
    let ghost ps = spec_ast(ts, 0)->Ok_0;
    let ghost nodes = ast.nodes.spec_nodes();
    proof {
        assert(stmts_match(nodes, ps));
    }
    match Assembler::assemble_ast(ast) {
        Ok(o) => {
            proof {
                assert(tokens_match(ts, xs));
                assert(spec_assembles(source@, o));
            }
            Ok(o)
        },
        Err(e) => {
            proof {
                assert(tokens_match(ts, xs));
                assert(spec_assemble_fails(source@, e.0));
            }
            Err(e)
        },
    }
}

} // verus!
