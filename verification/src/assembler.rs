//! The assembly pass: walks the statement nodes of a syntax tree and builds
//! the compilation unit's object.
//!
//! Per-statement dispatch: atom definitions populate the atom pool;
//! record-type declarations resolve into a record type and open a table;
//! data nodes are packed into the most recently opened table; a macro
//! invocation is recognised but not yet supported. The abstract state
//! machine [`spec_asm`] pins down exactly what the pass does and when it
//! fails.

use vstd::prelude::*;

use crate::ast::AST;
use crate::error::{ParseError, ParseErrorKind, ParseResult};
use crate::node::{Node, NodeKind};
use crate::object::Object;
use crate::record::{Field, Struct};
use crate::table::{lemma_rows_data_full, lemma_satisfied_iff, Table, TableBuilder};

verus! {

/// The abstract state of the assembly pass: the atom names defined so
/// far; the closed tables, each as its record type's field sequence and
/// the data nodes fed to it in order; and the open table, if any, in the
/// same form.
#[verifier::ext_equal]
pub ghost struct AsmState {
    /// Names of the atoms defined so far, in definition order.
    pub names: Seq<Seq<char>>,
    /// The closed tables: each one's fields and its packed data nodes.
    pub tables: Seq<(Seq<Field>, Seq<Node>)>,
    /// The open table: its record type's fields and the data nodes it
    /// has been fed so far.
    pub cur: Option<(Seq<Field>, Seq<Node>)>,
}

/// Resolving a record-type declaration list: each node in turn must resolve
/// to a field, and the first one that does not aborts with its error.
pub open spec fn spec_fields(s: Seq<Node>) -> Result<Seq<Field>, ParseErrorKind>
    decreases s.len(),
{
    if s.len() == 0 {
        Ok(Seq::empty())
    } else if !Field::node_field_ok(s[0]) {
        Err(Field::node_field_err(s[0]))
    } else {
        match spec_fields(s.drop_first()) {
            Ok(rest) => Ok(seq![Field::spec_of_node(s[0])] + rest),
            Err(k) => Err(k),
        }
    }
}

/// Closing the open table, if any: it must have been fed a positive whole
/// number of records, else the last row is only partially filled and the
/// close fails with `Unsatisfied`.
pub open spec fn spec_close(st: AsmState) -> Result<AsmState, ParseErrorKind> {
    match st.cur {
        None => Ok(st),
        Some((fields, fed)) => if fed.len() > 0 && fields.len() > 0 && fed.len() as int % (
        fields.len() as int) == 0 {
            Ok(AsmState { names: st.names, tables: st.tables.push((fields, fed)), cur: None })
        } else {
            Err(ParseErrorKind::Unsatisfied)
        },
    }
}

/// One step of the assembly pass. An atom definition adds its name, or
/// fails with `Duplicate` if the name exists; a record-type declaration
/// closes the open table, then resolves its list (a declaration too wide
/// for the machine is unsupported) and opens a fresh table; a data node is
/// fed to the open table — with no open table that is `NoRecord`, and a
/// table without fields refuses data as `RowSatisfied`; a macro invocation
/// is recognised but unsupported; every other node is passed over.
pub open spec fn spec_asm_step(st: AsmState, node: Node) -> Result<AsmState, ParseErrorKind> {
    match node.kind {
        NodeKind::DefAtom(name) => if exists|k: int| 0 <= k < st.names.len()
            && st.names[k] == name@ {
            Err(ParseErrorKind::Duplicate)
        } else {
            Ok(AsmState { names: st.names.push(name@), tables: st.tables, cur: st.cur })
        },
        NodeKind::Record(l) => match spec_close(st) {
            Err(k) => Err(k),
            Ok(st2) => if l.nodes@.len() > usize::MAX as int / 4 {
                Err(ParseErrorKind::Unimplemented)
            } else {
                match spec_fields(l.nodes@) {
                    Err(k) => Err(k),
                    Ok(fields) => Ok(
                        AsmState {
                            names: st2.names,
                            tables: st2.tables,
                            cur: Some((fields, Seq::empty())),
                        },
                    ),
                }
            },
        },
        NodeKind::Value(_) | NodeKind::Expr(_) | NodeKind::Str(_) => match st.cur {
            None => Err(ParseErrorKind::NoRecord),
            Some((fields, fed)) => if fields.len() == 0 {
                Err(ParseErrorKind::RowSatisfied)
            } else {
                Ok(
                    AsmState {
                        names: st.names,
                        tables: st.tables,
                        cur: Some((fields, fed.push(node))),
                    },
                )
            },
        },
        NodeKind::Macro(_) => Err(ParseErrorKind::Unimplemented),
        _ => Ok(st),
    }
}

/// The assembly pass over the statement nodes from position `i`, without
/// the final close.
pub open spec fn spec_asm(nodes: Seq<Node>, i: int, st: AsmState) -> Result<
    AsmState,
    ParseErrorKind,
>
    decreases nodes.len() - i,
{
    if !(0 <= i < nodes.len()) {
        Ok(st)
    } else {
        match spec_asm_step(st, nodes[i]) {
            Err(k) => Err(k),
            Ok(st2) => spec_asm(nodes, i + 1, st2),
        }
    }
}

/// The fresh assembly state: nothing defined, nothing open.
pub open spec fn spec_asm_init() -> AsmState {
    AsmState { names: Seq::empty(), tables: Seq::empty(), cur: None }
}

/// What assembling a whole statement sequence yields: the pass over every
/// node, then the final close of the open table.
pub open spec fn spec_assemble(nodes: Seq<Node>) -> Result<AsmState, ParseErrorKind> {
    match spec_asm(nodes, 0, spec_asm_init()) {
        Ok(st) => spec_close(st),
        Err(k) => Err(k),
    }
}

/// The abstract state that an object and an optional open table builder
/// stand for: the atom names, each closed table's fields and the data its
/// rows hold, and the open builder's fields and fed nodes.
pub open spec fn spec_abs(object: Object, builder: Option<TableBuilder>) -> AsmState {
    AsmState {
        names: object.atoms@.map(|i: int, a: crate::object::Atom| a.name@),
        tables: object.tables@.map(
            |i: int, t: Table| (t.record.fields@, crate::table::rows_data(t.rows@)),
        ),
        cur: match builder {
            None => None,
            Some(b) => Some((b.record.fields@, b.fed@)),
        },
    }
}

/// `spec_fields` succeeds exactly when every node resolves, yields the
/// resolved fields in order, and fails with the first offender's error.
pub proof fn lemma_spec_fields(s: Seq<Node>)
    ensures
        (spec_fields(s) is Ok <==> forall|i: int| 0 <= i < s.len()
            ==> Field::node_field_ok(#[trigger] s[i])),
        spec_fields(s) is Ok ==> spec_fields(s)->Ok_0 == Seq::new(
            s.len(),
            |i: int| Field::spec_of_node(s[i]),
        ),
        spec_fields(s) is Err ==> exists|i: int| {
            &&& 0 <= i < s.len()
            &&& !Field::node_field_ok(#[trigger] s[i])
            &&& (forall|j: int| 0 <= j < i ==> Field::node_field_ok(#[trigger] s[j]))
            &&& spec_fields(s)->Err_0 == Field::node_field_err(s[i])
        },
    decreases s.len(),
{
    if s.len() == 0 {
    } else if !Field::node_field_ok(s[0]) {
        assert(spec_fields(s) == Err::<Seq<Field>, ParseErrorKind>(Field::node_field_err(s[0])));
    } else {
        let rest = s.drop_first();
        lemma_spec_fields(rest);
        assert(forall|j: int| 0 <= j < rest.len() ==> rest[j] == s[j + 1]);
        if spec_fields(rest) is Ok {
            assert forall|i: int| 0 <= i < s.len() implies
                Field::node_field_ok(#[trigger] s[i]) by {
                if i > 0 {
                    assert(rest[i - 1] == s[i]);
                }
            }
            assert(spec_fields(s)->Ok_0 =~= Seq::new(s.len(), |i: int| Field::spec_of_node(s[i])));
        } else {
            let i = choose|i: int| {
                &&& 0 <= i < rest.len()
                &&& !Field::node_field_ok(#[trigger] rest[i])
                &&& (forall|j: int| 0 <= j < i ==> Field::node_field_ok(#[trigger] rest[j]))
                &&& spec_fields(rest)->Err_0 == Field::node_field_err(rest[i])
            };
            assert(!Field::node_field_ok(s[i + 1]));
            assert forall|j: int| 0 <= j < i + 1 implies
                Field::node_field_ok(#[trigger] s[j]) by {
                if j > 0 {
                    assert(rest[j - 1] == s[j]);
                }
            }
            assert(spec_fields(s)->Err_0 == Field::node_field_err(s[i + 1]));
        }
    }
}

/// Does a built table hold exactly this record type and these packed
/// data nodes: the declared field sequence, and the data cut into rows of
/// one node per field, in the order it was fed?
pub open spec fn table_matches(t: Table, fields: Seq<Field>, fed: Seq<Node>) -> bool {
    &&& t.record.fields@ == fields
    &&& t.rows@.len() * fields.len() == fed.len()
    &&& forall|i: int| 0 <= i < t.rows@.len() ==> {
        &&& (#[trigger] t.rows@[i]).0@.len() == fields.len()
        &&& t.rows@[i].spec_nodes() == fed.subrange(
            i * fields.len() as int,
            (i + 1) * fields.len() as int,
        )
    }
}

/// Does each built table hold exactly its abstract counterpart?
pub open spec fn tables_match(tables: Seq<Table>, abs: Seq<(Seq<Field>, Seq<Node>)>) -> bool {
    &&& tables.len() == abs.len()
    &&& forall|k: int| 0 <= k < tables.len()
        ==> table_matches(#[trigger] tables[k], abs[k].0, abs[k].1)
}

/// Does an object carry exactly what a successful assembly pass yields:
/// the atom pool holding the defined names in order, and one table per
/// closed table of the pass, each holding exactly the fields and the data
/// nodes the pass packed into it?
pub open spec fn object_matches(o: Object, st: AsmState) -> bool {
    &&& o.wf()
    &&& o.atoms@.len() == st.names.len()
    &&& forall|k: int| 0 <= k < st.names.len() ==> (#[trigger] o.atoms@[k]).name@ == st.names[k]
    &&& tables_match(o.tables@, st.tables)
    &&& st.cur is None
}

/// The assembler: orchestrates the assembly of one compilation unit.
pub struct Assembler {}

impl Assembler {
    /// Assemble a syntax tree into an object: atoms defined, record types
    /// resolved, data packed into tables. Succeeds — yielding an object
    /// whose atom pool and table count are exactly those of the abstract
    /// pass [`spec_assemble`] — if and only if that pass succeeds, and
    /// fails with the same error it does.
    #[verifier::loop_isolation(false)]
    pub fn assemble_ast(ast: AST) -> (r: ParseResult<Object>)
        requires
            ast.nodes.wf(),
        ensures
            r is Ok <==> spec_assemble(ast.nodes.spec_nodes()) is Ok,
            r matches Ok(o) ==> object_matches(o, spec_assemble(ast.nodes.spec_nodes())->Ok_0),
            r matches Err(e) ==> e.0 == spec_assemble(ast.nodes.spec_nodes())->Err_0,
    {
        let ghost orig = ast.nodes.spec_nodes();
        let ghost init = spec_asm_init();
        let mut nodes = ast.nodes.nodes;
        let mut object = Object::new();
        let mut builder: Option<TableBuilder> = None;
        let ghost mut k: int = 0;
        proof {
            assert(spec_abs(object, builder) =~~= init);
        }
        while nodes.len() > 0
            invariant
                0 <= k <= orig.len(),
                nodes@ == orig.subrange(k, orig.len() as int),
                forall|j: int| 0 <= j < orig.len() ==> (#[trigger] orig[j]).wf(),
                object.wf(),
                builder matches Some(b) ==> b.wf(),
                tables_match(object.tables@, spec_abs(object, builder).tables),
                spec_asm(orig, 0, init) == spec_asm(orig, k, spec_abs(object, builder)),
            decreases nodes@.len(),
        {
            let node = nodes.remove(0);
            let ghost st = spec_abs(object, builder);
            proof {
                assert(node == orig[k]);
                assert(node.wf());
                assert(nodes@ =~= orig.subrange(k + 1, orig.len() as int));
                assert(spec_asm(orig, k, st) == (match spec_asm_step(st, orig[k]) {
                    Err(e) => Err::<AsmState, ParseErrorKind>(e),
                    Ok(st2) => spec_asm(orig, k + 1, st2),
                }));
                // the atom pool and the abstract name list line up
                assert(forall|j: int| 0 <= j < object.atoms@.len()
                    ==> st.names[j] == (#[trigger] object.atoms@[j]).name@);
            }
            if node.is_atom_def() {
                let ghost name = node.kind->DefAtom_0@;
                match object.new_atom(&node) {
                    Some(e) => {
                        proof {
                            let j = choose|j: int| 0 <= j < object.atoms@.len()
                                && (#[trigger] object.atoms@[j]).name@ == name;
                            assert(st.names[j] == name);
                            assert(spec_asm_step(st, node)
                                == Err::<AsmState, ParseErrorKind>(ParseErrorKind::Duplicate));
                        }
                        return Err(e);
                    },
                    None => {
                        proof {
                            if exists|j: int| 0 <= j < st.names.len() && st.names[j] == name {
                                let j = choose|j: int| 0 <= j < st.names.len()
                                    && st.names[j] == name;
                                assert((#[trigger] object.atoms@[j]).name@ == name
                                    || st.names[j] == name);
                                assert(false);
                            }
                            assert(spec_abs(object, builder).names =~= st.names.push(name));
                            assert(spec_abs(object, builder) =~~= spec_asm_step(st, orig[k])->Ok_0);
                        }
                    },
                }
            } else if node.is_record() {
                // close the table in progress, if any: its last row must be
                // complete
                let prev = builder;
                builder = None;
                match prev {
                    Some(b) => {
                        proof {
                            lemma_satisfied_iff(b);
                            if b.builder.is_satisfied {
                                lemma_rows_data_full(b);
                            }
                        }
                        let table = match b.finish() {
                            Ok(t) => t,
                            Err(e) => {
                                proof {
                                    assert(spec_close(st)
                                        == Err::<AsmState, ParseErrorKind>(
                                        ParseErrorKind::Unsatisfied));
                                    assert(spec_asm_step(st, orig[k])
                                        == Err::<AsmState, ParseErrorKind>(
                                        ParseErrorKind::Unsatisfied));
                                }
                                return Err(e);
                            },
                        };
                        object.tables.push(table);
                    },
                    None => {},
                }
                let ghost st2 = spec_close(st)->Ok_0;
                proof {
                    assert(spec_abs(object, builder).names =~= st2.names);
                    assert(spec_abs(object, builder).tables =~~= st2.tables);
                    assert(spec_abs(object, builder) =~~= st2);
                    assert(tables_match(object.tables@, spec_abs(object, builder).tables));
                }
                // resolve the declaration into a record type and open a
                // fresh table for it
                let list = match node.kind {
                    NodeKind::Record(l) => l,
                    _ => {
                        return Err(ParseError(ParseErrorKind::Unexpected));
                    },
                };
                if list.len() > usize::MAX / 4 {
                    // a record type too wide for this machine is not
                    // supported
                    proof {
                        assert(spec_asm_step(st, orig[k]) == Err::<AsmState, ParseErrorKind>(
                            ParseErrorKind::Unimplemented));
                    }
                    return Err(ParseError(ParseErrorKind::Unimplemented));
                }
                proof {
                    assert(list.spec_nodes().len() * 4 <= usize::MAX) by (nonlinear_arith)
                        requires list.spec_nodes().len() <= usize::MAX as int / 4;
                    lemma_spec_fields(list.spec_nodes());
                }
                let record = match Struct::try_from_list(&list) {
                    Ok(s) => s,
                    Err(e) => {
                        proof {
                            let i = choose|i: int| {
                                &&& 0 <= i < list.spec_nodes().len()
                                &&& !Field::node_field_ok(#[trigger] list.spec_nodes()[i])
                                &&& (forall|j: int| 0 <= j < i
                                    ==> Field::node_field_ok(#[trigger] list.spec_nodes()[j]))
                                &&& e.0 == Field::node_field_err(list.spec_nodes()[i])
                            };
                            let i2 = choose|i2: int| {
                                &&& 0 <= i2 < list.spec_nodes().len()
                                &&& !Field::node_field_ok(#[trigger] list.spec_nodes()[i2])
                                &&& (forall|j: int| 0 <= j < i2
                                    ==> Field::node_field_ok(#[trigger] list.spec_nodes()[j]))
                                &&& spec_fields(list.spec_nodes())->Err_0
                                    == Field::node_field_err(list.spec_nodes()[i2])
                            };
                            assert(i == i2);
                            assert(e.0 == spec_fields(list.spec_nodes())->Err_0);
                            assert(spec_asm_step(st, orig[k]) == Err::<AsmState, ParseErrorKind>(
                                e.0));
                        }
                        return Err(e);
                    },
                };
                proof {
                    assert(record.fields@ =~= spec_fields(list.spec_nodes())->Ok_0);
                }
                builder = Some(TableBuilder::new(record));
                proof {
                    assert(spec_abs(object, builder) =~~= spec_asm_step(st, orig[k])->Ok_0);
                }
            } else if node.is_data() {
                // pack the datum into the open table
                match &mut builder {
                    None => {
                        proof {
                            assert(spec_asm_step(st, orig[k]) == Err::<AsmState, ParseErrorKind>(
                                ParseErrorKind::NoRecord));
                        }
                        return Err(ParseError(ParseErrorKind::NoRecord));
                    },
                    Some(b) => {
                        match b.add_data(node) {
                            Some(e) => {
                                proof {
                                    assert(spec_asm_step(st, orig[k])
                                        == Err::<AsmState, ParseErrorKind>(
                                        ParseErrorKind::RowSatisfied));
                                }
                                return Err(e);
                            },
                            None => {},
                        }
                        proof {
                            assert(spec_abs(object, builder) =~~= spec_asm_step(st, orig[k])->Ok_0);
                        }
                    },
                }
            } else if node.is_macro() {
                // macros must be expanded before packing; not supported yet
                proof {
                    assert(spec_asm_step(st, orig[k]) == Err::<AsmState, ParseErrorKind>(
                        ParseErrorKind::Unimplemented));
                }
                return Err(ParseError(ParseErrorKind::Unimplemented));
            } else {
                // other statements carry nothing to assemble
                proof {
                    assert(spec_abs(object, builder) =~~= st);
                    assert(spec_asm_step(st, orig[k]) == Ok::<AsmState, ParseErrorKind>(st));
                }
            }
            proof {
                k = k + 1;
            }
        }
        proof {
            assert(k == orig.len());
            assert(spec_asm(orig, k, spec_abs(object, builder)) == Ok::<AsmState, ParseErrorKind>(
                spec_abs(object, builder)));
        }
        let ghost st_fin = spec_abs(object, builder);
        // close the final table, if one is open
        match builder {
            Some(b) => {
                proof {
                    lemma_satisfied_iff(b);
                    if b.builder.is_satisfied {
                        lemma_rows_data_full(b);
                    }
                }
                let table = match b.finish() {
                    Ok(t) => t,
                    Err(e) => {
                        proof {
                            assert(spec_close(st_fin) == Err::<AsmState, ParseErrorKind>(
                                ParseErrorKind::Unsatisfied));
                        }
                        return Err(e);
                    },
                };
                object.tables.push(table);
            },
            None => {},
        }
        proof {
            let st_closed = spec_close(st_fin)->Ok_0;
            assert(forall|j: int| 0 <= j < object.atoms@.len()
                ==> st_closed.names[j] == (#[trigger] object.atoms@[j]).name@);
            assert(st_closed.tables =~~= spec_abs(object, None).tables);
            assert(tables_match(object.tables@, st_closed.tables));
        }
        Ok(object)
    }
}

} // verus!
