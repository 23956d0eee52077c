//! End-to-end assembly of source units, and the error taxonomy.

use retronym::assemble_str;
use retronym::error::{new_parse_error, ParseError, ParseErrorKind};
use retronym::node::{Node, NodeKind, Value};
use retronym::object::Object;

fn def_atom(name: &str) -> Node {
    Node { kind: NodeKind::DefAtom(name.to_string()), token: None, is_static: true }
}

#[test]
fn two_byte_record_packs_two_rows() {
    // record type byte, byte (stride 2, cols 2) fed 10, 20, 30, 40:
    // two rows, row 0 = [10, 20], row 1 = [30, 40]
    let object = assemble_str("byte, byte\n10, 20, 30, 40").unwrap();
    assert_eq!(object.tables.len(), 1);
    let table = &object.tables[0];
    assert_eq!(table.record.stride(), 2);
    assert_eq!(table.record.cols(), 2);
    assert_eq!(table.rows.len(), 2);
    let mut got = Vec::new();
    for row in &table.rows {
        let mut vals = Vec::new();
        for cell in &row.0 {
            match &cell.node.kind {
                NodeKind::Value(Value::Int(v)) => vals.push(*v),
                other => panic!("unexpected cell node {:?}", other),
            }
        }
        got.push(vals);
    }
    assert_eq!(got, vec![vec![10, 20], vec![30, 40]]);
}

#[test]
fn atoms_and_tables_assemble_together() {
    let object = assemble_str("atom A atom X word 1000, 2000").unwrap();
    assert_eq!(object.atoms.len(), 2);
    assert_eq!(object.atoms[0].name, "A");
    assert_eq!(object.atoms[1].name, "X");
    assert_eq!(object.tables.len(), 1);
    assert_eq!(object.tables[0].rows.len(), 2);
}

#[test]
fn duplicate_atom_keeps_the_first_entry() {
    // the second definition of "A" is refused and the pool is untouched
    let mut object = Object::new();
    assert!(object.new_atom(&def_atom("A")).is_none());
    let err = object.new_atom(&def_atom("A")).unwrap();
    assert!(matches!(err.0, ParseErrorKind::Duplicate));
    assert_eq!(object.atoms.len(), 1);
    assert_eq!(object.atoms[0].name, "A");
}

#[test]
fn duplicate_atom_fails_a_whole_unit() {
    let err = assemble_str("atom A atom A").unwrap_err();
    assert!(matches!(err.0, ParseErrorKind::Duplicate));
}

#[test]
fn data_before_any_record_type_is_refused() {
    let err = assemble_str("10, 20").unwrap_err();
    assert!(matches!(err.0, ParseErrorKind::NoRecord));
}

#[test]
fn partially_filled_final_row_is_unsatisfied() {
    let err = assemble_str("byte, byte 10, 20, 30").unwrap_err();
    assert!(matches!(err.0, ParseErrorKind::Unsatisfied));
}

#[test]
fn record_type_with_no_data_is_unsatisfied() {
    let err = assemble_str("byte, byte").unwrap_err();
    assert!(matches!(err.0, ParseErrorKind::Unsatisfied));
}

#[test]
fn nested_struct_name_is_not_resolvable_yet() {
    // a record type naming another struct defers to a cross-module pass
    // that this core does not have
    let err = assemble_str("byte, %point 10, 20").unwrap_err();
    assert!(matches!(err.0, ParseErrorKind::Unimplemented));
}

#[test]
fn macro_invocation_is_not_supported_yet() {
    let err = assemble_str("lda").unwrap_err();
    assert!(matches!(err.0, ParseErrorKind::Unimplemented));
}

#[test]
fn expressions_pack_as_single_cells() {
    let object = assemble_str("byte 1 + 2, 5").unwrap();
    assert_eq!(object.tables.len(), 1);
    let table = &object.tables[0];
    assert_eq!(table.rows.len(), 2);
    assert!(matches!(table.rows[0].0[0].node.kind, NodeKind::Expr(_)));
    // the expression cell folds to 3
    let folded = table.rows[0].0[0].node.eval().unwrap();
    assert_eq!(folded, retronym::eval::Evaluation::Int(3));
}

#[test]
fn two_record_types_build_two_tables() {
    let object = assemble_str("byte 1, 2 word 1000").unwrap();
    assert_eq!(object.tables.len(), 2);
    assert_eq!(object.tables[0].rows.len(), 2);
    assert_eq!(object.tables[1].rows.len(), 1);
}

#[test]
fn lexical_error_surfaces_from_assembly() {
    let err = assemble_str("byte 10 ;").unwrap_err();
    assert!(matches!(err.0, ParseErrorKind::Unexpected));
}

#[test]
fn bad_literal_surfaces_from_assembly() {
    let err = assemble_str("byte 99999999999").unwrap_err();
    assert!(matches!(err.0, ParseErrorKind::ParseInt));
}

#[test]
fn error_accessors_report_their_kind() {
    let e = new_parse_error(ParseErrorKind::Io);
    assert!(e.is_io_error());
    assert!(!e.is_endoffile());
    assert!(matches!(*e.kind(), ParseErrorKind::Io));
    assert!(matches!(e.into_kind(), ParseErrorKind::Io));
    let eof = ParseError::end_of_file();
    assert!(eof.is_endoffile());
    assert!(!eof.is_io_error());
    assert!(matches!(ParseError::unexpected().0, ParseErrorKind::Unexpected));
    assert!(matches!(ParseError::duplicate().0, ParseErrorKind::Duplicate));
    assert!(matches!(ParseError::no_record().0, ParseErrorKind::NoRecord));
}

#[test]
fn error_descriptions_name_the_failure() {
    assert_eq!(ParseError::end_of_file().description(), "End Of File");
    assert_eq!(new_parse_error(ParseErrorKind::Unsatisfied).description(), "Record Unsatisfied");
    assert_eq!(new_parse_error(ParseErrorKind::RowSatisfied).description(), "Table row is full");
}

#[test]
fn unparsed_trailing_input_is_left_behind() {
    // a string literal begins no statement this parser understands: the
    // driver stops there and keeps what it has
    let object = assemble_str("atom A \"note\"").unwrap();
    assert_eq!(object.atoms.len(), 1);
    assert_eq!(object.tables.len(), 0);
}
