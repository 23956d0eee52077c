//! The record-type layout rules and the row/table packing state machine.

use retronym::error::ParseErrorKind;
use retronym::node::{Node, NodeKind, Value};
use retronym::ptype::PType;
use retronym::record::{Field, Struct};
use retronym::row::RowBuilder;
use retronym::table::TableBuilder;

fn value_node(v: i32) -> Node {
    Node { kind: NodeKind::Value(Value::Int(v)), token: None, is_static: true }
}

fn record_of(ptypes: &[PType]) -> Struct {
    let mut s = Struct::new();
    for p in ptypes {
        s = s.add_field(Field::from_ptype(*p));
    }
    s
}

#[test]
fn stride_rounds_each_field_to_whole_bytes() {
    let s = record_of(&[PType::BOOL, PType::NYBL, PType::BYTE, PType::WORD, PType::LONG]);
    // 1 and 4 bit fields round up to one byte; 8/16/32 bits take 1/2/4
    assert_eq!(s.stride(), 1 + 1 + 1 + 2 + 4);
}

#[test]
fn stride_of_two_bytes_is_two() {
    let s = record_of(&[PType::BYTE, PType::BYTE]);
    assert_eq!(s.stride(), 2);
    assert_eq!(s.cols(), 2);
}

#[test]
fn cols_counts_one_per_primitive_field() {
    let s = record_of(&[PType::WORD, PType::WORD, PType::LONG]);
    assert_eq!(s.cols(), 3);
    assert_eq!(s.stride(), 2 + 2 + 4);
}

#[test]
fn empty_record_has_no_bytes_and_no_columns() {
    let s = Struct::new();
    assert_eq!(s.stride(), 0);
    assert_eq!(s.cols(), 0);
}

#[test]
fn primitive_bit_widths() {
    assert_eq!(PType::BOOL.bits(), 1);
    assert_eq!(PType::NYBL.bits(), 4);
    assert_eq!(PType::BYTE.bits(), 8);
    assert_eq!(PType::WORD.bits(), 16);
    assert_eq!(PType::LONG.bits(), 32);
}

#[test]
fn row_satisfied_after_exactly_cols_data() {
    let s = record_of(&[PType::BYTE, PType::BYTE]);
    let mut rb = RowBuilder::new(&s, 0);
    assert!(!rb.is_satisfied());
    // first datum: row still filling
    let r1 = rb.add_data(value_node(1)).unwrap();
    assert!(r1.is_none());
    assert!(!rb.is_satisfied());
    // second datum: the row is full and yielded
    let r2 = rb.add_data(value_node(2)).unwrap();
    let row = r2.expect("the second datum completes the row");
    assert_eq!(row.0.len(), 2);
    assert!(rb.is_satisfied());
    // one more datum is refused
    let r3 = rb.add_data(value_node(3));
    assert!(matches!(r3.unwrap_err().0, ParseErrorKind::RowSatisfied));
}

#[test]
fn row_cells_carry_their_coordinates() {
    let s = record_of(&[PType::BYTE, PType::BYTE, PType::BYTE]);
    let mut rb = RowBuilder::new(&s, 7);
    assert!(rb.add_data(value_node(10)).unwrap().is_none());
    assert!(rb.add_data(value_node(20)).unwrap().is_none());
    let row = rb.add_data(value_node(30)).unwrap().unwrap();
    for (col, cell) in row.0.iter().enumerate() {
        assert_eq!(cell.row(), 7);
        assert_eq!(cell.col(), col);
    }
}

#[test]
fn empty_record_row_accepts_no_data() {
    let s = Struct::new();
    let mut rb = RowBuilder::new(&s, 0);
    assert!(!rb.is_satisfied());
    let r = rb.add_data(value_node(1));
    assert!(matches!(r.unwrap_err().0, ParseErrorKind::RowSatisfied));
    assert!(!rb.is_satisfied());
}

#[test]
fn table_chains_rows_at_record_boundaries() {
    let s = record_of(&[PType::BYTE, PType::BYTE]);
    let mut tb = TableBuilder::new(s);
    for v in [10, 20, 30, 40] {
        assert!(tb.add_data(value_node(v)).is_none());
    }
    let table = tb.finish().expect("four data fill two whole rows");
    assert_eq!(table.rows.len(), 2);
}

#[test]
fn table_with_partial_last_row_is_unsatisfied() {
    let s = record_of(&[PType::BYTE, PType::BYTE]);
    let mut tb = TableBuilder::new(s);
    for v in [10, 20, 30] {
        assert!(tb.add_data(value_node(v)).is_none());
    }
    let err = tb.finish().unwrap_err();
    assert!(matches!(err.0, ParseErrorKind::Unsatisfied));
}

#[test]
fn table_fed_nothing_is_unsatisfied() {
    let s = record_of(&[PType::BYTE]);
    let tb = TableBuilder::new(s);
    let err = tb.finish().unwrap_err();
    assert!(matches!(err.0, ParseErrorKind::Unsatisfied));
}

#[test]
fn table_rows_hold_the_fed_nodes_in_order() {
    let s = record_of(&[PType::BYTE, PType::BYTE]);
    let mut tb = TableBuilder::new(s);
    for v in [10, 20, 30, 40] {
        assert!(tb.add_data(value_node(v)).is_none());
    }
    let table = tb.finish().unwrap();
    let mut seen = Vec::new();
    for row in &table.rows {
        for cell in &row.0 {
            match &cell.node.kind {
                NodeKind::Value(Value::Int(v)) => seen.push(*v),
                other => panic!("unexpected cell node {:?}", other),
            }
        }
    }
    assert_eq!(seen, vec![10, 20, 30, 40]);
}

#[test]
fn nested_record_field_widths() {
    // a nested record type counts its stride in whole bytes and its own
    // columns
    let inner = record_of(&[PType::BYTE, PType::WORD]);
    assert_eq!(inner.stride(), 3);
    let outer = Struct::new().add_field(Field {
        token: None,
        kind: retronym::record::FieldKind::Struct(Box::new(inner)),
    }).add_field(Field::from_ptype(PType::BYTE));
    assert_eq!(outer.stride(), 3 + 1);
    assert_eq!(outer.cols(), 2 + 1);
}
