//! One line of a table: cells, rows, and the packing state machine that
//! fills a row against a record type.
//!
//! A [`RowBuilder`] accepts data nodes one at a time and places them into
//! cells until the row is full ("satisfied"). Rows have no delimiter in the
//! source: the boundary is implied entirely by the record type, so the
//! builder tracks its position in the row explicitly.

use vstd::prelude::*;

use crate::error::{ParseError, ParseErrorKind, ParseResult};
use crate::node::Node;
use crate::record::Struct;

verus! {

/// One cell of a table: a data node bound to the row and column it was
/// packed at. The column index also identifies the record-type field the
/// cell was packed against, so no field reference needs to be stored.
#[derive(Debug)]
pub struct Cell {
    /// The node holding the cell's data value.
    pub node: Node,
    /// The row index of this cell in its table.
    pub row: usize,
    /// The column index of this cell in its row; equally, the index of its
    /// field in the record type.
    pub col: usize,
}

impl Cell {
    /// Bind a data node to the given coordinates.
    pub fn new(node: Node, row: usize, col: usize) -> (c: Cell)
        ensures
            c.node == node,
            c.row == row,
            c.col == col,
    {
        Cell { node, row, col }
    }

    /// The row index of this cell.
    pub fn row(&self) -> (r: usize)
        ensures
            r == self.row,
    {
        self.row
    }

    /// The column index of this cell.
    pub fn col(&self) -> (c: usize)
        ensures
            c == self.col,
    {
        self.col
    }
}

/// One completed row of a data table: its cells in column order.
#[derive(Debug)]
pub struct Row(pub Vec<Cell>);

impl Row {
    /// The nodes of the row, in column order.
    pub open spec fn spec_nodes(&self) -> Seq<Node> {
        Seq::new(self.0@.len(), |i: int| self.0@[i].node)
    }
}

/// Packs data nodes into the cells of one row, against the field sequence
/// of a record type.
///
/// The machine has two states: `Building` while fields remain, then
/// `Satisfied`, which is terminal for the row. Once satisfied, any further
/// data is refused with `RowSatisfied`.
#[derive(Debug)]
pub struct RowBuilder {
    /// Number of fields of the record type this row is bound to. The cell
    /// cursor runs over the field indices `0 .. nfields`.
    pub nfields: usize,
    /// The cells accumulated so far; drained into the finished row by the
    /// call that satisfies it.
    pub cells: Vec<Cell>,
    /// Whether the row is full. Once set, the builder accepts no more data.
    pub is_satisfied: bool,
    /// The index of this row in its table, stamped on each cell.
    pub row: usize,
    /// The column the next datum goes to.
    pub col: usize,
}

impl RowBuilder {
    /// Well-formed: the cursor never passes the field count; the builder is
    /// satisfied exactly when the cursor has crossed the whole (non-empty)
    /// field sequence; pending cells carry the coordinates they were
    /// packed at and are drained when the row is yielded.
    pub open spec fn wf(&self) -> bool {
        &&& self.col <= self.nfields
        &&& self.is_satisfied <==> (self.col == self.nfields && self.nfields > 0)
        &&& self.cells@.len() == if self.is_satisfied { 0int } else { self.col as int }
        &&& forall|i: int| 0 <= i < self.cells@.len()
            ==> (#[trigger] self.cells@[i]).col == i && self.cells@[i].row == self.row
    }

    /// A fresh builder bound to a record type, starting at the first field
    /// and column zero, not yet satisfied.
    ///
    /// A row is tightly bound to the record type that defines its columns;
    /// the builder takes the field count at creation and the binding cannot
    /// be swapped while the row is in progress.
    pub fn new(record: &Struct, row: usize) -> (rb: RowBuilder)
        ensures
            rb.wf(),
            rb.nfields == record.fields@.len(),
            rb.row == row,
            rb.col == 0,
            !rb.is_satisfied,
            rb.cells@ == Seq::<Cell>::empty(),
    {
        RowBuilder {
            nfields: record.fields.len(),
            cells: Vec::new(),
            is_satisfied: false,
            row,
            col: 0,
        }
    }

    /// Is the row full? A pure query.
    pub fn is_satisfied(&self) -> (b: bool)
        ensures
            b == self.is_satisfied,
    {
        self.is_satisfied
    }

    /// Push one data node into the row, assigning a new cell for it.
    ///
    /// Returns `Ok(None)` while the row still has space, the finished row
    /// on the call that fills the last column, and `RowSatisfied` when the
    /// row is already full: once the builder has yielded, `add_data` cannot
    /// be called again for this row.
    pub fn add_data(&mut self, node: Node) -> (r: ParseResult<Option<Row>>)
        requires
            old(self).wf(),
        ensures
            final(self).wf(),
            final(self).nfields == old(self).nfields,
            final(self).row == old(self).row,
            // the row is refused exactly when the field cursor is exhausted
            r is Err <==> old(self).col == old(self).nfields,
            r is Err ==> r->Err_0.0 is RowSatisfied && *final(self) == *old(self),
            // a successful call advances the cursor by one column
            r is Ok ==> final(self).col == old(self).col + 1,
            // the row is yielded exactly by the call that fills the last column
            (r matches Ok(Some(_))) <==> old(self).col + 1 == old(self).nfields,
            r matches Ok(Some(row)) ==> {
                &&& final(self).is_satisfied
                &&& row.0@ == old(self).cells@.push(Cell { node, row: old(self).row, col: old(self).col })
                &&& row.spec_nodes() == old(self).cells@.map(|i: int, c: Cell| c.node).push(node)
            },
            r matches Ok(None) ==> {
                &&& !final(self).is_satisfied
                &&& final(self).cells@ == old(self).cells@.push(
                    Cell { node, row: old(self).row, col: old(self).col })
            },
    {
        if self.col >= self.nfields {
            // the row is already full (or the record type has no fields)
            return Err(ParseError(ParseErrorKind::RowSatisfied));
        }
        let cell = Cell { node, row: self.row, col: self.col };
        self.cells.push(cell);
        self.col = self.col + 1;
        if self.col == self.nfields {
            // no fields remain: mark the row satisfied and yield it
            self.is_satisfied = true;
            let mut yielded: Vec<Cell> = Vec::new();
            core::mem::swap(&mut yielded, &mut self.cells);
            let row = Row(yielded);
            proof {
                assert(row.spec_nodes() =~= old(self).cells@.map(|i: int, c: Cell| c.node).push(node));
            }
            Ok(Some(row))
        } else {
            Ok(None)
        }
    }
}

/// Law (row satisfaction): against a record type whose fields are all
/// primitive — so that its column count equals its field count — a row
/// builder becomes satisfied exactly when it has accepted one datum per
/// column: after `cols()` successful `add_data` calls on a fresh builder
/// `is_satisfied()` is true, and any further call fails with
/// `RowSatisfied`, as the contract of `add_data` states.
pub proof fn lemma_row_satisfaction(rb: RowBuilder, record: Struct)
    requires
        rb.wf(),
        record.wf(),
        record.fields@.len() > 0,
        rb.nfields == record.fields@.len(),
        forall|i: int| 0 <= i < record.fields@.len()
            ==> (#[trigger] record.fields@[i]).kind is Primitive,
    ensures
        record.cols == record.fields@.len(),
        rb.is_satisfied <==> rb.col == record.cols,
{
    lemma_cols_primitive(record.fields@);
}

/// For a field sequence of primitives only, the column count equals the
/// field count.
pub proof fn lemma_cols_primitive(fields: Seq<crate::record::Field>)
    requires
        forall|i: int| 0 <= i < fields.len() ==> (#[trigger] fields[i]).kind is Primitive,
    ensures
        crate::record::cols_of(fields) == fields.len(),
    decreases fields.len(),
{
    if fields.len() > 0 {
        assert(fields.last().spec_cols() == 1);
        lemma_cols_primitive(fields.drop_last());
    }
}

} // verus!
