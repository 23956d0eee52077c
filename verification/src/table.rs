//! A table of data: a record type and the rows packed against it.
//!
//! The [`TableBuilder`] drives a [`RowBuilder`] across row boundaries:
//! source statements supply values one at a time with no delimiter between
//! rows, so when the current row is satisfied the next datum silently opens
//! the next row.

use vstd::prelude::*;

use crate::error::{ParseError, ParseErrorKind, ParseResult};
use crate::node::Node;
use crate::record::Struct;
use crate::row::{Cell, Row, RowBuilder};

verus! {

/// A completed table: its record type and the rows packed against it.
#[derive(Debug)]
pub struct Table {
    /// The record type that defines the columns.
    pub record: Struct,
    /// The completed rows, in the order the data appeared.
    pub rows: Vec<Row>,
}

/// Builds a [`Table`] by packing data nodes row by row.
pub struct TableBuilder {
    /// The record type that defines the columns. A table is tightly bound
    /// to its record type; the binding cannot be swapped while building.
    pub record: Struct,
    /// The rows completed so far.
    pub rows: Vec<Row>,
    /// The builder filling the current row.
    pub builder: RowBuilder,
    /// Index of the row currently being built.
    pub row: usize,
    /// Every data node fed so far, in order; the rows are exactly this
    /// sequence cut into record-sized chunks.
    pub fed: Ghost<Seq<Node>>,
}

impl TableBuilder {
    /// Number of data nodes fed so far.
    pub open spec fn spec_fed(&self) -> int {
        self.fed@.len() as int
    }

    /// Well-formed: the row builder is bound to this record type, every
    /// completed row holds one cell per field with the coordinates it was
    /// packed at, and the completed rows plus the pending cells hold
    /// exactly the nodes fed so far, in order.
    pub open spec fn wf(&self) -> bool {
        let n = self.record.fields@.len() as int;
        &&& self.record.wf()
        &&& self.builder.wf()
        &&& self.builder.nfields == n
        &&& self.row == self.rows@.len()
        &&& self.builder.row == if self.builder.is_satisfied {
            self.rows@.len() - 1
        } else {
            self.rows@.len() as int
        }
        &&& self.builder.is_satisfied ==> self.rows@.len() > 0
        &&& (!self.builder.is_satisfied && self.builder.col == 0) ==> self.rows@.len() == 0
        &&& self.spec_fed() == self.rows@.len() * n
            + if self.builder.is_satisfied { 0int } else { self.builder.col as int }
        &&& forall|i: int| 0 <= i < self.rows@.len() ==> {
            &&& (#[trigger] self.rows@[i]).0@.len() == n
            &&& self.rows@[i].spec_nodes() == self.fed@.subrange(i * n, (i + 1) * n)
            &&& forall|j: int| 0 <= j < n
                ==> (#[trigger] self.rows@[i].0@[j]).row == i && self.rows@[i].0@[j].col == j
        }
        &&& !self.builder.is_satisfied ==> forall|j: int| 0 <= j < self.builder.col
            ==> (#[trigger] self.builder.cells@[j]).node == self.fed@[self.rows@.len() * n + j]
    }

    /// A fresh builder for the given record type: no rows, no pending data.
    pub fn new(record: Struct) -> (tb: TableBuilder)
        requires
            record.wf(),
        ensures
            tb.wf(),
            tb.record == record,
            tb.rows@ == Seq::<Row>::empty(),
            tb.fed@ == Seq::<Node>::empty(),
            tb.spec_fed() == 0,
    {
        let builder = RowBuilder::new(&record, 0);
        TableBuilder { record, rows: Vec::new(), builder, row: 0, fed: Ghost(Seq::empty()) }
    }

    /// Pack one data node into the table: it goes to the next cell of the
    /// current row, and when that row is already satisfied a fresh row is
    /// started first. Fails with `RowSatisfied` only when the record type
    /// has no fields at all, so no row can ever accept data.
    pub fn add_data(&mut self, node: Node) -> (e: Option<ParseError>)
        requires
            old(self).wf(),
        ensures
            final(self).wf(),
            final(self).record == old(self).record,
            e is Some <==> old(self).record.fields@.len() == 0,
            e matches Some(err) ==> err.0 is RowSatisfied && *final(self) == *old(self),
            e is None ==> {
                &&& final(self).fed@ == old(self).fed@.push(node)
                &&& final(self).spec_fed() == old(self).spec_fed() + 1
                &&& final(self).rows@.len() >= old(self).rows@.len()
            },
    {
        let ghost n = self.record.fields@.len() as int;
        if self.builder.is_satisfied() {
            // the current row has already yielded; start the next one
            self.builder = RowBuilder::new(&self.record, self.row);
        }
        let ghost fed0 = self.fed@;
        let ghost rows0 = self.rows@;
        let ghost cells0 = self.builder.cells@;
        let ghost col0 = self.builder.col as int;
        let ghost r = rows0.len() as int;
        proof {
            // whether the row builder was just replaced or carried over,
            // the nodes fed so far are the completed rows plus its cells
            assert(fed0.len() == r * n + col0);
            assert(forall|j: int| 0 <= j < col0 ==> (#[trigger] cells0[j]).node == fed0[r * n + j]);
        }
        match self.builder.add_data(node) {
            Err(e) => Some(e),
            Ok(completed) => {
                proof {
                    self.fed@ = fed0.push(node);
                    assert(self.fed@.len() == r * n + col0 + 1);
                }
                match completed {
                    Some(row) => {
                        self.rows.push(row);
                        proof {
                            assert((r + 1) * n == r * n + n) by (nonlinear_arith);
                            assert(self.rows@[r].spec_nodes() =~= self.fed@.subrange(r * n, (r + 1) * n))
                            by {
                                assert(col0 + 1 == n);
                                assert forall|j: int| 0 <= j < n implies
                                    row.spec_nodes()[j] == self.fed@[r * n + j] by {
                                    if j < col0 {
                                        assert(row.0@[j] == cells0[j]);
                                        assert(self.fed@[r * n + j] == fed0[r * n + j]);
                                    } else {
                                        assert(row.0@[j].node == node);
                                    }
                                }
                            }
                            assert forall|i: int| 0 <= i < self.rows@.len() implies
                                (#[trigger] self.rows@[i]).spec_nodes()
                                    == self.fed@.subrange(i * n, (i + 1) * n) by {
                                if i < r {
                                    assert(self.rows@[i] == rows0[i]);
                                    assert(0 <= i * n <= (i + 1) * n <= r * n) by (nonlinear_arith)
                                        requires 0 <= i < r, n >= 0;
                                    assert(rows0[i].spec_nodes() == fed0.subrange(i * n, (i + 1) * n));
                                    assert(self.fed@.subrange(i * n, (i + 1) * n)
                                        =~= fed0.subrange(i * n, (i + 1) * n));
                                }
                            }
                            assert forall|i: int| 0 <= i < self.rows@.len() implies
                                (#[trigger] self.rows@[i]).0@.len() == n
                                && forall|j: int| 0 <= j < n
                                    ==> (#[trigger] self.rows@[i].0@[j]).row == i
                                        && self.rows@[i].0@[j].col == j by {
                                if i < r {
                                    assert(self.rows@[i] == rows0[i]);
                                } else {
                                    assert(self.rows@[i] == row);
                                    assert forall|j: int| 0 <= j < n implies
                                        (#[trigger] row.0@[j]).row == i && row.0@[j].col == j by {
                                        if j < col0 {
                                            assert(row.0@[j] == cells0[j]);
                                        }
                                    }
                                }
                            }
                        }
                        self.row = self.rows.len();
                        None
                    },
                    None => {
                        proof {
                            assert forall|j: int| 0 <= j < self.builder.col implies
                                (#[trigger] self.builder.cells@[j]).node
                                    == self.fed@[self.rows@.len() * n + j] by {
                                if j < col0 {
                                    assert(self.builder.cells@[j] == cells0[j]);
                                    assert(self.fed@[r * n + j] == fed0[r * n + j]);
                                } else {
                                    assert(self.builder.cells@[j].node == node);
                                }
                            }
                            assert forall|i: int| 0 <= i < self.rows@.len() implies
                                (#[trigger] self.rows@[i]).spec_nodes()
                                    == self.fed@.subrange(i * n, (i + 1) * n) by {
                                assert(0 <= i * n <= (i + 1) * n <= r * n) by (nonlinear_arith)
                                    requires 0 <= i < r, n >= 0;
                                assert(rows0[i].spec_nodes() == fed0.subrange(i * n, (i + 1) * n));
                                assert(self.fed@.subrange(i * n, (i + 1) * n)
                                    =~= fed0.subrange(i * n, (i + 1) * n));
                            }
                        }
                        None
                    },
                }
            },
        }
    }

    /// Close the table. Fails with `Unsatisfied` when the current row is
    /// only partially filled (or no data was ever packed); otherwise hands
    /// back the finished, immutable table.
    pub fn finish(self) -> (r: ParseResult<Table>)
        requires
            self.wf(),
        ensures
            r is Ok <==> self.builder.is_satisfied,
            r is Err ==> r->Err_0.0 is Unsatisfied,
            r is Ok ==> {
                let t = r->Ok_0;
                &&& t.record == self.record
                &&& t.rows@ == self.rows@
                &&& self.spec_fed() == t.rows@.len() * t.record.fields@.len()
            },
    {
        if !self.builder.is_satisfied() {
            // a dangling, partially filled row: the data did not fill a
            // whole number of records
            return Err(ParseError(ParseErrorKind::Unsatisfied));
        }
        Ok(Table { record: self.record, rows: self.rows })
    }
}

/// Law (table row chaining): against a record type of `cols()` primitive
/// fields (`cols() > 0`), a table builder that has been fed `k * cols()`
/// data nodes with `k >= 1` is satisfied — so `finish()` succeeds — and
/// holds exactly `k` completed rows, the fed nodes cut into rows in order;
/// fed any count that is not a whole multiple of `cols()`, it is not
/// satisfied and `finish()` fails with `Unsatisfied`.
pub proof fn lemma_table_chaining(tb: TableBuilder)
    requires
        tb.wf(),
        tb.record.fields@.len() > 0,
        forall|i: int| 0 <= i < tb.record.fields@.len()
            ==> (#[trigger] tb.record.fields@[i]).kind is Primitive,
    ensures
        tb.record.cols == tb.record.fields@.len(),
        tb.builder.is_satisfied <==> (tb.spec_fed() > 0
            && tb.spec_fed() % (tb.record.cols as int) == 0),
        tb.builder.is_satisfied ==> tb.spec_fed() == tb.rows@.len() * (tb.record.cols as int),
        forall|i: int| 0 <= i < tb.rows@.len()
            ==> (#[trigger] tb.rows@[i]).spec_nodes()
                == tb.fed@.subrange(i * (tb.record.cols as int), (i + 1) * (tb.record.cols as int)),
{
    crate::row::lemma_cols_primitive(tb.record.fields@);
    lemma_satisfied_iff(tb);
}

/// A table builder is satisfied — its current row just completed — exactly
/// when it has been fed a positive whole number of records.
pub proof fn lemma_satisfied_iff(tb: TableBuilder)
    requires
        tb.wf(),
    ensures
        tb.builder.is_satisfied <==> (tb.spec_fed() > 0 && tb.record.fields@.len() > 0
            && tb.spec_fed() % (tb.record.fields@.len() as int) == 0),
        tb.builder.is_satisfied ==> tb.spec_fed() == tb.rows@.len() * (tb.record.fields@.len() as int),
{
    let n = tb.record.fields@.len() as int;
    let r = tb.rows@.len() as int;
    if tb.builder.is_satisfied {
        assert(tb.spec_fed() == r * n);
        assert(r >= 1);
        assert(r * n >= n) by (nonlinear_arith)
            requires r >= 1, n > 0;
        vstd::arithmetic::div_mod::lemma_mod_multiples_basic(r, n);
    } else {
        let c = tb.builder.col as int;
        assert(tb.spec_fed() == r * n + c);
        if n > 0 {
            assert(0 <= c < n);
            vstd::arithmetic::div_mod::lemma_mod_multiples_vanish(r, c, n);
            assert(n * r == r * n) by (nonlinear_arith);
            vstd::arithmetic::div_mod::lemma_small_mod(c as nat, n as nat);
            assert((r * n + c) % n == c);
            if c == 0 {
                assert(r == 0);
                assert(tb.spec_fed() == 0) by (nonlinear_arith)
                    requires tb.spec_fed() == r * n + c, r == 0, c == 0;
            }
        }
    }
}

/// The data nodes a sequence of rows holds, in row order.
pub open spec fn rows_data(rows: Seq<Row>) -> Seq<Node>
    decreases rows.len(),
{
    if rows.len() == 0 {
        Seq::empty()
    } else {
        rows_data(rows.drop_last()) + rows.last().spec_nodes()
    }
}

/// The data the first `m` completed rows of a well-formed table builder
/// hold is exactly the first `m` records' worth of the nodes fed to it.
pub proof fn lemma_rows_data(tb: TableBuilder, m: int)
    requires
        tb.wf(),
        0 <= m <= tb.rows@.len(),
    ensures
        rows_data(tb.rows@.subrange(0, m)) == tb.fed@.subrange(
            0,
            m * tb.record.fields@.len() as int,
        ),
    decreases m,
{
    let n = tb.record.fields@.len() as int;
    if m == 0 {
        assert(rows_data(tb.rows@.subrange(0, 0)) =~= tb.fed@.subrange(0, 0));
    } else {
        lemma_rows_data(tb, m - 1);
        let pre = tb.rows@.subrange(0, m);
        assert(pre.drop_last() =~= tb.rows@.subrange(0, m - 1));
        assert(pre.last() == tb.rows@[m - 1]);
        assert(0 <= (m - 1) * n && (m - 1) * n + n == m * n) by (nonlinear_arith)
            requires m >= 1, n >= 0;
        assert(m * n <= tb.rows@.len() * n) by (nonlinear_arith)
            requires m <= tb.rows@.len(), n >= 0;
        assert(tb.rows@[m - 1].spec_nodes() == tb.fed@.subrange((m - 1) * n, m * n));
        assert(rows_data(pre) =~= tb.fed@.subrange(0, m * n));
    }
}

/// A satisfied table builder's completed rows hold exactly the nodes fed
/// to it, in order.
pub proof fn lemma_rows_data_full(tb: TableBuilder)
    requires
        tb.wf(),
        tb.builder.is_satisfied,
    ensures
        rows_data(tb.rows@) == tb.fed@,
{
    lemma_satisfied_iff(tb);
    let n = tb.record.fields@.len() as int;
    lemma_rows_data(tb, tb.rows@.len() as int);
    assert(tb.rows@.subrange(0, tb.rows@.len() as int) =~= tb.rows@);
    assert(tb.rows@.len() * n == tb.fed@.len());
    assert(tb.fed@.subrange(0, tb.fed@.len() as int) =~= tb.fed@);
}

} // verus!
