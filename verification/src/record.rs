//! User-defined record types: the schema that describes how literal values
//! are packed into byte-aligned storage.
//!
//! A [`Struct`] is an ordered sequence of [`Field`]s with two derived,
//! incrementally accumulated counters: its `stride` (the byte width of one
//! record instance) and its `cols` (the number of leaf columns, counting
//! through nested record types).

use vstd::prelude::*;

use crate::error::{ParseError, ParseErrorKind, ParseResult};
use crate::list::List;
use crate::node::{Node, NodeKind};
use crate::ptype::PType;
use crate::token::Token;

verus! {

/// The data type of one field: a primitive, or a nested record type.
#[derive(Debug)]
pub enum FieldKind {
    /// A native primitive type of the target system.
    Primitive(PType),
    /// A nested record type.
    Struct(Box<Struct>),
}

/// One column of a record type.
#[derive(Debug)]
pub struct Field {
    /// A reference back to the source code where the field was declared,
    /// for error messages when a value does not fit the field.
    pub token: Option<Token>,
    /// The data type of the field.
    pub kind: FieldKind,
}

/// A user-defined record type: an ordered list of fields plus the
/// accumulated byte stride and leaf-column count.
#[derive(Debug)]
pub struct Struct {
    /// The fields of the record type, in declaration order.
    pub fields: Vec<Field>,
    /// Width in bytes of one record instance, accumulated under the
    /// byte-rounding rule of [`ceil_byte`].
    pub stride: usize,
    /// Number of leaf columns, counting through nested record types.
    pub cols: usize,
}

/// The bytes taken by a field of the given width in bits: widths of 1 and 4
/// bits round up to a whole byte (bit-packing below the byte is declared but
/// not implemented); wider widths are whole multiples of eight bits.
pub open spec fn ceil_byte(bits: nat) -> nat {
    (bits + 7) / 8
}

/// Sum of the byte-rounded widths of a sequence of fields.
pub open spec fn stride_of(fields: Seq<Field>) -> nat
    decreases fields.len(),
{
    if fields.len() == 0 {
        0
    } else {
        stride_of(fields.drop_last()) + ceil_byte(fields.last().spec_bits())
    }
}

/// Sum of the column counts of a sequence of fields.
pub open spec fn cols_of(fields: Seq<Field>) -> nat
    decreases fields.len(),
{
    if fields.len() == 0 {
        0
    } else {
        cols_of(fields.drop_last()) + fields.last().spec_cols()
    }
}

impl Field {
    /// Width of the field in bits: a primitive's own width, or eight times
    /// the nested record type's stride.
    pub open spec fn spec_bits(&self) -> nat {
        match self.kind {
            FieldKind::Primitive(p) => p.spec_bits(),
            FieldKind::Struct(s) => (s.stride * 8) as nat,
        }
    }

    /// Number of leaf columns of the field: one for a primitive, the nested
    /// record type's own column count for a struct field.
    pub open spec fn spec_cols(&self) -> nat {
        match self.kind {
            FieldKind::Primitive(_) => 1,
            FieldKind::Struct(s) => s.cols as nat,
        }
    }

    /// Well-formed: a nested record type is itself well-formed.
    pub open spec fn wf(&self) -> bool
        decreases self,
    {
        match self.kind {
            FieldKind::Primitive(_) => true,
            FieldKind::Struct(s) => s.wf(),
        }
    }

    /// Number of leaf columns of the field.
    pub fn cols(&self) -> (n: usize)
        ensures
            n == self.spec_cols(),
            self.kind is Primitive ==> n == 1,
    {
        match &self.kind {
            FieldKind::Primitive(_) => 1,
            FieldKind::Struct(s) => s.cols,
        }
    }

    /// Width of the field in bits.
    pub fn bits(&self) -> (n: usize)
        requires
            self.spec_bits() <= usize::MAX,
        ensures
            n == self.spec_bits(),
    {
        match &self.kind {
            FieldKind::Primitive(p) => p.bits(),
            FieldKind::Struct(s) => s.stride * 8,
        }
    }

    /// A primitive field, with no source reference.
    pub fn from_ptype(p: PType) -> (f: Field)
        ensures
            f.wf(),
            f.kind == FieldKind::Primitive(p),
            f.token is None,
    {
        Field { token: None, kind: FieldKind::Primitive(p) }
    }

    /// Does this node resolve to a field? Only primitive types resolve in
    /// this pass: a nested struct name is a recognised but unresolved
    /// construct, and anything else in a record-type list is a caller error.
    pub open spec fn node_field_ok(node: Node) -> bool {
        match node.token {
            Some(t) => t.spec_is_type_primitive(),
            None => node.kind is Primitive,
        }
    }

    /// The field a node resolves to; meaningful when `node_field_ok` holds.
    pub open spec fn spec_of_node(node: Node) -> Field {
        match node.token {
            Some(t) => Field { token: Some(t), kind: FieldKind::Primitive(t.spec_ptype()) },
            None => Field {
                token: None,
                kind: match node.kind {
                    NodeKind::Primitive(p) => FieldKind::Primitive(p),
                    _ => FieldKind::Primitive(PType::BYTE),
                },
            },
        }
    }

    /// The error kind reported for a node that does not resolve to a field;
    /// meaningful when `node_field_ok` does not hold. A struct-type name or
    /// a tokenless non-primitive node is `Unimplemented` (recognised, not
    /// yet resolvable); any other token in a type list is `Unexpected`.
    pub open spec fn node_field_err(node: Node) -> ParseErrorKind {
        match node.token {
            Some(t) => if t.spec_is_type_struct() {
                ParseErrorKind::Unimplemented
            } else {
                ParseErrorKind::Unexpected
            },
            None => ParseErrorKind::Unimplemented,
        }
    }

    /// Resolve one node of a record-type declaration into a field. The
    /// node's token gives the field's type; a node without a token resolves
    /// from its own kind. Nested struct names fail with `Unimplemented`
    /// (cross-module resolution is a later pass); a non-type token fails
    /// with `Unexpected`.
    pub fn try_from_node(node: &Node) -> (r: ParseResult<Field>)
        ensures
            r is Ok <==> Field::node_field_ok(*node),
            r is Ok ==> r->Ok_0 == Field::spec_of_node(*node),
            r is Ok ==> r->Ok_0.wf(),
            r is Err ==> r->Err_0.0 == Field::node_field_err(*node),
    {
        match &node.token {
            Some(t) => {
                if t.is_type_primitive() {
                    let pt = match t.rule {
                        crate::token::TokenRule::TypeBool => PType::BOOL,
                        crate::token::TokenRule::TypeNybl => PType::NYBL,
                        crate::token::TokenRule::TypeByte => PType::BYTE,
                        crate::token::TokenRule::TypeWord => PType::WORD,
                        _ => PType::LONG,
                    };
                    Ok(Field { token: Some(t.clone()), kind: FieldKind::Primitive(pt) })
                } else if t.is_type_struct() {
                    Err(ParseError(ParseErrorKind::Unimplemented))
                } else {
                    Err(ParseError(ParseErrorKind::Unexpected))
                }
            },
            None => {
                match &node.kind {
                    NodeKind::Primitive(p) => {
                        Ok(Field { token: None, kind: FieldKind::Primitive(*p) })
                    },
                    _ => Err(ParseError(ParseErrorKind::Unimplemented)),
                }
            },
        }
    }
}

impl Struct {
    /// Well-formed: every field is well-formed and the two accumulated
    /// counters agree with the fields.
    pub open spec fn wf(&self) -> bool
        decreases self,
    {
        &&& forall|i: int| 0 <= i < self.fields@.len() ==> (#[trigger] self.fields@[i]).wf()
        &&& self.stride == stride_of(self.fields@)
        &&& self.cols == cols_of(self.fields@)
    }

    /// An empty record type: no fields, no bytes, no columns.
    pub fn new() -> (s: Struct)
        ensures
            s.wf(),
            s.fields@ == Seq::<Field>::empty(),
            s.stride == 0,
            s.cols == 0,
    {
        Struct { fields: Vec::new(), stride: 0, cols: 0 }
    }

    /// The width of one record instance, in bytes. An O(1) read of the
    /// accumulated counter; never recomputed.
    pub fn stride(&self) -> (n: usize)
        ensures
            n == self.stride,
    {
        self.stride
    }

    /// The number of leaf columns, counting through nested record types.
    /// An O(1) read of the accumulated counter; never recomputed.
    pub fn cols(&self) -> (n: usize)
        ensures
            n == self.cols,
    {
        self.cols
    }

    /// Add a field: appends it, grows the stride by the field's
    /// byte-rounded width, and grows the column count by the field's own
    /// column count. Chainable; there is no rollback.
    pub fn add_field(self, field: Field) -> (s: Struct)
        requires
            self.wf(),
            field.wf(),
            self.stride + ceil_byte(field.spec_bits()) <= usize::MAX,
            self.cols + field.spec_cols() <= usize::MAX,
        ensures
            s.wf(),
            s.fields@ == self.fields@.push(field),
            s.stride == self.stride + ceil_byte(field.spec_bits()),
            s.cols == self.cols + field.spec_cols(),
    {
        let wbytes: usize = match &field.kind {
            FieldKind::Primitive(p) => {
                match p {
                    PType::BOOL => 1,
                    PType::NYBL => 1,
                    PType::BYTE => 1,
                    PType::WORD => 2,
                    PType::LONG => 4,
                }
            },
            FieldKind::Struct(s) => s.stride,
        };
        assert(wbytes == ceil_byte(field.spec_bits()));
        let wcols = field.cols();
        let mut fields = self.fields;
        let ghost oldfields = fields@;
        let stride = self.stride + wbytes;
        let cols = self.cols + wcols;
        fields.push(field);
        let s = Struct { fields, stride, cols };
        proof {
            assert(s.fields@.drop_last() =~= oldfields);
            assert(s.fields@.last() == field);
            assert forall|i: int| 0 <= i < s.fields@.len() implies (#[trigger] s.fields@[i]).wf() by {
                if i < oldfields.len() {
                    assert(s.fields@[i] == oldfields[i]);
                } else {
                    assert(s.fields@[i] == field);
                }
            }
        }
        s
    }

    /// The field at the given position.
    pub fn field(&self, index: usize) -> (f: &Field)
        requires
            index < self.fields@.len(),
        ensures
            *f == self.fields@[index as int],
    {
        &self.fields[index]
    }

    /// "Resolve" a record-type declaration — a list of type nodes — into a
    /// record type, one field per node in order. Construction is
    /// all-or-nothing: the first node that does not resolve aborts with its
    /// error (`Unimplemented` for a nested struct name, `Unexpected` for a
    /// node that is no type at all), and succeeds if and only if every node
    /// resolves.
    pub fn try_from_list(list: &List) -> (r: ParseResult<Struct>)
        requires
            list.wf(),
            list.spec_nodes().len() * 4 <= usize::MAX,
        ensures
            r is Ok <==> (forall|i: int| 0 <= i < list.spec_nodes().len()
                ==> Field::node_field_ok(#[trigger] list.spec_nodes()[i])),
            r is Ok ==> {
                let s = r->Ok_0;
                &&& s.wf()
                &&& s.fields@.len() == list.spec_nodes().len()
                &&& forall|i: int| 0 <= i < s.fields@.len()
                    ==> #[trigger] s.fields@[i] == Field::spec_of_node(list.spec_nodes()[i])
            },
            r is Err ==> exists|i: int| {
                &&& 0 <= i < list.spec_nodes().len()
                &&& !Field::node_field_ok(#[trigger] list.spec_nodes()[i])
                &&& (forall|j: int| 0 <= j < i ==> Field::node_field_ok(#[trigger] list.spec_nodes()[j]))
                &&& r->Err_0.0 == Field::node_field_err(list.spec_nodes()[i])
            },
    {
        let mut acc = Struct::new();
        let len = list.len();
        let mut i: usize = 0;
        while i < len
            invariant
                list.wf(),
                list.spec_nodes().len() * 4 <= usize::MAX,
                len == list.spec_nodes().len(),
                0 <= i <= len,
                acc.wf(),
                acc.fields@.len() == i,
                forall|j: int| 0 <= j < i ==> Field::node_field_ok(#[trigger] list.spec_nodes()[j]),
                forall|j: int| 0 <= j < i
                    ==> #[trigger] acc.fields@[j] == Field::spec_of_node(list.spec_nodes()[j]),
                acc.stride <= 4 * i,
                acc.cols <= i,
            decreases len - i,
        {
            let node = list.get(i);
            let field = match Field::try_from_node(node) {
                Ok(f) => f,
                Err(e) => {
                    return Err(e);
                },
            };
            proof {
                // a primitive field is at most four bytes wide and one
                // column; the accumulators stay well within the machine range
                assert(ceil_byte(field.spec_bits()) <= 4);
                assert(field.spec_cols() == 1);
            }
            acc = acc.add_field(field);
            i = i + 1;
        }
        Ok(acc)
    }
}

/// Law: for any well-formed record type, the stride is the sum over its
/// fields of the byte-rounded width `ceil_byte`, where widths of 1 and 4
/// bits round up to one byte and a width that is a whole number of bytes
/// contributes exactly that number of bytes.
pub proof fn lemma_stride_invariant(s: Struct)
    requires
        s.wf(),
    ensures
        s.stride == stride_of(s.fields@),
        ceil_byte(1) == 1,
        ceil_byte(4) == 1,
        forall|w: nat| w % 8 == 0 ==> #[trigger] ceil_byte(w) == w / 8,
{
    assert forall|w: nat| w % 8 == 0 implies #[trigger] ceil_byte(w) == w / 8 by {
        assert((w + 7) / 8 == w / 8) by (nonlinear_arith)
            requires w % 8 == 0;
    }
}

/// Law: for any well-formed record type, the column count is the sum of its
/// fields' column counts, and a primitive field counts exactly one column.
pub proof fn lemma_cols_invariant(s: Struct)
    requires
        s.wf(),
    ensures
        s.cols == cols_of(s.fields@),
        forall|f: Field| f.kind is Primitive ==> #[trigger] f.spec_cols() == 1,
{
}

} // verus!
