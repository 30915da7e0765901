//! Page-level pruning on the encoded primary key: predicates on the first
//! tag column become ranges of encoded keys, which page statistics can be
//! held against without decoding a row.

use vstd::prelude::*;
use vstd::string::StringExecFns;
use crate::consts::PRIMARY_KEY_COLUMN_NAME;
use crate::datatypes::{ConcreteDataType, Value, ValueView};
use crate::expr::{
    exprs_view, Column, ColumnView, DfDataType, ExprView, Operator, PhysicalExpr, Predicate,
    ScalarValue, ScalarView, Transformed,
};
use crate::byte_order::is_prefix;
use crate::expr::{ArrayData, ArrayView, ColumnarValue, ColumnarView, RecordBatch, batch_view};
use crate::descriptors::ColumnId;
use crate::metadata::{ReadFormat, RegionMetadataView, SemanticType};
pub use crate::prefix_range::get_prefix_end_key;
use crate::prefix_range::prefix_end;
use crate::row_converter::{
    decodable, encode_row, row_fits, CodecError, McmpRowCodec, SortField, lemma_decode_unique,
};
use crate::datatypes::row_view;
use crate::text::str_eq;

verus! {

/// An expression that decodes one tag column out of the encoded primary key.
#[derive(Debug)]
pub struct DecodePrimaryKey {
    read_format: ReadFormat,
    /// The column to decode, the encoded primary key.
    encoded_column: Column,
    required_column_name: String,
    /// Position of the required column in the primary key.
    required_index: usize,
    decoder: McmpRowCodec,
    /// Type of the result in evaluation.
    datatype: DfDataType,
    /// Type of the required column.
    concrete_datatype: ConcreteDataType,
}

/// What a [`DecodePrimaryKey`] stands for.
pub struct DecodePrimaryKeyView {
    /// The column that is decoded from.
    pub encoded_column: ColumnView,
    /// The name of the tag column that is decoded.
    pub required_column_name: Seq<char>,
    /// The position of that column in the primary key.
    pub required_index: usize,
    /// The fields of the decoder.
    pub decoder: Seq<ConcreteDataType>,
    /// The type of the result in evaluation.
    pub datatype: DfDataType,
    /// The type of the tag column.
    pub concrete_datatype: ConcreteDataType,
}

impl DecodePrimaryKeyView {
    /// Two nodes are taken for the same where they decode a column of the
    /// same name from the same child into the same type.
    pub open spec fn same_node(self, other: DecodePrimaryKeyView) -> bool {
        &&& self.required_column_name == other.required_column_name
        &&& self.encoded_column == other.encoded_column
        &&& self.datatype == other.datatype
    }
}

impl View for DecodePrimaryKey {
    type V = DecodePrimaryKeyView;

    closed spec fn view(&self) -> DecodePrimaryKeyView {
        DecodePrimaryKeyView {
            encoded_column: self.encoded_column@,
            required_column_name: self.required_column_name@,
            required_index: self.required_index,
            decoder: self.decoder@,
            datatype: self.datatype,
            concrete_datatype: self.concrete_datatype,
        }
    }
}

impl Clone for DecodePrimaryKey {
    fn clone(&self) -> (r: Self)
        ensures
            r@ == self@,
    {
        Self {
            read_format: self.read_format.clone(),
            encoded_column: self.encoded_column.clone(),
            required_column_name: self.required_column_name.clone(),
            required_index: self.required_index,
            decoder: self.decoder.clone(),
            datatype: self.datatype,
            concrete_datatype: self.concrete_datatype,
        }
    }
}

impl PartialEq for DecodePrimaryKey {
    fn eq(&self, other: &Self) -> (r: bool) {
        str_eq(self.required_column_name.as_str(), other.required_column_name.as_str())
            && self.encoded_column.same(&other.encoded_column) && self.datatype == other.datatype
    }
}

impl vstd::std_specs::cmp::PartialEqSpecImpl for DecodePrimaryKey {
    open spec fn obeys_eq_spec() -> bool {
        true
    }

    open spec fn eq_spec(&self, other: &Self) -> bool {
        self@.same_node(other@)
    }
}

impl Eq for DecodePrimaryKey {

}

/// An input of a kind that an expression does not take.
#[derive(Debug, Clone, Copy, PartialEq, Eq, Structural)]
pub enum ShapeError {
    /// What was to be decoded is neither a binary value nor a column of
    /// binary values.
    NotBinary,
    /// The batch has no column at the position of the encoded primary key.
    ColumnOutOfBounds,
    /// Not exactly one child was given.
    ChildCount,
    /// The child is no reference to a column.
    ChildNotColumn,
}

/// Why a key could not be decoded.
#[derive(Debug, Clone, Copy, PartialEq, Eq, Structural)]
pub enum PruneError {
    Codec(CodecError),
    Shape(ShapeError),
}

/// The reference to the encoded primary key in rows of the layout of
/// `metadata`.
pub open spec fn key_column_view(metadata: RegionMetadataView) -> ColumnView {
    ColumnView { name: PRIMARY_KEY_COLUMN_NAME@, index: metadata.primary_key_position() as usize }
}

impl DecodePrimaryKeyView {
    /// The node decodes the tag column named `name` of a region with the
    /// metadata `metadata`: from the encoded primary key of the region's
    /// rows, by a codec of one field of the column's type, at the column's
    /// position in the primary key.
    pub open spec fn decodes(self, metadata: RegionMetadataView, name: Seq<char>) -> bool {
        &&& metadata.column_by_name(name) matches Some(c)
        &&& self.encoded_column == key_column_view(metadata)
        &&& self.required_column_name == name
        &&& self.required_index < metadata.primary_key.len()
        &&& metadata.primary_key[self.required_index as int] == c.column_id
        &&& self.decoder == seq![c.column_schema.data_type]
        &&& self.datatype == c.column_schema.data_type.as_arrow_type()
        &&& self.concrete_datatype == c.column_schema.data_type
    }

    /// The value of the required column in the key `bytes`: the field at
    /// the required position of the row that the decoder reads from the
    /// front of `bytes`.
    pub open spec fn decode_key(self, bytes: Seq<u8>) -> Result<ScalarView, PruneError> {
        if !decodable(self.decoder, bytes) {
            Err(PruneError::Codec(CodecError::Malformed))
        } else {
            let row = choose|row: Seq<ValueView>|
                row_fits(self.decoder, row) && is_prefix(encode_row(row), bytes);
            if self.required_index >= row.len() {
                Err(PruneError::Codec(CodecError::FieldCount))
            } else if !row[self.required_index as int].fits(self.concrete_datatype) {
                Err(PruneError::Codec(CodecError::TypeMismatch))
            } else {
                Ok(row[self.required_index as int].to_scalar(self.concrete_datatype))
            }
        }
    }

    /// What one value of the encoded primary key is decoded to: a key to
    /// the value of the required column, a null to the null of the result's
    /// type. Values that are not binary are not taken.
    pub open spec fn decode_scalar(self, value: ScalarView) -> Result<ScalarView, PruneError> {
        match value {
            ScalarView::Binary(Some(bytes)) => self.decode_key(bytes),
            ScalarView::Binary(None) => Ok(ScalarView::null(self.datatype)),
            _ => Err(PruneError::Shape(ShapeError::NotBinary)),
        }
    }

    /// What the values of a column are decoded to, each by itself: the
    /// decoded values in the order of the rows, or the error of the first
    /// value that cannot be decoded.
    pub open spec fn decode_values(self, values: Seq<ScalarView>) -> Result<
        Seq<ScalarView>,
        PruneError,
    >
        decreases values.len(),
    {
        if values.len() == 0 {
            Ok(Seq::empty())
        } else {
            match self.decode_values(values.drop_last()) {
                Err(e) => Err(e),
                Ok(front) => match self.decode_scalar(values.last()) {
                    Ok(v) => Ok(front.push(v)),
                    Err(e) => Err(e),
                },
            }
        }
    }

    /// What a column of encoded keys is decoded to: a column of the
    /// result's type.
    pub open spec fn decode_array(self, array: ArrayView) -> Result<ArrayView, PruneError> {
        if array.data_type != DfDataType::Binary {
            Err(PruneError::Shape(ShapeError::NotBinary))
        } else {
            match self.decode_values(array.values) {
                Ok(values) => Ok(ArrayView { data_type: self.datatype, values }),
                Err(e) => Err(e),
            }
        }
    }

    /// What the value of the child is decoded to.
    pub open spec fn decode_columnar(self, value: ColumnarView) -> Result<
        ColumnarView,
        PruneError,
    > {
        match value {
            ColumnarView::Scalar(s) => match self.decode_scalar(s) {
                Ok(v) => Ok(ColumnarView::Scalar(v)),
                Err(e) => Err(e),
            },
            ColumnarView::Array(a) => match self.decode_array(a) {
                Ok(v) => Ok(ColumnarView::Array(v)),
                Err(e) => Err(e),
            },
        }
    }

    /// What the node evaluates to on a batch: the decoded column of encoded
    /// keys, which the batch must have.
    pub open spec fn evaluate(self, batch: Seq<ArrayView>) -> Result<ColumnarView, PruneError> {
        if self.encoded_column.index >= batch.len() {
            Err(PruneError::Shape(ShapeError::ColumnOutOfBounds))
        } else {
            self.decode_columnar(ColumnarView::Array(batch[self.encoded_column.index as int]))
        }
    }

    /// What the node becomes with `children` in place of its child: the
    /// same node on the column that is the one child.
    pub open spec fn with_new_children(self, children: Seq<ExprView>) -> Result<
        DecodePrimaryKeyView,
        PruneError,
    > {
        if children.len() != 1 {
            Err(PruneError::Shape(ShapeError::ChildCount))
        } else {
            match children[0] {
                ExprView::Column(c) => Ok(DecodePrimaryKeyView { encoded_column: c, ..self }),
                _ => Err(PruneError::Shape(ShapeError::ChildNotColumn)),
            }
        }
    }
}

/// Once a value cannot be decoded, the column cannot.
proof fn lemma_decode_values_fails(d: DecodePrimaryKeyView, values: Seq<ScalarView>, k: int)
    requires
        0 <= k <= values.len(),
        d.decode_values(values.take(k)) is Err,
    ensures
        d.decode_values(values) == d.decode_values(values.take(k)),
    decreases values.len() - k,
{
    if k == values.len() {
        assert(values.take(k) =~= values);
    } else {
        let next = values.take(k + 1);
        assert(next.drop_last() =~= values.take(k));
        lemma_decode_values_fails(d, values, k + 1);
    }
}

/// The position of `id` in `primary_key`, or the length of `primary_key`
/// where it is not there.
fn position_in_key(primary_key: &Vec<ColumnId>, id: ColumnId) -> (r: usize)
    ensures
        r <= primary_key@.len(),
        forall|j: int| 0 <= j < r ==> primary_key@[j] != id,
        r < primary_key@.len() ==> primary_key@[r as int] == id,
{
    let mut i: usize = 0;
    while i < primary_key.len()
        invariant
            i <= primary_key@.len(),
            forall|j: int| 0 <= j < i ==> primary_key@[j] != id,
        decreases primary_key@.len() - i,
    {
        if primary_key[i] == id {
            return i;
        }
        i += 1;
    }
    i
}

impl DecodePrimaryKey {
    /// The node that decodes the tag column `required_column`, which must
    /// be one, from the encoded primary key of the rows of `read_format`.
    pub fn new(read_format: ReadFormat, required_column: &str) -> (r: Self)
        requires
            read_format@.is_tag(required_column@),
        ensures
            r@.decodes(read_format@, required_column@),
    {
        let encoded_column = Column::new(
            PRIMARY_KEY_COLUMN_NAME,
            read_format.primary_key_position(),
        );
        let metadata = read_format.metadata();
        let required = metadata.column_by_name(required_column).unwrap();
        let required_column_id = required.column_id;
        let relative_index = position_in_key(&metadata.primary_key, required_column_id);
        let required_column_type = required.column_schema.data_type();
        let required_column_name = required.column_schema.name().clone();
        proof {
            let m = read_format@;
            let k = choose|k: int|
                m.is_first_named(k, required_column@) && m.columns[k] == required@;
            assert(m.columns[k].semantic_type == SemanticType::Tag);
            assert(m.primary_key.contains(required_column_id));
        }
        let decoder = McmpRowCodec::new(vec![SortField::new(required_column_type)]);
        assert(decoder@ =~= seq![required_column_type]);
        Self {
            read_format,
            encoded_column,
            required_column_name,
            required_index: relative_index,
            decoder,
            datatype: required_column_type.as_arrow_type(),
            concrete_datatype: required_column_type,
        }
    }

    /// Decodes the value of the required column from the key `bytes`. The
    /// decoder reads as many fields from the front of the key as it has;
    /// where the required column lies behind them, there is no field to
    /// return, and the key is not decoded.
    pub fn decode_one(&self, bytes: &[u8]) -> (r: Result<ScalarValue, PruneError>)
        ensures
            match r {
                Ok(v) => self@.decode_key(bytes@) == Ok::<ScalarView, PruneError>(v@),
                Err(e) => self@.decode_key(bytes@) == Err::<ScalarView, PruneError>(e),
            },
    {
        let decoded = match self.decoder.decode(bytes) {
            Ok(row) => row,
            Err(e) => {
                return Err(PruneError::Codec(e));
            },
        };
        proof {
            let found = row_view(decoded@);
            let row = choose|row: Seq<ValueView>|
                row_fits(self@.decoder, row) && is_prefix(encode_row(row), bytes@);
            lemma_decode_unique(self@.decoder, row, found, bytes@);
        }
        if self.required_index >= decoded.len() {
            return Err(PruneError::Codec(CodecError::FieldCount));
        }
        match decoded[self.required_index].try_to_scalar_value(&self.concrete_datatype) {
            Some(v) => Ok(v),
            None => Err(PruneError::Codec(CodecError::TypeMismatch)),
        }
    }

    /// Decodes one value of the encoded primary key.
    pub fn decode_scalar(&self, value: &ScalarValue) -> (r: Result<ScalarValue, PruneError>)
        ensures
            match r {
                Ok(v) => self@.decode_scalar(value@) == Ok::<ScalarView, PruneError>(v@),
                Err(e) => self@.decode_scalar(value@) == Err::<ScalarView, PruneError>(e),
            },
    {
        match value {
            ScalarValue::Binary(Some(bytes)) => self.decode_one(bytes.as_slice()),
            ScalarValue::Binary(None) => Ok(ScalarValue::null(self.datatype)),
            _ => Err(PruneError::Shape(ShapeError::NotBinary)),
        }
    }

    /// Decodes a column of encoded keys, each row by itself.
    pub fn decode_array(&self, array: &ArrayData) -> (r: Result<ArrayData, PruneError>)
        ensures
            match r {
                Ok(v) => self@.decode_array(array@) == Ok::<ArrayView, PruneError>(v@),
                Err(e) => self@.decode_array(array@) == Err::<ArrayView, PruneError>(e),
            },
    {
        if array.data_type != DfDataType::Binary {
            return Err(PruneError::Shape(ShapeError::NotBinary));
        }
        let ghost values = array@.values;
        let mut out: Vec<ScalarValue> = Vec::new();
        let mut i: usize = 0;
        assert(values.take(0) =~= Seq::<ScalarView>::empty());
        assert(out@.map_values(|v: ScalarValue| v@) =~= Seq::<ScalarView>::empty());
        while i < array.values.len()
            invariant
                i <= array.values@.len(),
                array.data_type == DfDataType::Binary,
                values == array@.values,
                self@.decode_values(values.take(i as int)) == Ok::<Seq<ScalarView>, PruneError>(
                    out@.map_values(|v: ScalarValue| v@),
                ),
            decreases array.values@.len() - i,
        {
            let ghost old_out = out@.map_values(|v: ScalarValue| v@);
            proof {
                let next = values.take(i + 1);
                assert(next.drop_last() =~= values.take(i as int));
                assert(next.last() == array.values@[i as int]@);
            }
            match self.decode_scalar(&array.values[i]) {
                Ok(v) => {
                    out.push(v);
                    assert(out@.map_values(|v: ScalarValue| v@) =~= old_out.push(v@));
                },
                Err(e) => {
                    proof {
                        assert(self@.decode_values(values.take(i + 1)) == Err::<
                            Seq<ScalarView>,
                            PruneError,
                        >(e));
                        lemma_decode_values_fails(self@, values, i + 1);
                    }
                    return Err(e);
                },
            }
            i += 1;
        }
        assert(values.take(i as int) =~= values);
        Ok(ArrayData { data_type: self.datatype, values: out })
    }

    /// Decodes what the child evaluates to.
    pub fn decode_columnar(&self, value: &ColumnarValue) -> (r: Result<ColumnarValue, PruneError>)
        ensures
            match r {
                Ok(v) => self@.decode_columnar(value@) == Ok::<ColumnarView, PruneError>(v@),
                Err(e) => self@.decode_columnar(value@) == Err::<ColumnarView, PruneError>(e),
            },
    {
        match value {
            ColumnarValue::Scalar(s) => match self.decode_scalar(s) {
                Ok(v) => Ok(ColumnarValue::Scalar(v)),
                Err(e) => Err(e),
            },
            ColumnarValue::Array(a) => match self.decode_array(a) {
                Ok(v) => Ok(ColumnarValue::Array(v)),
                Err(e) => Err(e),
            },
        }
    }

    /// Evaluates the node on a batch: the required column's value for each
    /// row.
    pub fn evaluate(&self, batch: &RecordBatch) -> (r: Result<ColumnarValue, PruneError>)
        ensures
            match r {
                Ok(v) => self@.evaluate(batch_view(*batch)) == Ok::<ColumnarView, PruneError>(v@),
                Err(e) => self@.evaluate(batch_view(*batch)) == Err::<ColumnarView, PruneError>(
                    e,
                ),
            },
    {
        let index = self.encoded_column.index();
        if index >= batch.columns.len() {
            return Err(PruneError::Shape(ShapeError::ColumnOutOfBounds));
        }
        match self.decode_array(&batch.columns[index]) {
            Ok(v) => Ok(ColumnarValue::Array(v)),
            Err(e) => Err(e),
        }
    }

    /// The reference to the encoded primary key that is decoded from.
    pub fn encoded_column(&self) -> (r: &Column)
        ensures
            r@ == self@.encoded_column,
    {
        &self.encoded_column
    }

    /// The name of the tag column that is decoded.
    pub fn required_column_name(&self) -> (r: &str)
        ensures
            r@ == self@.required_column_name,
    {
        self.required_column_name.as_str()
    }

    /// The position of the tag column in the primary key.
    pub fn required_index(&self) -> (r: usize)
        ensures
            r == self@.required_index,
    {
        self.required_index
    }

    /// The type of the tag column.
    pub fn concrete_data_type(&self) -> (r: ConcreteDataType)
        ensures
            r == self@.concrete_datatype,
    {
        self.concrete_datatype
    }

    /// The node in text: the name of the tag column, ` @ `, and the child.
    pub fn to_string(&self) -> (r: String)
        ensures
            r@ == self@.required_column_name + seq![' ', '@', ' '] + self@.encoded_column.text(),
    {
        proof {
            reveal_strlit(" @ ");
        }
        let mut s = self.required_column_name.clone();
        s.append(" @ ");
        let child = self.encoded_column.to_string();
        s.append(child.as_str());
        s
    }

    /// The type of the result in evaluation.
    pub fn data_type(&self) -> (r: DfDataType)
        ensures
            r == self@.datatype,
    {
        self.datatype
    }

    /// Whether the node reports that it may evaluate to a null: it does not.
    pub fn nullable(&self) -> (r: bool)
        ensures
            !r,
    {
        false
    }

    /// The one child: the reference to the encoded primary key.
    pub fn children(&self) -> (r: Vec<PhysicalExpr>)
        ensures
            exprs_view(r@) == seq![ExprView::Column(self@.encoded_column)],
    {
        let r = vec![PhysicalExpr::Column(self.encoded_column.clone())];
        assert(exprs_view(r@) =~= seq![ExprView::Column(self@.encoded_column)]);
        r
    }

    /// The same node on another child, which must be the only one given
    /// and a reference to a column.
    pub fn with_new_children(&self, children: Vec<PhysicalExpr>) -> (r: Result<Self, PruneError>)
        ensures
            match r {
                Ok(d) => self@.with_new_children(exprs_view(children@)) == Ok::<
                    DecodePrimaryKeyView,
                    PruneError,
                >(d@),
                Err(e) => self@.with_new_children(exprs_view(children@)) == Err::<
                    DecodePrimaryKeyView,
                    PruneError,
                >(e),
            },
    {
        if children.len() != 1 {
            return Err(PruneError::Shape(ShapeError::ChildCount));
        }
        assert(exprs_view(children@)[0] == children@[0]@);
        let column = match &children[0] {
            PhysicalExpr::Column(column) => column.clone(),
            _ => {
                return Err(PruneError::Shape(ShapeError::ChildNotColumn));
            },
        };
        Ok(
            Self {
                read_format: self.read_format.clone(),
                encoded_column: column,
                required_column_name: self.required_column_name.clone(),
                required_index: self.required_index,
                decoder: self.decoder.clone(),
                datatype: self.datatype,
                concrete_datatype: self.concrete_datatype,
            },
        )
    }

    /// Whether `other` is a node that is taken for the same as this one.
    pub fn eq_expr(&self, other: &PhysicalExpr) -> (r: bool)
        ensures
            r == match other@ {
                ExprView::DecodePrimaryKey(d) => self@.same_node(d),
                _ => false,
            },
    {
        match other {
            PhysicalExpr::DecodePrimaryKey(d) => self == d,
            _ => false,
        }
    }
}

/// The column that is the left operand of `e`, where `e` is a binary
/// expression with a column on its left.
pub open spec fn left_column(e: ExprView) -> Option<ColumnView> {
    match e {
        ExprView::BinaryExpr { left, op, right } => match *left {
            ExprView::Column(c) => Some(c),
            _ => None,
        },
        _ => None,
    }
}

/// `e` is a binary expression whose left operand is the column named `name`.
pub open spec fn compares_column(e: ExprView, name: Seq<char>) -> bool {
    match left_column(e) {
        Some(c) => c.name == name,
        None => false,
    }
}

/// The string `v` where `e` has the form `left = v`, with `v` a string
/// literal that is no null.
pub open spec fn eq_string_literal(e: ExprView) -> Option<Seq<char>> {
    match e {
        ExprView::BinaryExpr { left, op, right } => match *right {
            ExprView::Literal(ScalarView::Utf8(Some(v))) => if op == Operator::Eq {
                Some(v)
            } else {
                None
            },
            _ => None,
        },
        _ => None,
    }
}

/// The column on the left of a binary expression, if `e` is one and has one
/// there.
fn left_column_of(e: &PhysicalExpr) -> (r: Option<&Column>)
    ensures
        match r {
            Some(c) => left_column(e@) == Some(c@),
            None => left_column(e@) is None,
        },
{
    match e {
        PhysicalExpr::BinaryExpr { left, op, right } => {
            let ghost l = (**left)@;
            match &**left {
                PhysicalExpr::Column(col) => {
                    assert(l == ExprView::Column(col@));
                    Some(col)
                },
                _ => {
                    assert(!(l is Column));
                    None
                },
            }
        },
        _ => None,
    }
}

/// The string `v` where `e` has the form `left = v`, with `v` a string
/// literal that is no null.
fn eq_string_literal_of(e: &PhysicalExpr) -> (r: Option<&String>)
    ensures
        match r {
            Some(v) => eq_string_literal(e@) == Some(v@),
            None => eq_string_literal(e@) is None,
        },
{
    match e {
        PhysicalExpr::BinaryExpr { left, op, right } => {
            let ghost rv = (**right)@;
            match &**right {
                PhysicalExpr::Literal(ScalarValue::Utf8(Some(v))) => {
                    assert(rv == ExprView::Literal(ScalarView::Utf8(Some(v@))));
                    match op {
                        Operator::Eq => Some(v),
                        _ => None,
                    }
                },
                PhysicalExpr::Literal(lit) => {
                    assert(rv == ExprView::Literal(lit@));
                    None
                },
                _ => {
                    assert(!(rv is Literal));
                    None
                },
            }
        },
        _ => None,
    }
}

/// A reference to the encoded primary key at `position`.
pub open spec fn key_column(position: usize) -> ExprView {
    ExprView::Column(ColumnView { name: PRIMARY_KEY_COLUMN_NAME@, index: position })
}

/// The expression `key >= lower AND key < upper` on the encoded primary key
/// at `position`.
pub open spec fn key_range_expr(position: usize, lower: Seq<u8>, upper: Seq<u8>) -> ExprView {
    ExprView::BinaryExpr {
        left: Box::new(
            ExprView::BinaryExpr {
                left: Box::new(key_column(position)),
                op: Operator::GtEq,
                right: Box::new(ExprView::Literal(ScalarView::Binary(Some(lower)))),
            },
        ),
        op: Operator::And,
        right: Box::new(
            ExprView::BinaryExpr {
                left: Box::new(key_column(position)),
                op: Operator::Lt,
                right: Box::new(ExprView::Literal(ScalarView::Binary(Some(upper)))),
            },
        ),
    }
}

/// The lower bound of the keys of the rows whose first tag is the string
/// `v`: the encoding of `v` as the only field of a key.
pub open spec fn string_key(v: Seq<char>) -> Seq<u8> {
    encode_row(seq![ValueView::String(v)])
}

/// What an equality on the first tag column is rewritten to: for
/// `left = v` with a string literal `v`, on a region whose first tag column
/// holds strings, the range of the keys that start with the encoding of
/// `v`. Nothing for any other expression or region.
pub open spec fn rewritten(e: ExprView, metadata: RegionMetadataView) -> Option<ExprView> {
    match (eq_string_literal(e), metadata.first_primary_key_column()) {
        (Some(v), Some(c)) => if c.column_schema.data_type == ConcreteDataType::String {
            match prefix_end(string_key(v)) {
                Some(upper) => Some(
                    key_range_expr(metadata.primary_key_position() as usize, string_key(v), upper),
                ),
                None => None,
            }
        } else {
            None
        },
        _ => None,
    }
}

/// What becomes of one candidate: an expression that compares the first tag
/// column is rewritten or, where it cannot be, dropped; every other
/// expression is kept as it is.
pub open spec fn filter_one(e: ExprView, metadata: RegionMetadataView) -> Option<ExprView> {
    match metadata.first_primary_key_column() {
        Some(c) => if compares_column(e, c.column_schema.name) {
            rewritten(e, metadata)
        } else {
            Some(e)
        },
        None => Some(e),
    }
}

/// What becomes of a list of candidates: what becomes of each, in their
/// order, without those that are dropped.
pub open spec fn filter_exprs(exprs: Seq<ExprView>, metadata: RegionMetadataView) -> Seq<ExprView>
    decreases exprs.len(),
{
    if exprs.len() == 0 {
        Seq::empty()
    } else {
        let front = filter_exprs(exprs.drop_last(), metadata);
        match filter_one(exprs.last(), metadata) {
            Some(e) => front.push(e),
            None => front,
        }
    }
}

/// `acc AND rest[0] AND rest[1] ...`, associated to the left.
pub open spec fn and_all(acc: ExprView, rest: Seq<ExprView>) -> ExprView
    decreases rest.len(),
{
    if rest.len() == 0 {
        acc
    } else {
        ExprView::BinaryExpr {
            left: Box::new(and_all(acc, rest.drop_last())),
            op: Operator::And,
            right: Box::new(rest.last()),
        }
    }
}

/// The conjunction of `exprs`, which are not none: the last of them first,
/// then the others in their order.
pub open spec fn conjoin(exprs: Seq<ExprView>) -> ExprView {
    and_all(exprs.last(), exprs.drop_last())
}

/// Column `i` is one that page statistics can be held against: a field
/// column, the time index, or the first tag column.
pub open spec fn is_valid_reference(metadata: RegionMetadataView, i: int) -> bool {
    &&& 0 <= i < metadata.columns.len()
    &&& {
        ||| metadata.columns[i].semantic_type == SemanticType::Field
        ||| metadata.columns[i].semantic_type == SemanticType::Timestamp
        ||| metadata.primary_key.len() > 0 && metadata.is_first_with_id(
            i,
            metadata.primary_key[0],
        )
    }
}

/// The names of those of the first `k` columns that page statistics can be
/// held against, in the order of the columns.
pub open spec fn valid_reference_names(metadata: RegionMetadataView, k: int) -> Seq<Seq<char>>
    decreases k,
{
    if k <= 0 {
        Seq::empty()
    } else if is_valid_reference(metadata, k - 1) {
        valid_reference_names(metadata, k - 1).push(metadata.columns[k - 1].column_schema.name)
    } else {
        valid_reference_names(metadata, k - 1)
    }
}

/// The names of a list of strings.
pub open spec fn names_view(names: Seq<String>) -> Seq<Seq<char>> {
    names.map_values(|s: String| s@)
}

/// Builds the predicate for page pruning from the filters of a scan.
pub struct PagePruningPredicateBuilder;

impl PagePruningPredicateBuilder {
    /// The names of the columns that a filter may refer to and still be
    /// held against page statistics: the field columns, the time index and
    /// the first tag column.
    pub fn valid_reference_columns(read_format: &ReadFormat) -> (r: Vec<String>)
        ensures
            names_view(r@) == valid_reference_names(
                read_format@,
                read_format@.columns.len() as int,
            ),
    {
        let metadata = read_format.metadata();
        let ghost m = read_format@;
        let mut names: Vec<String> = Vec::new();
        let mut seen_first_tag = false;
        let mut i: usize = 0;
        assert(names_view(names@) =~= valid_reference_names(m, 0));
        while i < metadata.column_metadatas.len()
            invariant
                m == read_format@,
                m == metadata@,
                i <= metadata.column_metadatas@.len(),
                names_view(names@) == valid_reference_names(m, i as int),
                m.primary_key.len() > 0 ==> (seen_first_tag <==> exists|j: int|
                    0 <= j < i && m.columns[j].column_id == m.primary_key[0]),
            decreases metadata.column_metadatas@.len() - i,
        {
            let c = &metadata.column_metadatas[i];
            assert(m.columns[i as int] == c@);
            let is_first_tag = metadata.primary_key.len() > 0 && !seen_first_tag && c.column_id
                == metadata.primary_key[0];
            if metadata.primary_key.len() > 0 && c.column_id == metadata.primary_key[0] {
                seen_first_tag = true;
            }
            let ghost old_names = names_view(names@);
            if is_first_tag || c.semantic_type == SemanticType::Field || c.semantic_type
                == SemanticType::Timestamp {
                names.push(c.column_schema.name().clone());
                assert(names_view(names@) =~= old_names.push(c@.column_schema.name));
            }
            i += 1;
        }
        names
    }

    /// Puts a [`DecodePrimaryKey`] in the place of a reference to a tag
    /// column; a reference to any other column is handed back as it is.
    pub fn transform_expr(read_format: &ReadFormat, column: Column) -> (r: Transformed<
        PhysicalExpr,
    >)
        ensures
            match r {
                Transformed::Yes(e) => read_format@.is_tag(column@.name) && match e@ {
                    ExprView::DecodePrimaryKey(d) => d.decodes(read_format@, column@.name),
                    _ => false,
                },
                Transformed::No(e) => !read_format@.is_tag(column@.name) && e@
                    == ExprView::Column(column@),
            },
    {
        // only tag columns are held in the encoded key
        if !read_format.is_tag_column(column.name()) {
            return Transformed::No(PhysicalExpr::Column(column));
        }
        Transformed::Yes(
            PhysicalExpr::DecodePrimaryKey(DecodePrimaryKey::new(read_format.clone(), column.name())),
        )
    }

    /// The predicate that pages are pruned by: the conjunction of what
    /// [`Self::filter_map_physical_expr`] leaves of the filters, or `None`
    /// where it leaves nothing.
    pub fn build(predicate: Predicate, read_format: &ReadFormat) -> (r: Option<PhysicalExpr>)
        ensures
            match r {
                Some(e) => filter_exprs(exprs_view(predicate.exprs@), read_format@).len() > 0
                    && e@ == conjoin(filter_exprs(exprs_view(predicate.exprs@), read_format@)),
                None => filter_exprs(exprs_view(predicate.exprs@), read_format@).len() == 0,
            },
    {
        let page_filter_exprs = Self::filter_map_physical_expr(predicate, read_format);
        if page_filter_exprs.len() == 0 {
            return None;
        }
        Some(Self::conjoin_exprs(page_filter_exprs))
    }

    /// Keeps the filters that page statistics can be held against: a filter
    /// that compares the first tag column is rewritten into a range of
    /// encoded keys or, where it has no such range, dropped; every other
    /// filter is kept as it is.
    pub fn filter_map_physical_expr(predicate: Predicate, read_format: &ReadFormat) -> (r: Vec<
        PhysicalExpr,
    >)
        ensures
            exprs_view(r@) == filter_exprs(exprs_view(predicate.exprs@), read_format@),
    {
        let ghost all = exprs_view(predicate.exprs@);
        let ghost metadata = read_format@;
        let mut out: Vec<PhysicalExpr> = Vec::new();
        assert(exprs_view(out@) =~= filter_exprs(all.take(0), metadata)) by {
            assert(exprs_view(out@).len() == 0);
            assert(all.take(0).len() == 0);
        }
        for e in it: predicate.exprs
            invariant
                metadata == read_format@,
                exprs_view(it.seq()) == all,
                exprs_view(out@) == filter_exprs(all.take(it.index() as int), metadata),
        {
            let ghost old_out = out@;
            proof {
                let next = all.take(it.index() + 1);
                assert(next.drop_last() =~= all.take(it.index() as int));
                assert(next.last() == e@);
            }
            match Self::filter_one_expr(e, read_format) {
                Some(kept) => {
                    out.push(kept);
                    assert(exprs_view(out@) =~= exprs_view(old_out).push(kept@));
                },
                None => {},
            }
        }
        assert(all.take(all.len() as int) =~= all);
        out
    }

    /// What becomes of one filter: see [`Self::filter_map_physical_expr`].
    pub fn filter_one_expr(e: PhysicalExpr, read_format: &ReadFormat) -> (r: Option<PhysicalExpr>)
        ensures
            match r {
                Some(kept) => filter_one(e@, read_format@) == Some(kept@),
                None => filter_one(e@, read_format@) is None,
            },
    {
        let on_first_tag = match read_format.metadata().first_primary_key_column() {
            None => false,
            // the column is taken to stand on the left
            Some(first_pk) => match left_column_of(&e) {
                Some(col) => str_eq(first_pk.column_schema.name().as_str(), col.name()),
                None => false,
            },
        };
        if on_first_tag {
            match Self::rewrite_primary_key_eq(read_format, e) {
                Transformed::Yes(rewritten) => Some(rewritten),
                Transformed::No(_) => None,
            }
        } else {
            Some(e)
        }
    }

    /// Rewrites `left = v`, with `v` a string literal, into the range of the
    /// encoded keys whose first tag is `v`; `left` is taken to be the first
    /// tag column. Any other expression is handed back as it is.
    pub fn rewrite_primary_key_eq(read_format: &ReadFormat, outermost: PhysicalExpr) -> (r:
        Transformed<PhysicalExpr>)
        ensures
            match r {
                Transformed::Yes(e) => rewritten(outermost@, read_format@) == Some(e@),
                Transformed::No(e) => rewritten(outermost@, read_format@) is None && e
                    == outermost,
            },
    {
        // the literal is taken to stand on the right
        let lit: String = match eq_string_literal_of(&outermost) {
            Some(s) => s.clone(),
            None => {
                return Transformed::No(outermost);
            },
        };
        let data_type = match read_format.metadata().first_primary_key_column() {
            Some(c) => c.column_schema.data_type(),
            None => {
                return Transformed::No(outermost);
            },
        };
        let encoder = McmpRowCodec::new(vec![SortField::new(data_type)]);
        let row = vec![Value::String(lit)];
        proof {
            assert(encoder@ =~= seq![data_type]);
            assert(crate::datatypes::row_view(row@) =~= seq![ValueView::String(lit@)]);
        }
        let lower_bound = match encoder.encode(row.as_slice()) {
            Ok(key) => key,
            Err(_) => {
                return Transformed::No(outermost);
            },
        };
        let upper_bound = match get_prefix_end_key(lower_bound.as_slice()) {
            Some(end) => end,
            None => {
                return Transformed::No(outermost);
            },
        };
        let position = read_format.primary_key_position();
        let transformed = PhysicalExpr::binary(
            PhysicalExpr::binary(
                PhysicalExpr::Column(Column::new(PRIMARY_KEY_COLUMN_NAME, position)),
                Operator::GtEq,
                PhysicalExpr::Literal(ScalarValue::Binary(Some(lower_bound))),
            ),
            Operator::And,
            PhysicalExpr::binary(
                PhysicalExpr::Column(Column::new(PRIMARY_KEY_COLUMN_NAME, position)),
                Operator::Lt,
                PhysicalExpr::Literal(ScalarValue::Binary(Some(upper_bound))),
            ),
        );
        Transformed::Yes(transformed)
    }

    /// Joins `exprs`, which must not be none, with `AND`: the last of them
    /// first, then the others in their order.
    pub fn conjoin_exprs(exprs: Vec<PhysicalExpr>) -> (r: PhysicalExpr)
        requires
            exprs@.len() > 0,
        ensures
            r@ == conjoin(exprs_view(exprs@)),
    {
        let ghost all = exprs_view(exprs@);
        let ghost others = all.drop_last();
        let mut rest = exprs;
        let first_expr = rest.pop().unwrap();
        assert(exprs_view(rest@) =~= others);
        let mut acc = first_expr;
        assert(others.take(0).len() == 0);
        for e in it: rest
            invariant
                exprs_view(it.seq()) == others,
                acc@ == and_all(all.last(), others.take(it.index() as int)),
        {
            proof {
                let next = others.take(it.index() + 1);
                assert(next.drop_last() =~= others.take(it.index() as int));
                assert(next.last() == e@);
            }
            acc = PhysicalExpr::binary(acc, Operator::And, e);
        }
        assert(others.take(others.len() as int) =~= others);
        acc
    }
}

} // verus!
