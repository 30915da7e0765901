//! Predicate expressions over the columns of a stored row, and the values
//! that they are evaluated to.

use std::sync::Arc;
use vstd::prelude::*;
use vstd::slice::slice_to_vec;
use crate::datatypes::{ConcreteDataType, Value, ValueView};
use crate::page_prune::{DecodePrimaryKey, DecodePrimaryKeyView};
use vstd::string::StringExecFns;
use crate::text::{decimal, push_decimal, str_eq};

verus! {

/// The operator of a binary expression.
#[derive(Debug, Clone, Copy, PartialEq, Eq, Hash, Structural)]
pub enum Operator {
    Eq,
    NotEq,
    Lt,
    LtEq,
    Gt,
    GtEq,
    And,
    Or,
    /// Any other operator, known to the host by this number.
    Other(usize),
}

/// The type of an expression's values in evaluation.
#[derive(Debug, Clone, Copy, PartialEq, Eq, Hash, Structural)]
pub enum DfDataType {
    Boolean,
    Int8,
    Int16,
    Int32,
    Int64,
    UInt8,
    UInt16,
    UInt32,
    UInt64,
    Float64,
    Utf8,
    Binary,
    Date32,
    Date64,
    Timestamp,
}

impl ConcreteDataType {
    /// The type in evaluation of the values of a column of this type.
    pub open spec fn spec_as_arrow_type(self) -> DfDataType {
        match self {
            ConcreteDataType::Boolean => DfDataType::Boolean,
            ConcreteDataType::Int8 => DfDataType::Int8,
            ConcreteDataType::Int16 => DfDataType::Int16,
            ConcreteDataType::Int32 => DfDataType::Int32,
            ConcreteDataType::Int64 => DfDataType::Int64,
            ConcreteDataType::UInt8 => DfDataType::UInt8,
            ConcreteDataType::UInt16 => DfDataType::UInt16,
            ConcreteDataType::UInt32 => DfDataType::UInt32,
            ConcreteDataType::UInt64 => DfDataType::UInt64,
            ConcreteDataType::Float64 => DfDataType::Float64,
            ConcreteDataType::String => DfDataType::Utf8,
            ConcreteDataType::Binary => DfDataType::Binary,
            ConcreteDataType::Date => DfDataType::Date32,
            ConcreteDataType::DateTime => DfDataType::Date64,
            ConcreteDataType::Timestamp => DfDataType::Timestamp,
        }
    }

    #[verifier::when_used_as_spec(spec_as_arrow_type)]
    pub fn as_arrow_type(self) -> (r: DfDataType)
        ensures
            r == self.spec_as_arrow_type(),
    {
        match self {
            ConcreteDataType::Boolean => DfDataType::Boolean,
            ConcreteDataType::Int8 => DfDataType::Int8,
            ConcreteDataType::Int16 => DfDataType::Int16,
            ConcreteDataType::Int32 => DfDataType::Int32,
            ConcreteDataType::Int64 => DfDataType::Int64,
            ConcreteDataType::UInt8 => DfDataType::UInt8,
            ConcreteDataType::UInt16 => DfDataType::UInt16,
            ConcreteDataType::UInt32 => DfDataType::UInt32,
            ConcreteDataType::UInt64 => DfDataType::UInt64,
            ConcreteDataType::Float64 => DfDataType::Float64,
            ConcreteDataType::String => DfDataType::Utf8,
            ConcreteDataType::Binary => DfDataType::Binary,
            ConcreteDataType::Date => DfDataType::Date32,
            ConcreteDataType::DateTime => DfDataType::Date64,
            ConcreteDataType::Timestamp => DfDataType::Timestamp,
        }
    }
}

/// A single value in evaluation; each type has its null.
#[derive(Debug, PartialEq, Eq)]
pub enum ScalarValue {
    Boolean(Option<bool>),
    Int8(Option<i8>),
    Int16(Option<i16>),
    Int32(Option<i32>),
    Int64(Option<i64>),
    UInt8(Option<u8>),
    UInt16(Option<u16>),
    UInt32(Option<u32>),
    UInt64(Option<u64>),
    /// A 64-bit floating-point number, held as its IEEE 754 bits.
    Float64(Option<u64>),
    Utf8(Option<String>),
    Binary(Option<Vec<u8>>),
    Date32(Option<i32>),
    Date64(Option<i64>),
    Timestamp(Option<i64>),
}

/// What a [`ScalarValue`] stands for.
pub enum ScalarView {
    Boolean(Option<bool>),
    Int8(Option<i8>),
    Int16(Option<i16>),
    Int32(Option<i32>),
    Int64(Option<i64>),
    UInt8(Option<u8>),
    UInt16(Option<u16>),
    UInt32(Option<u32>),
    UInt64(Option<u64>),
    Float64(Option<u64>),
    Utf8(Option<Seq<char>>),
    Binary(Option<Seq<u8>>),
    Date32(Option<i32>),
    Date64(Option<i64>),
    Timestamp(Option<i64>),
}

impl View for ScalarValue {
    type V = ScalarView;

    open spec fn view(&self) -> ScalarView {
        match self {
            ScalarValue::Boolean(x) => ScalarView::Boolean(*x),
            ScalarValue::Int8(x) => ScalarView::Int8(*x),
            ScalarValue::Int16(x) => ScalarView::Int16(*x),
            ScalarValue::Int32(x) => ScalarView::Int32(*x),
            ScalarValue::Int64(x) => ScalarView::Int64(*x),
            ScalarValue::UInt8(x) => ScalarView::UInt8(*x),
            ScalarValue::UInt16(x) => ScalarView::UInt16(*x),
            ScalarValue::UInt32(x) => ScalarView::UInt32(*x),
            ScalarValue::UInt64(x) => ScalarView::UInt64(*x),
            ScalarValue::Float64(x) => ScalarView::Float64(*x),
            ScalarValue::Utf8(x) => ScalarView::Utf8(
                match x {
                    Some(s) => Some(s@),
                    None => None,
                },
            ),
            ScalarValue::Binary(x) => ScalarView::Binary(
                match x {
                    Some(b) => Some(b@),
                    None => None,
                },
            ),
            ScalarValue::Date32(x) => ScalarView::Date32(*x),
            ScalarValue::Date64(x) => ScalarView::Date64(*x),
            ScalarValue::Timestamp(x) => ScalarView::Timestamp(*x),
        }
    }
}

impl ScalarView {
    /// The null of type `data_type`.
    pub open spec fn null(data_type: DfDataType) -> ScalarView {
        match data_type {
            DfDataType::Boolean => ScalarView::Boolean(None),
            DfDataType::Int8 => ScalarView::Int8(None),
            DfDataType::Int16 => ScalarView::Int16(None),
            DfDataType::Int32 => ScalarView::Int32(None),
            DfDataType::Int64 => ScalarView::Int64(None),
            DfDataType::UInt8 => ScalarView::UInt8(None),
            DfDataType::UInt16 => ScalarView::UInt16(None),
            DfDataType::UInt32 => ScalarView::UInt32(None),
            DfDataType::UInt64 => ScalarView::UInt64(None),
            DfDataType::Float64 => ScalarView::Float64(None),
            DfDataType::Utf8 => ScalarView::Utf8(None),
            DfDataType::Binary => ScalarView::Binary(None),
            DfDataType::Date32 => ScalarView::Date32(None),
            DfDataType::Date64 => ScalarView::Date64(None),
            DfDataType::Timestamp => ScalarView::Timestamp(None),
        }
    }

    /// The type of the value.
    pub open spec fn data_type(self) -> DfDataType {
        match self {
            ScalarView::Boolean(_) => DfDataType::Boolean,
            ScalarView::Int8(_) => DfDataType::Int8,
            ScalarView::Int16(_) => DfDataType::Int16,
            ScalarView::Int32(_) => DfDataType::Int32,
            ScalarView::Int64(_) => DfDataType::Int64,
            ScalarView::UInt8(_) => DfDataType::UInt8,
            ScalarView::UInt16(_) => DfDataType::UInt16,
            ScalarView::UInt32(_) => DfDataType::UInt32,
            ScalarView::UInt64(_) => DfDataType::UInt64,
            ScalarView::Float64(_) => DfDataType::Float64,
            ScalarView::Utf8(_) => DfDataType::Utf8,
            ScalarView::Binary(_) => DfDataType::Binary,
            ScalarView::Date32(_) => DfDataType::Date32,
            ScalarView::Date64(_) => DfDataType::Date64,
            ScalarView::Timestamp(_) => DfDataType::Timestamp,
        }
    }
}

impl ValueView {
    /// The value in evaluation, as one of a column of type `output_type`: a
    /// null becomes the null of that column's type in evaluation.
    pub open spec fn to_scalar(self, output_type: ConcreteDataType) -> ScalarView {
        match self {
            ValueView::Null => ScalarView::null(output_type.as_arrow_type()),
            ValueView::Boolean(x) => ScalarView::Boolean(Some(x)),
            ValueView::UInt8(x) => ScalarView::UInt8(Some(x)),
            ValueView::UInt16(x) => ScalarView::UInt16(Some(x)),
            ValueView::UInt32(x) => ScalarView::UInt32(Some(x)),
            ValueView::UInt64(x) => ScalarView::UInt64(Some(x)),
            ValueView::Int8(x) => ScalarView::Int8(Some(x)),
            ValueView::Int16(x) => ScalarView::Int16(Some(x)),
            ValueView::Int32(x) => ScalarView::Int32(Some(x)),
            ValueView::Int64(x) => ScalarView::Int64(Some(x)),
            ValueView::Float64(x) => ScalarView::Float64(Some(x)),
            ValueView::String(x) => ScalarView::Utf8(Some(x)),
            ValueView::Binary(x) => ScalarView::Binary(Some(x)),
            ValueView::Date(x) => ScalarView::Date32(Some(x)),
            ValueView::DateTime(x) => ScalarView::Date64(Some(x)),
            ValueView::Timestamp(x) => ScalarView::Timestamp(Some(x)),
        }
    }
}

impl Clone for ScalarValue {
    fn clone(&self) -> (r: Self)
        ensures
            r@ == self@,
    {
        match self {
            ScalarValue::Boolean(x) => ScalarValue::Boolean(*x),
            ScalarValue::Int8(x) => ScalarValue::Int8(*x),
            ScalarValue::Int16(x) => ScalarValue::Int16(*x),
            ScalarValue::Int32(x) => ScalarValue::Int32(*x),
            ScalarValue::Int64(x) => ScalarValue::Int64(*x),
            ScalarValue::UInt8(x) => ScalarValue::UInt8(*x),
            ScalarValue::UInt16(x) => ScalarValue::UInt16(*x),
            ScalarValue::UInt32(x) => ScalarValue::UInt32(*x),
            ScalarValue::UInt64(x) => ScalarValue::UInt64(*x),
            ScalarValue::Float64(x) => ScalarValue::Float64(*x),
            ScalarValue::Utf8(x) => ScalarValue::Utf8(
                match x {
                    Some(s) => Some(s.clone()),
                    None => None,
                },
            ),
            ScalarValue::Binary(x) => ScalarValue::Binary(
                match x {
                    Some(b) => Some(slice_to_vec(b.as_slice())),
                    None => None,
                },
            ),
            ScalarValue::Date32(x) => ScalarValue::Date32(*x),
            ScalarValue::Date64(x) => ScalarValue::Date64(*x),
            ScalarValue::Timestamp(x) => ScalarValue::Timestamp(*x),
        }
    }
}

impl ScalarValue {
    /// The null of type `data_type`.
    pub fn null(data_type: DfDataType) -> (r: Self)
        ensures
            r@ == ScalarView::null(data_type),
    {
        match data_type {
            DfDataType::Boolean => ScalarValue::Boolean(None),
            DfDataType::Int8 => ScalarValue::Int8(None),
            DfDataType::Int16 => ScalarValue::Int16(None),
            DfDataType::Int32 => ScalarValue::Int32(None),
            DfDataType::Int64 => ScalarValue::Int64(None),
            DfDataType::UInt8 => ScalarValue::UInt8(None),
            DfDataType::UInt16 => ScalarValue::UInt16(None),
            DfDataType::UInt32 => ScalarValue::UInt32(None),
            DfDataType::UInt64 => ScalarValue::UInt64(None),
            DfDataType::Float64 => ScalarValue::Float64(None),
            DfDataType::Utf8 => ScalarValue::Utf8(None),
            DfDataType::Binary => ScalarValue::Binary(None),
            DfDataType::Date32 => ScalarValue::Date32(None),
            DfDataType::Date64 => ScalarValue::Date64(None),
            DfDataType::Timestamp => ScalarValue::Timestamp(None),
        }
    }

    /// The type of the value.
    pub fn data_type(&self) -> (r: DfDataType)
        ensures
            r == self@.data_type(),
    {
        match self {
            ScalarValue::Boolean(_) => DfDataType::Boolean,
            ScalarValue::Int8(_) => DfDataType::Int8,
            ScalarValue::Int16(_) => DfDataType::Int16,
            ScalarValue::Int32(_) => DfDataType::Int32,
            ScalarValue::Int64(_) => DfDataType::Int64,
            ScalarValue::UInt8(_) => DfDataType::UInt8,
            ScalarValue::UInt16(_) => DfDataType::UInt16,
            ScalarValue::UInt32(_) => DfDataType::UInt32,
            ScalarValue::UInt64(_) => DfDataType::UInt64,
            ScalarValue::Float64(_) => DfDataType::Float64,
            ScalarValue::Utf8(_) => DfDataType::Utf8,
            ScalarValue::Binary(_) => DfDataType::Binary,
            ScalarValue::Date32(_) => DfDataType::Date32,
            ScalarValue::Date64(_) => DfDataType::Date64,
            ScalarValue::Timestamp(_) => DfDataType::Timestamp,
        }
    }
}

impl Value {
    /// The value in evaluation, as one of a column of type `output_type`;
    /// `None` where the value does not fit that type.
    pub fn try_to_scalar_value(&self, output_type: &ConcreteDataType) -> (r: Option<ScalarValue>)
        ensures
            match r {
                Some(s) => self@.fits(*output_type) && s@ == self@.to_scalar(*output_type),
                None => !self@.fits(*output_type),
            },
    {
        match self.data_type() {
            None => {
                return Some(ScalarValue::null(output_type.as_arrow_type()));
            },
            Some(t) => {
                if t != *output_type {
                    return None;
                }
            },
        }
        Some(
            match self {
                Value::Null => ScalarValue::null(output_type.as_arrow_type()),
                Value::Boolean(x) => ScalarValue::Boolean(Some(*x)),
                Value::UInt8(x) => ScalarValue::UInt8(Some(*x)),
                Value::UInt16(x) => ScalarValue::UInt16(Some(*x)),
                Value::UInt32(x) => ScalarValue::UInt32(Some(*x)),
                Value::UInt64(x) => ScalarValue::UInt64(Some(*x)),
                Value::Int8(x) => ScalarValue::Int8(Some(*x)),
                Value::Int16(x) => ScalarValue::Int16(Some(*x)),
                Value::Int32(x) => ScalarValue::Int32(Some(*x)),
                Value::Int64(x) => ScalarValue::Int64(Some(*x)),
                Value::Float64(x) => ScalarValue::Float64(Some(*x)),
                Value::String(x) => ScalarValue::Utf8(Some(x.clone())),
                Value::Binary(x) => ScalarValue::Binary(Some(slice_to_vec(x.as_slice()))),
                Value::Date(x) => ScalarValue::Date32(Some(*x)),
                Value::DateTime(x) => ScalarValue::Date64(Some(*x)),
                Value::Timestamp(x) => ScalarValue::Timestamp(Some(*x)),
            },
        )
    }
}

/// A reference to the column at one position of a stored row.
#[derive(Debug, PartialEq, Eq)]
pub struct Column {
    pub name: String,
    pub index: usize,
}

/// What a [`Column`] stands for.
pub struct ColumnView {
    pub name: Seq<char>,
    pub index: usize,
}

impl ColumnView {
    /// The reference in text: the name, `@`, and the position in decimal.
    pub open spec fn text(self) -> Seq<char> {
        self.name + seq!['@'] + decimal(self.index as nat)
    }
}

impl View for Column {
    type V = ColumnView;

    open spec fn view(&self) -> ColumnView {
        ColumnView { name: self.name@, index: self.index }
    }
}

impl Clone for Column {
    fn clone(&self) -> (r: Self)
        ensures
            r@ == self@,
    {
        Column { name: self.name.clone(), index: self.index }
    }
}

impl Column {
    pub fn new(name: &str, index: usize) -> (r: Self)
        ensures
            r@ == (ColumnView { name: name@, index }),
    {
        Column { name: name.to_owned(), index }
    }

    pub fn name(&self) -> (r: &str)
        ensures
            r@ == self@.name,
    {
        self.name.as_str()
    }

    pub fn index(&self) -> (r: usize)
        ensures
            r == self@.index,
    {
        self.index
    }

    /// The reference in text: the name, `@`, and the position in decimal.
    pub fn to_string(&self) -> (r: String)
        ensures
            r@ == self@.text(),
    {
        proof {
            reveal_strlit("@");
        }
        let mut s = self.name.clone();
        s.append("@");
        push_decimal(&mut s, self.index as u64);
        s
    }

    /// Whether two references name the same column at the same position.
    pub fn same(&self, other: &Column) -> (r: bool)
        ensures
            r == (self@ == other@),
    {
        self.index == other.index && str_eq(self.name.as_str(), other.name.as_str())
    }
}

/// A node of an expression tree. A node is not changed once it is made, and
/// it may be shared: the child of more than one parent.
#[derive(Debug, PartialEq, Eq)]
pub enum PhysicalExpr {
    /// The value of a column.
    Column(Column),
    /// A constant.
    Literal(ScalarValue),
    /// A comparison or a logical connective of two expressions.
    BinaryExpr { left: Arc<PhysicalExpr>, op: Operator, right: Arc<PhysicalExpr> },
    /// The negation of an expression.
    Not(Arc<PhysicalExpr>),
    /// One tag column, decoded from the encoded primary key.
    DecodePrimaryKey(DecodePrimaryKey),
    /// An expression of any other kind, known to the host by this number.
    Opaque(usize),
}

/// What a [`PhysicalExpr`] stands for.
pub enum ExprView {
    Column(ColumnView),
    Literal(ScalarView),
    BinaryExpr { left: Box<ExprView>, op: Operator, right: Box<ExprView> },
    Not(Box<ExprView>),
    DecodePrimaryKey(DecodePrimaryKeyView),
    Opaque(usize),
}

impl View for PhysicalExpr {
    type V = ExprView;

    open spec fn view(&self) -> ExprView
        decreases self,
    {
        match self {
            PhysicalExpr::Column(c) => ExprView::Column(c@),
            PhysicalExpr::Literal(s) => ExprView::Literal(s@),
            PhysicalExpr::BinaryExpr { left, op, right } => ExprView::BinaryExpr {
                left: Box::new((**left).view()),
                op: *op,
                right: Box::new((**right).view()),
            },
            PhysicalExpr::Not(e) => ExprView::Not(Box::new((**e).view())),
            PhysicalExpr::DecodePrimaryKey(d) => ExprView::DecodePrimaryKey(d@),
            PhysicalExpr::Opaque(n) => ExprView::Opaque(*n),
        }
    }
}

/// The views of a list of expressions.
pub open spec fn exprs_view(exprs: Seq<PhysicalExpr>) -> Seq<ExprView> {
    exprs.map_values(|e: PhysicalExpr| e@)
}

impl PhysicalExpr {
    /// The binary expression `left op right`.
    pub fn binary(left: PhysicalExpr, op: Operator, right: PhysicalExpr) -> (r: Self)
        ensures
            r@ == (ExprView::BinaryExpr { left: Box::new(left@), op, right: Box::new(right@) }),
    {
        PhysicalExpr::BinaryExpr { left: Arc::new(left), op, right: Arc::new(right) }
    }
}

/// The outcome of an attempt to rewrite an expression: the new expression,
/// or the old one where nothing was done.
#[derive(Debug, PartialEq, Eq)]
pub enum Transformed<T> {
    Yes(T),
    No(T),
}

/// A column of values in evaluation, one for each row of a batch.
#[derive(Debug, PartialEq, Eq)]
pub struct ArrayData {
    /// The type of the column.
    pub data_type: DfDataType,
    /// The values, in the order of the rows.
    pub values: Vec<ScalarValue>,
}

/// What an [`ArrayData`] stands for.
pub struct ArrayView {
    pub data_type: DfDataType,
    pub values: Seq<ScalarView>,
}

impl View for ArrayData {
    type V = ArrayView;

    open spec fn view(&self) -> ArrayView {
        ArrayView {
            data_type: self.data_type,
            values: self.values@.map_values(|v: ScalarValue| v@),
        }
    }
}

/// What an expression evaluates to: one value for each row, or one value
/// for all.
#[derive(Debug, PartialEq, Eq)]
pub enum ColumnarValue {
    Array(ArrayData),
    Scalar(ScalarValue),
}

/// What a [`ColumnarValue`] stands for.
pub enum ColumnarView {
    Array(ArrayView),
    Scalar(ScalarView),
}

impl View for ColumnarValue {
    type V = ColumnarView;

    open spec fn view(&self) -> ColumnarView {
        match self {
            ColumnarValue::Array(a) => ColumnarView::Array(a@),
            ColumnarValue::Scalar(s) => ColumnarView::Scalar(s@),
        }
    }
}

/// A batch of stored rows, held column by column.
#[derive(Debug, PartialEq, Eq)]
pub struct RecordBatch {
    pub columns: Vec<ArrayData>,
}

/// What a [`RecordBatch`] stands for.
pub open spec fn batch_view(batch: RecordBatch) -> Seq<ArrayView> {
    batch.columns@.map_values(|a: ArrayData| a@)
}

/// The filters of a scan: expressions that a row must satisfy, all of them.
#[derive(Debug, PartialEq, Eq)]
pub struct Predicate {
    pub exprs: Vec<PhysicalExpr>,
}

impl Predicate {
    pub fn new(exprs: Vec<PhysicalExpr>) -> (r: Self)
        ensures
            r.exprs == exprs,
    {
        Predicate { exprs }
    }
}

} // verus!
