//! Scalar types and values of the storage engine's columns.

use vstd::prelude::*;

verus! {

/// The type of a column's values.
#[derive(Debug, Clone, Copy, PartialEq, Eq, Hash, Structural)]
pub enum ConcreteDataType {
    Boolean,
    Int8,
    Int16,
    Int32,
    Int64,
    UInt8,
    UInt16,
    UInt32,
    UInt64,
    /// A 64-bit floating-point number.
    Float64,
    String,
    Binary,
    /// Days since the epoch, as a signed 32-bit number.
    Date,
    /// Seconds since the epoch, as a signed 64-bit number.
    DateTime,
    /// A point in time as a signed 64-bit number.
    Timestamp,
}

impl ConcreteDataType {
    pub fn string_datatype() -> (r: Self)
        ensures
            r == ConcreteDataType::String,
    {
        ConcreteDataType::String
    }

    pub fn int32_datatype() -> (r: Self)
        ensures
            r == ConcreteDataType::Int32,
    {
        ConcreteDataType::Int32
    }

    pub fn int64_datatype() -> (r: Self)
        ensures
            r == ConcreteDataType::Int64,
    {
        ConcreteDataType::Int64
    }

    /// Whether a point in time can be stored in a column of this type.
    pub open spec fn spec_is_timestamp_compatible(self) -> bool {
        self == ConcreteDataType::Timestamp || self == ConcreteDataType::Int64
    }

    #[verifier::when_used_as_spec(spec_is_timestamp_compatible)]
    pub fn is_timestamp_compatible(self) -> (r: bool)
        ensures
            r == self.spec_is_timestamp_compatible(),
    {
        self == ConcreteDataType::Timestamp || self == ConcreteDataType::Int64
    }
}

/// One value of a column, or the absence of one.
#[derive(Debug, PartialEq, Eq)]
pub enum Value {
    Null,
    Boolean(bool),
    UInt8(u8),
    UInt16(u16),
    UInt32(u32),
    UInt64(u64),
    Int8(i8),
    Int16(i16),
    Int32(i32),
    Int64(i64),
    /// A 64-bit floating-point number, held as its IEEE 754 bits.
    Float64(u64),
    String(String),
    Binary(Vec<u8>),
    Date(i32),
    DateTime(i64),
    Timestamp(i64),
}

/// The mathematical value that a [`Value`] stands for.
pub enum ValueView {
    Null,
    Boolean(bool),
    UInt8(u8),
    UInt16(u16),
    UInt32(u32),
    UInt64(u64),
    Int8(i8),
    Int16(i16),
    Int32(i32),
    Int64(i64),
    Float64(u64),
    String(Seq<char>),
    Binary(Seq<u8>),
    Date(i32),
    DateTime(i64),
    Timestamp(i64),
}

impl View for Value {
    type V = ValueView;

    open spec fn view(&self) -> ValueView {
        match self {
            Value::Null => ValueView::Null,
            Value::Boolean(b) => ValueView::Boolean(*b),
            Value::UInt8(x) => ValueView::UInt8(*x),
            Value::UInt16(x) => ValueView::UInt16(*x),
            Value::UInt32(x) => ValueView::UInt32(*x),
            Value::UInt64(x) => ValueView::UInt64(*x),
            Value::Int8(x) => ValueView::Int8(*x),
            Value::Int16(x) => ValueView::Int16(*x),
            Value::Int32(x) => ValueView::Int32(*x),
            Value::Int64(x) => ValueView::Int64(*x),
            Value::Float64(x) => ValueView::Float64(*x),
            Value::String(s) => ValueView::String(s@),
            Value::Binary(b) => ValueView::Binary(b@),
            Value::Date(x) => ValueView::Date(*x),
            Value::DateTime(x) => ValueView::DateTime(*x),
            Value::Timestamp(x) => ValueView::Timestamp(*x),
        }
    }
}

impl ValueView {
    /// The type of the value; a null has none.
    pub open spec fn data_type(self) -> Option<ConcreteDataType> {
        match self {
            ValueView::Null => None,
            ValueView::Boolean(_) => Some(ConcreteDataType::Boolean),
            ValueView::UInt8(_) => Some(ConcreteDataType::UInt8),
            ValueView::UInt16(_) => Some(ConcreteDataType::UInt16),
            ValueView::UInt32(_) => Some(ConcreteDataType::UInt32),
            ValueView::UInt64(_) => Some(ConcreteDataType::UInt64),
            ValueView::Int8(_) => Some(ConcreteDataType::Int8),
            ValueView::Int16(_) => Some(ConcreteDataType::Int16),
            ValueView::Int32(_) => Some(ConcreteDataType::Int32),
            ValueView::Int64(_) => Some(ConcreteDataType::Int64),
            ValueView::Float64(_) => Some(ConcreteDataType::Float64),
            ValueView::String(_) => Some(ConcreteDataType::String),
            ValueView::Binary(_) => Some(ConcreteDataType::Binary),
            ValueView::Date(_) => Some(ConcreteDataType::Date),
            ValueView::DateTime(_) => Some(ConcreteDataType::DateTime),
            ValueView::Timestamp(_) => Some(ConcreteDataType::Timestamp),
        }
    }

    /// A column of type `data_type` can hold the value: it is a null or has
    /// that type.
    pub open spec fn fits(self, data_type: ConcreteDataType) -> bool {
        self is Null || self.data_type() == Some(data_type)
    }
}

impl Value {
    pub fn is_null(&self) -> (r: bool)
        ensures
            r == (self@ is Null),
    {
        match self {
            Value::Null => true,
            _ => false,
        }
    }

    /// The type of the value; a null has none.
    pub fn data_type(&self) -> (r: Option<ConcreteDataType>)
        ensures
            r == self@.data_type(),
    {
        match self {
            Value::Null => None,
            Value::Boolean(_) => Some(ConcreteDataType::Boolean),
            Value::UInt8(_) => Some(ConcreteDataType::UInt8),
            Value::UInt16(_) => Some(ConcreteDataType::UInt16),
            Value::UInt32(_) => Some(ConcreteDataType::UInt32),
            Value::UInt64(_) => Some(ConcreteDataType::UInt64),
            Value::Int8(_) => Some(ConcreteDataType::Int8),
            Value::Int16(_) => Some(ConcreteDataType::Int16),
            Value::Int32(_) => Some(ConcreteDataType::Int32),
            Value::Int64(_) => Some(ConcreteDataType::Int64),
            Value::Float64(_) => Some(ConcreteDataType::Float64),
            Value::String(_) => Some(ConcreteDataType::String),
            Value::Binary(_) => Some(ConcreteDataType::Binary),
            Value::Date(_) => Some(ConcreteDataType::Date),
            Value::DateTime(_) => Some(ConcreteDataType::DateTime),
            Value::Timestamp(_) => Some(ConcreteDataType::Timestamp),
        }
    }
}

/// The place of a floating-point number in the total order of IEEE 754,
/// by its bits: the negative numbers come first, the greater their bits the
/// earlier, then the others in the order of their bits.
pub open spec fn float_rank(bits: u64) -> int {
    if bits >= 0x8000_0000_0000_0000 {
        0xFFFF_FFFF_FFFF_FFFF - bits
    } else {
        bits + 0x8000_0000_0000_0000
    }
}

/// The values that a row of [`Value`]s stands for.
pub open spec fn row_view(values: Seq<Value>) -> Seq<ValueView> {
    values.map_values(|v: Value| v@)
}

} // verus!
