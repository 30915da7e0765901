//! Column schemas and the default values of columns.

use vstd::prelude::*;
use vstd::slice::slice_to_vec;
use crate::datatypes::{ConcreteDataType, Value, ValueView};
use crate::text::str_eq;

verus! {

/// The one function that a default constraint can name: the time at which
/// the row is written.
pub const CURRENT_TIMESTAMP: &'static str = "current_timestamp()";

impl Clone for Value {
    fn clone(&self) -> (r: Self)
        ensures
            r@ == self@,
    {
        match self {
            Value::Null => Value::Null,
            Value::Boolean(b) => Value::Boolean(*b),
            Value::UInt8(x) => Value::UInt8(*x),
            Value::UInt16(x) => Value::UInt16(*x),
            Value::UInt32(x) => Value::UInt32(*x),
            Value::UInt64(x) => Value::UInt64(*x),
            Value::Int8(x) => Value::Int8(*x),
            Value::Int16(x) => Value::Int16(*x),
            Value::Int32(x) => Value::Int32(*x),
            Value::Int64(x) => Value::Int64(*x),
            Value::Float64(x) => Value::Float64(*x),
            Value::String(s) => Value::String(s.clone()),
            Value::Binary(b) => Value::Binary(slice_to_vec(b.as_slice())),
            Value::Date(x) => Value::Date(*x),
            Value::DateTime(x) => Value::DateTime(*x),
            Value::Timestamp(x) => Value::Timestamp(*x),
        }
    }
}

/// The default of a column: a function to call, or a value.
#[derive(Debug, PartialEq, Eq)]
pub enum ColumnDefaultConstraint {
    Function(String),
    Value(Value),
}

/// What a [`ColumnDefaultConstraint`] stands for.
pub enum ConstraintView {
    Function(Seq<char>),
    Value(ValueView),
}

impl View for ColumnDefaultConstraint {
    type V = ConstraintView;

    open spec fn view(&self) -> ConstraintView {
        match self {
            ColumnDefaultConstraint::Function(f) => ConstraintView::Function(f@),
            ColumnDefaultConstraint::Value(v) => ConstraintView::Value(v@),
        }
    }
}

/// Why a default constraint cannot stand on a column.
#[derive(Debug, Clone, Copy, PartialEq, Eq, Structural)]
pub enum ConstraintError {
    /// The default is a null, and the column takes none.
    NullDefault,
    /// The default names a function other than [`CURRENT_TIMESTAMP`].
    UnsupportedDefaultExpr,
    /// The default has another type than the column.
    DefaultValueType,
}

impl ConstraintView {
    /// The default is a null value.
    pub open spec fn maybe_null(self) -> bool {
        self matches ConstraintView::Value(v) && v is Null
    }

    /// Whether the constraint can stand on a column of type `data_type`:
    /// a null default needs a nullable column, a function must be
    /// [`CURRENT_TIMESTAMP`] on a column that can hold a time, and a value
    /// that is not a null must have the column's type.
    pub open spec fn validate(self, data_type: ConcreteDataType, is_nullable: bool) -> Result<
        (),
        ConstraintError,
    > {
        if !is_nullable && self.maybe_null() {
            Err(ConstraintError::NullDefault)
        } else {
            match self {
                ConstraintView::Function(f) => if f != CURRENT_TIMESTAMP@ {
                    Err(ConstraintError::UnsupportedDefaultExpr)
                } else if !data_type.is_timestamp_compatible() {
                    Err(ConstraintError::DefaultValueType)
                } else {
                    Ok(())
                },
                ConstraintView::Value(v) => if v.fits(data_type) {
                    Ok(())
                } else {
                    Err(ConstraintError::DefaultValueType)
                },
            }
        }
    }
}

impl Clone for ColumnDefaultConstraint {
    fn clone(&self) -> (r: Self)
        ensures
            r@ == self@,
    {
        match self {
            ColumnDefaultConstraint::Function(f) => ColumnDefaultConstraint::Function(f.clone()),
            ColumnDefaultConstraint::Value(v) => ColumnDefaultConstraint::Value(v.clone()),
        }
    }
}

impl ColumnDefaultConstraint {
    /// Whether the default is a null value.
    pub fn maybe_null(&self) -> (r: bool)
        ensures
            r == self@.maybe_null(),
    {
        match self {
            ColumnDefaultConstraint::Function(_) => false,
            ColumnDefaultConstraint::Value(v) => v.is_null(),
        }
    }

    /// Checks that the constraint can stand on a column of type `data_type`.
    pub fn validate(&self, data_type: &ConcreteDataType, is_nullable: bool) -> (r: Result<
        (),
        ConstraintError,
    >)
        ensures
            r == self@.validate(*data_type, is_nullable),
    {
        if !is_nullable && self.maybe_null() {
            return Err(ConstraintError::NullDefault);
        }
        match self {
            ColumnDefaultConstraint::Function(f) => {
                if !str_eq(f.as_str(), CURRENT_TIMESTAMP) {
                    Err(ConstraintError::UnsupportedDefaultExpr)
                } else if !data_type.is_timestamp_compatible() {
                    Err(ConstraintError::DefaultValueType)
                } else {
                    Ok(())
                }
            },
            ColumnDefaultConstraint::Value(v) => {
                match v.data_type() {
                    None => Ok(()),
                    Some(t) => if t == *data_type {
                        Ok(())
                    } else {
                        Err(ConstraintError::DefaultValueType)
                    },
                }
            },
        }
    }
}

/// Clones an optional default constraint.
pub fn clone_constraint(c: &Option<ColumnDefaultConstraint>) -> (r: Option<ColumnDefaultConstraint>)
    ensures
        constraint_view(r) == constraint_view(*c),
{
    match c {
        Some(x) => Some(x.clone()),
        None => None,
    }
}

/// What an optional default constraint stands for.
pub open spec fn constraint_view(c: Option<ColumnDefaultConstraint>) -> Option<ConstraintView> {
    match c {
        Some(x) => Some(x@),
        None => None,
    }
}

/// The schema of one column.
#[derive(Debug, PartialEq, Eq)]
pub struct ColumnSchema {
    pub name: String,
    pub data_type: ConcreteDataType,
    is_nullable: bool,
    is_time_index: bool,
    default_constraint: Option<ColumnDefaultConstraint>,
}

/// What a [`ColumnSchema`] stands for.
pub struct ColumnSchemaView {
    pub name: Seq<char>,
    pub data_type: ConcreteDataType,
    pub is_nullable: bool,
    pub is_time_index: bool,
    pub default_constraint: Option<ConstraintView>,
}

impl View for ColumnSchema {
    type V = ColumnSchemaView;

    closed spec fn view(&self) -> ColumnSchemaView {
        ColumnSchemaView {
            name: self.name@,
            data_type: self.data_type,
            is_nullable: self.is_nullable,
            is_time_index: self.is_time_index,
            default_constraint: constraint_view(self.default_constraint),
        }
    }
}

impl Clone for ColumnSchema {
    fn clone(&self) -> (r: Self)
        ensures
            r@ == self@,
    {
        ColumnSchema {
            name: self.name.clone(),
            data_type: self.data_type,
            is_nullable: self.is_nullable,
            is_time_index: self.is_time_index,
            default_constraint: clone_constraint(&self.default_constraint),
        }
    }
}

impl ColumnSchema {
    /// A column that is no time index and has no default.
    pub fn new(name: &str, data_type: ConcreteDataType, is_nullable: bool) -> (r: Self)
        ensures
            r@ == (ColumnSchemaView {
                name: name@,
                data_type,
                is_nullable,
                is_time_index: false,
                default_constraint: None,
            }),
    {
        ColumnSchema {
            name: name.to_owned(),
            data_type,
            is_nullable,
            is_time_index: false,
            default_constraint: None,
        }
    }

    /// The column's name.
    pub fn name(&self) -> (r: &String)
        ensures
            r@ == self@.name,
    {
        &self.name
    }

    /// The type of the column's values.
    pub fn data_type(&self) -> (r: ConcreteDataType)
        ensures
            r == self@.data_type,
    {
        self.data_type
    }

    pub fn is_nullable(&self) -> (r: bool)
        ensures
            r == self@.is_nullable,
    {
        self.is_nullable
    }

    pub fn is_time_index(&self) -> (r: bool)
        ensures
            r == self@.is_time_index,
    {
        self.is_time_index
    }

    pub fn default_constraint(&self) -> (r: Option<&ColumnDefaultConstraint>)
        ensures
            match r {
                Some(c) => self@.default_constraint == Some(c@),
                None => self@.default_constraint is None,
            },
    {
        self.default_constraint.as_ref()
    }

    /// Marks the column as the time index, or as none.
    pub fn with_time_index(self, is_time_index: bool) -> (r: Self)
        ensures
            r@ == (ColumnSchemaView { is_time_index, ..self@ }),
    {
        ColumnSchema {
            name: self.name,
            data_type: self.data_type,
            is_nullable: self.is_nullable,
            is_time_index,
            default_constraint: self.default_constraint,
        }
    }

    /// Sets the default of the column, which must be one that can stand on
    /// it; `None` takes the default away.
    pub fn with_default_constraint(
        self,
        default_constraint: Option<ColumnDefaultConstraint>,
    ) -> (r: Result<Self, ConstraintError>)
        ensures
            match constraint_view(default_constraint) {
                Some(c) => match c.validate(self@.data_type, self@.is_nullable) {
                    Ok(()) => r matches Ok(s) && s@ == (ColumnSchemaView {
                        default_constraint: Some(c),
                        ..self@
                    }),
                    Err(e) => r matches Err(x) && x == e,
                },
                None => r matches Ok(s) && s@ == (ColumnSchemaView {
                    default_constraint: None,
                    ..self@
                }),
            },
    {
        if let Some(constraint) = &default_constraint {
            match constraint.validate(&self.data_type, self.is_nullable) {
                Ok(()) => {},
                Err(e) => {
                    return Err(e);
                },
            }
        }
        Ok(
            ColumnSchema {
                name: self.name,
                data_type: self.data_type,
                is_nullable: self.is_nullable,
                is_time_index: self.is_time_index,
                default_constraint,
            },
        )
    }
}

} // verus!
