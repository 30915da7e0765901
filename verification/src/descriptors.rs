//! Descriptors from which regions, column families and columns are created.

use vstd::prelude::*;
use vstd::std_specs::cmp::PartialEqSpecImpl;
use vstd::std_specs::convert::FromSpecImpl;
use vstd::string::StringExecFns;
use crate::consts::{DEFAULT_CF_ID, DEFAULT_CF_NAME};
use crate::datatypes::ConcreteDataType;
use crate::schema::{
    clone_constraint, constraint_view, ColumnDefaultConstraint, ColumnSchema, ColumnSchemaView,
    ConstraintError, ConstraintView,
};
use crate::text::{decimal, push_decimal};

verus! {

/// Id of a column, unique in its region.
pub type ColumnId = u32;

/// Id of a column family, unique in its region.
pub type ColumnFamilyId = u32;

/// Sequence number of a region among the regions of one table.
pub type RegionNumber = u32;

/// Id of a table.
pub type TableId = u32;

/// Id of a region: the id of its table in the upper 32 bits, its number in
/// the lower.
#[derive(Debug, Clone, Copy, PartialEq, Eq, Hash, Structural)]
pub struct RegionId(u64);

impl View for RegionId {
    type V = u64;

    /// The id as one number.
    closed spec fn view(&self) -> u64 {
        self.0
    }
}

/// Composing and taking apart the two halves of a 64-bit id.
proof fn lemma_halves(id: u64, table_id: u32, region_number: u32)
    ensures
        ((table_id as u64) << 32) | (region_number as u64) == table_id * 0x1_0000_0000
            + region_number,
        (id >> 32) == id / 0x1_0000_0000,
        (id >> 32) <= 0xFFFF_FFFF,
        (id & 0xFFFF_FFFF) == id % 0x1_0000_0000,
{
    assert(((table_id as u64) << 32) | (region_number as u64) == table_id * 0x1_0000_0000
        + region_number) by (bit_vector);
    assert((id >> 32) == id / 0x1_0000_0000) by (bit_vector);
    assert((id >> 32) <= 0xFFFF_FFFF) by (bit_vector);
    assert((id & 0xFFFF_FFFF) == id % 0x1_0000_0000) by (bit_vector);
}

impl RegionId {
    /// The region id that is the number `id`.
    pub closed spec fn spec_from_u64(id: u64) -> RegionId {
        RegionId(id)
    }

    /// A region id is the number that it holds, and nothing else.
    pub proof fn lemma_from_u64(self)
        ensures
            self == RegionId::spec_from_u64(self@),
            forall|id: u64| #[trigger] RegionId::spec_from_u64(id)@ == id,
    {
    }

    /// The id of region `region_number` of table `table_id`.
    pub fn new(table_id: TableId, region_number: RegionNumber) -> (r: RegionId)
        ensures
            r@ == table_id * 0x1_0000_0000 + region_number,
    {
        proof {
            lemma_halves(0, table_id, region_number);
        }
        RegionId(((table_id as u64) << 32) | region_number as u64)
    }

    /// The id of the region's table.
    pub fn table_id(&self) -> (r: TableId)
        ensures
            r == self@ / 0x1_0000_0000,
    {
        proof {
            lemma_halves(self.0, 0, 0);
        }
        (self.0 >> 32) as TableId
    }

    /// The number of the region in its table.
    pub fn region_number(&self) -> (r: RegionNumber)
        ensures
            r == self@ % 0x1_0000_0000,
    {
        proof {
            lemma_halves(self.0, 0, 0);
        }
        (self.0 & 0xFFFF_FFFF) as RegionNumber
    }

    /// The id as one number.
    pub fn as_u64(&self) -> (r: u64)
        ensures
            r == self@,
    {
        self.0
    }

    /// The region id that is the number `id`.
    pub fn from_u64(id: u64) -> (r: RegionId)
        ensures
            r@ == id,
    {
        RegionId(id)
    }

    /// The id in text: the number, then table id and region number in
    /// brackets.
    pub fn to_string(&self) -> (r: String)
        ensures
            r@ == region_id_text(self@),
    {
        let mut s = String::new();
        proof {
            reveal_strlit("(");
            reveal_strlit(", ");
            reveal_strlit(")");
        }
        push_decimal(&mut s, self.0);
        s.append("(");
        push_decimal(&mut s, self.table_id() as u64);
        s.append(", ");
        push_decimal(&mut s, self.region_number() as u64);
        s.append(")");
        assert(s@ =~= region_id_text(self@));
        s
    }
}

/// The text of the region id `id`: `id(table, number)`, all in decimal.
pub open spec fn region_id_text(id: u64) -> Seq<char> {
    decimal(id as nat) + seq!['('] + decimal((id / 0x1_0000_0000) as nat) + seq![',', ' ']
        + decimal((id % 0x1_0000_0000) as nat) + seq![')']
}

/// The parts of an id made of two halves are the halves.
pub proof fn lemma_region_id_parts(table_id: TableId, region_number: RegionNumber)
    ensures
        (table_id * 0x1_0000_0000 + region_number) / 0x1_0000_0000 == table_id,
        (table_id * 0x1_0000_0000 + region_number) % 0x1_0000_0000 == region_number,
        0 <= table_id * 0x1_0000_0000 + region_number <= u64::MAX,
{
}

impl Default for RegionId {
    fn default() -> (r: Self)
        ensures
            r@ == 0,
    {
        RegionId(0)
    }
}

impl From<u64> for RegionId {
    fn from(region_id: u64) -> (r: RegionId) {
        RegionId::from_u64(region_id)
    }
}

impl FromSpecImpl<u64> for RegionId {
    open spec fn obeys_from_spec() -> bool {
        true
    }

    open spec fn from_spec(region_id: u64) -> RegionId {
        RegionId::spec_from_u64(region_id)
    }
}

impl From<RegionId> for u64 {
    fn from(region_id: RegionId) -> (r: u64) {
        region_id.as_u64()
    }
}

impl FromSpecImpl<RegionId> for u64 {
    open spec fn obeys_from_spec() -> bool {
        true
    }

    open spec fn from_spec(region_id: RegionId) -> u64 {
        region_id@
    }
}

impl PartialEq<u64> for RegionId {
    fn eq(&self, other: &u64) -> (r: bool) {
        self.0 == *other
    }
}

impl PartialEqSpecImpl<u64> for RegionId {
    open spec fn obeys_eq_spec() -> bool {
        true
    }

    open spec fn eq_spec(&self, other: &u64) -> bool {
        self@ == *other
    }
}

impl PartialEq<RegionId> for u64 {
    fn eq(&self, other: &RegionId) -> (r: bool) {
        *self == other.0
    }
}

impl PartialEqSpecImpl<RegionId> for u64 {
    open spec fn obeys_eq_spec() -> bool {
        true
    }

    open spec fn eq_spec(&self, other: &RegionId) -> bool {
        *self == other@
    }
}

/// Why a column descriptor cannot be built.
#[derive(Debug, Clone, Copy, PartialEq, Eq, Structural)]
pub enum ValidationError {
    /// The name of the column is empty.
    EmptyName,
    /// The default cannot stand on the column.
    Constraint(ConstraintError),
}

/// Why a descriptor cannot be built.
#[derive(Debug, Clone, Copy, PartialEq, Eq)]
pub enum BuilderError {
    /// A field that has no default was not set; the field's name.
    UninitializedField(&'static str),
    /// The fields that were set do not go together.
    ValidationError(ValidationError),
}

/// What is needed to create a column.
#[derive(Debug, PartialEq, Eq)]
pub struct ColumnDescriptor {
    pub id: ColumnId,
    pub name: String,
    pub data_type: ConcreteDataType,
    /// Whether the column takes nulls; it does unless told otherwise.
    is_nullable: bool,
    /// Whether the column is the time index; it is not unless told so.
    is_time_index: bool,
    /// The default of the column. Without one, a value must be given for a
    /// column that takes no nulls.
    default_constraint: Option<ColumnDefaultConstraint>,
    pub comment: String,
}

/// What a [`ColumnDescriptor`] stands for.
pub struct ColumnDescriptorView {
    pub id: ColumnId,
    pub name: Seq<char>,
    pub data_type: ConcreteDataType,
    pub is_nullable: bool,
    pub is_time_index: bool,
    pub default_constraint: Option<ConstraintView>,
    pub comment: Seq<char>,
}

impl ColumnDescriptorView {
    /// The default, where there is one, can stand on the column.
    pub open spec fn default_is_valid(self) -> bool {
        match self.default_constraint {
            Some(c) => c.validate(self.data_type, self.is_nullable) is Ok,
            None => true,
        }
    }

    /// The schema of the column: what the descriptor says, without id and
    /// comment.
    pub open spec fn to_column_schema(self) -> ColumnSchemaView {
        ColumnSchemaView {
            name: self.name,
            data_type: self.data_type,
            is_nullable: self.is_nullable,
            is_time_index: self.is_time_index,
            default_constraint: self.default_constraint,
        }
    }
}

impl View for ColumnDescriptor {
    type V = ColumnDescriptorView;

    closed spec fn view(&self) -> ColumnDescriptorView {
        ColumnDescriptorView {
            id: self.id,
            name: self.name@,
            data_type: self.data_type,
            is_nullable: self.is_nullable,
            is_time_index: self.is_time_index,
            default_constraint: constraint_view(self.default_constraint),
            comment: self.comment@,
        }
    }
}

impl Clone for ColumnDescriptor {
    fn clone(&self) -> (r: Self)
        ensures
            r@ == self@,
    {
        ColumnDescriptor {
            id: self.id,
            name: self.name.clone(),
            data_type: self.data_type,
            is_nullable: self.is_nullable,
            is_time_index: self.is_time_index,
            default_constraint: clone_constraint(&self.default_constraint),
            comment: self.comment.clone(),
        }
    }
}

impl ColumnDescriptor {
    pub fn is_nullable(&self) -> (r: bool)
        ensures
            r == self@.is_nullable,
    {
        self.is_nullable
    }

    pub fn is_time_index(&self) -> (r: bool)
        ensures
            r == self@.is_time_index,
    {
        self.is_time_index
    }

    pub fn default_constraint(&self) -> (r: Option<&ColumnDefaultConstraint>)
        ensures
            match r {
                Some(c) => self@.default_constraint == Some(c@),
                None => self@.default_constraint is None,
            },
    {
        self.default_constraint.as_ref()
    }

    /// Whether the default, where there is one, can stand on the column.
    pub fn has_valid_default(&self) -> (r: bool)
        ensures
            r == self@.default_is_valid(),
    {
        match &self.default_constraint {
            Some(c) => c.validate(&self.data_type, self.is_nullable).is_ok(),
            None => true,
        }
    }

    /// The schema of the column. Id and comment are not part of a schema
    /// and are left out. The default must be one that can stand on the
    /// column, as it is in every descriptor that was built and not changed.
    pub fn to_column_schema(&self) -> (r: ColumnSchema)
        requires
            self@.default_is_valid(),
        ensures
            r@ == self@.to_column_schema(),
    {
        ColumnSchema::new(self.name.as_str(), self.data_type, self.is_nullable)
            .with_time_index(self.is_time_index)
            .with_default_constraint(clone_constraint(&self.default_constraint))
            .unwrap()
    }
}

/// Collects what a [`ColumnDescriptor`] is built from.
#[derive(Debug)]
pub struct ColumnDescriptorBuilder {
    id: Option<ColumnId>,
    name: Option<String>,
    data_type: Option<ConcreteDataType>,
    is_nullable: Option<bool>,
    is_time_index: Option<bool>,
    default_constraint: Option<Option<ColumnDefaultConstraint>>,
    comment: Option<String>,
}

/// What a [`ColumnDescriptorBuilder`] holds: for each field what it was set
/// to, if it was set.
pub struct ColumnDescriptorBuilderView {
    pub id: Option<ColumnId>,
    pub name: Option<Seq<char>>,
    pub data_type: Option<ConcreteDataType>,
    pub is_nullable: Option<bool>,
    pub is_time_index: Option<bool>,
    pub default_constraint: Option<Option<ConstraintView>>,
    pub comment: Option<Seq<char>>,
}

impl ColumnDescriptorBuilderView {
    /// A builder in which nothing is set.
    pub open spec fn empty() -> Self {
        ColumnDescriptorBuilderView {
            id: None,
            name: None,
            data_type: None,
            is_nullable: None,
            is_time_index: None,
            default_constraint: None,
            comment: None,
        }
    }

    /// Whether what is set goes together: a name that is set is not empty,
    /// and a default that is set can stand on a column of the type that is
    /// set, which takes nulls unless that was set otherwise. A default is
    /// not looked at before the type is set.
    pub open spec fn validate(self) -> Result<(), ValidationError> {
        if self.name matches Some(n) && n.len() == 0 {
            Err(ValidationError::EmptyName)
        } else {
            match (self.default_constraint, self.data_type) {
                (Some(Some(c)), Some(t)) => match c.validate(
                    t,
                    match self.is_nullable {
                        Some(b) => b,
                        None => true,
                    },
                ) {
                    Ok(()) => Ok(()),
                    Err(e) => Err(ValidationError::Constraint(e)),
                },
                _ => Ok(()),
            }
        }
    }

    /// The first of the fields without a default that is not set, if there
    /// is one: `id`, `name` and `data_type` have none.
    pub open spec fn missing(self) -> Option<Seq<char>> {
        if self.id is None {
            Some("id"@)
        } else if self.name is None {
            Some("name"@)
        } else if self.data_type is None {
            Some("data_type"@)
        } else {
            None
        }
    }

    /// The descriptor that is built where nothing stands against it: the
    /// fields as they were set, and for those that were not, a column that
    /// takes nulls, is no time index, and has no default and no comment.
    pub open spec fn descriptor(self) -> ColumnDescriptorView {
        ColumnDescriptorView {
            id: self.id.unwrap(),
            name: self.name.unwrap(),
            data_type: self.data_type.unwrap(),
            is_nullable: match self.is_nullable {
                Some(b) => b,
                None => true,
            },
            is_time_index: match self.is_time_index {
                Some(b) => b,
                None => false,
            },
            default_constraint: match self.default_constraint {
                Some(c) => c,
                None => None,
            },
            comment: match self.comment {
                Some(c) => c,
                None => Seq::empty(),
            },
        }
    }
}

/// What an optional string stands for.
pub open spec fn option_string_view(s: Option<String>) -> Option<Seq<char>> {
    match s {
        Some(x) => Some(x@),
        None => None,
    }
}

impl View for ColumnDescriptorBuilder {
    type V = ColumnDescriptorBuilderView;

    closed spec fn view(&self) -> ColumnDescriptorBuilderView {
        ColumnDescriptorBuilderView {
            id: self.id,
            name: option_string_view(self.name),
            data_type: self.data_type,
            is_nullable: self.is_nullable,
            is_time_index: self.is_time_index,
            default_constraint: match self.default_constraint {
                Some(c) => Some(constraint_view(c)),
                None => None,
            },
            comment: option_string_view(self.comment),
        }
    }
}

impl Default for ColumnDescriptorBuilder {
    fn default() -> (r: Self)
        ensures
            r@ == ColumnDescriptorBuilderView::empty(),
    {
        ColumnDescriptorBuilder {
            id: None,
            name: None,
            data_type: None,
            is_nullable: None,
            is_time_index: None,
            default_constraint: None,
            comment: None,
        }
    }
}

impl ColumnDescriptorBuilder {
    /// A builder with the fields set that have no default.
    pub fn new(id: ColumnId, name: &str, data_type: ConcreteDataType) -> (r: Self)
        ensures
            r@ == (ColumnDescriptorBuilderView {
                id: Some(id),
                name: Some(name@),
                data_type: Some(data_type),
                ..ColumnDescriptorBuilderView::empty()
            }),
    {
        ColumnDescriptorBuilder {
            id: Some(id),
            name: Some(name.to_owned()),
            data_type: Some(data_type),
            is_nullable: None,
            is_time_index: None,
            default_constraint: None,
            comment: None,
        }
    }

    pub fn id(self, value: ColumnId) -> (r: Self)
        ensures
            r@ == (ColumnDescriptorBuilderView { id: Some(value), ..self@ }),
    {
        let mut new = self;
        new.id = Some(value);
        new
    }

    pub fn name(self, value: &str) -> (r: Self)
        ensures
            r@ == (ColumnDescriptorBuilderView { name: Some(value@), ..self@ }),
    {
        let mut new = self;
        new.name = Some(value.to_owned());
        new
    }

    pub fn data_type(self, value: ConcreteDataType) -> (r: Self)
        ensures
            r@ == (ColumnDescriptorBuilderView { data_type: Some(value), ..self@ }),
    {
        let mut new = self;
        new.data_type = Some(value);
        new
    }

    pub fn is_nullable(self, value: bool) -> (r: Self)
        ensures
            r@ == (ColumnDescriptorBuilderView { is_nullable: Some(value), ..self@ }),
    {
        let mut new = self;
        new.is_nullable = Some(value);
        new
    }

    pub fn is_time_index(self, value: bool) -> (r: Self)
        ensures
            r@ == (ColumnDescriptorBuilderView { is_time_index: Some(value), ..self@ }),
    {
        let mut new = self;
        new.is_time_index = Some(value);
        new
    }

    pub fn default_constraint(self, value: Option<ColumnDefaultConstraint>) -> (r: Self)
        ensures
            r@ == (ColumnDescriptorBuilderView {
                default_constraint: Some(constraint_view(value)),
                ..self@
            }),
    {
        let mut new = self;
        new.default_constraint = Some(value);
        new
    }

    pub fn comment(self, value: &str) -> (r: Self)
        ensures
            r@ == (ColumnDescriptorBuilderView { comment: Some(value@), ..self@ }),
    {
        let mut new = self;
        new.comment = Some(value.to_owned());
        new
    }

    /// Checks that what is set goes together.
    pub fn validate(&self) -> (r: Result<(), ValidationError>)
        ensures
            r == self@.validate(),
    {
        if let Some(name) = &self.name {
            if name.as_str().is_empty() {
                return Err(ValidationError::EmptyName);
            }
        }
        if let (Some(Some(constraint)), Some(data_type)) = (
            &self.default_constraint,
            &self.data_type,
        ) {
            // a column takes nulls unless told otherwise
            let is_nullable = match self.is_nullable {
                Some(b) => b,
                None => true,
            };
            match constraint.validate(data_type, is_nullable) {
                Ok(()) => {},
                Err(e) => {
                    return Err(ValidationError::Constraint(e));
                },
            }
        }
        Ok(())
    }

    /// Builds the descriptor. Fails where what is set does not go together,
    /// and else where a field without a default is not set.
    pub fn build(self) -> (r: Result<ColumnDescriptor, BuilderError>)
        ensures
            match self@.validate() {
                Err(e) => r matches Err(BuilderError::ValidationError(x)) && x == e,
                Ok(()) => match self@.missing() {
                    Some(field) => r matches Err(BuilderError::UninitializedField(f)) && f@
                        == field,
                    None => r matches Ok(d) && d@ == self@.descriptor() && d@.default_is_valid()
                        && d@.name.len() > 0,
                },
            },
    {
        match self.validate() {
            Ok(()) => {},
            Err(e) => {
                return Err(BuilderError::ValidationError(e));
            },
        }
        let id = match self.id {
            Some(v) => v,
            None => {
                return Err(BuilderError::UninitializedField("id"));
            },
        };
        let name = match self.name {
            Some(v) => v,
            None => {
                return Err(BuilderError::UninitializedField("name"));
            },
        };
        let data_type = match self.data_type {
            Some(v) => v,
            None => {
                return Err(BuilderError::UninitializedField("data_type"));
            },
        };
        Ok(
            ColumnDescriptor {
                id,
                name,
                data_type,
                is_nullable: match self.is_nullable {
                    Some(v) => v,
                    None => true,
                },
                is_time_index: match self.is_time_index {
                    Some(v) => v,
                    None => false,
                },
                default_constraint: match self.default_constraint {
                    Some(v) => v,
                    None => None,
                },
                comment: match self.comment {
                    Some(v) => v,
                    None => String::new(),
                },
            },
        )
    }
}

/// The columns of the row key.
#[derive(Debug, Clone, PartialEq, Eq)]
pub struct RowKeyDescriptor {
    pub columns: Vec<ColumnDescriptor>,
    /// The timestamp column of the key.
    pub timestamp: ColumnDescriptor,
}

/// Collects what a [`RowKeyDescriptor`] is built from.
#[derive(Debug)]
pub struct RowKeyDescriptorBuilder {
    columns: Option<Vec<ColumnDescriptor>>,
    timestamp: Option<ColumnDescriptor>,
}

/// The elements of a list that may not be set; none where it is not.
pub open spec fn set_or_empty<T>(list: Option<Vec<T>>) -> Seq<T> {
    match list {
        Some(v) => v@,
        None => Seq::empty(),
    }
}

impl Default for RowKeyDescriptorBuilder {
    fn default() -> (r: Self)
        ensures
            r.columns_set() is None,
            r.timestamp_set() is None,
    {
        RowKeyDescriptorBuilder { columns: None, timestamp: None }
    }
}

impl RowKeyDescriptorBuilder {
    /// The columns that were set or pushed, if any were.
    pub closed spec fn columns_set(&self) -> Option<Vec<ColumnDescriptor>> {
        self.columns
    }

    /// The timestamp column, if it was set.
    pub closed spec fn timestamp_set(&self) -> Option<ColumnDescriptor> {
        self.timestamp
    }

    /// A builder with the timestamp column set.
    pub fn new(timestamp: ColumnDescriptor) -> (r: Self)
        ensures
            r.columns_set() is None,
            r.timestamp_set() == Some(timestamp),
    {
        RowKeyDescriptorBuilder { columns: None, timestamp: Some(timestamp) }
    }

    /// Sets the columns to none, with room for `capacity` of them.
    pub fn columns_capacity(self, capacity: usize) -> (r: Self)
        ensures
            r.columns_set() matches Some(v) && v@.len() == 0,
            r.timestamp_set() == self.timestamp_set(),
    {
        let mut new = self;
        new.columns = Some(Vec::with_capacity(capacity));
        new
    }

    pub fn columns(self, value: Vec<ColumnDescriptor>) -> (r: Self)
        ensures
            r.columns_set() == Some(value),
            r.timestamp_set() == self.timestamp_set(),
    {
        let mut new = self;
        new.columns = Some(value);
        new
    }

    /// Adds a column behind those that are there.
    pub fn push_column(self, item: ColumnDescriptor) -> (r: Self)
        ensures
            r.columns_set() matches Some(v) && v@ == set_or_empty(self.columns_set()).push(item),
            r.timestamp_set() == self.timestamp_set(),
    {
        let mut columns = match self.columns {
            Some(v) => v,
            None => Vec::new(),
        };
        columns.push(item);
        RowKeyDescriptorBuilder { columns: Some(columns), timestamp: self.timestamp }
    }

    pub fn timestamp(self, value: ColumnDescriptor) -> (r: Self)
        ensures
            r.columns_set() == self.columns_set(),
            r.timestamp_set() == Some(value),
    {
        let mut new = self;
        new.timestamp = Some(value);
        new
    }

    /// Builds the descriptor, with no columns where none were set. Fails
    /// where the timestamp column is not set.
    pub fn build(self) -> (r: Result<RowKeyDescriptor, BuilderError>)
        ensures
            match self.timestamp_set() {
                Some(t) => r matches Ok(d) && d.timestamp == t && d.columns@ == set_or_empty(
                    self.columns_set(),
                ),
                None => r matches Err(BuilderError::UninitializedField(f)) && f@ == "timestamp"@,
            },
    {
        let timestamp = match self.timestamp {
            Some(v) => v,
            None => {
                return Err(BuilderError::UninitializedField("timestamp"));
            },
        };
        Ok(
            RowKeyDescriptor {
                columns: match self.columns {
                    Some(v) => v,
                    None => Vec::new(),
                },
                timestamp,
            },
        )
    }
}

/// What is needed to create a column family.
#[derive(Debug, Clone, PartialEq, Eq)]
pub struct ColumnFamilyDescriptor {
    pub cf_id: ColumnFamilyId,
    pub name: String,
    /// The columns of the family.
    pub columns: Vec<ColumnDescriptor>,
}

/// Collects what a [`ColumnFamilyDescriptor`] is built from.
#[derive(Debug)]
pub struct ColumnFamilyDescriptorBuilder {
    cf_id: Option<ColumnFamilyId>,
    name: Option<String>,
    columns: Option<Vec<ColumnDescriptor>>,
}

impl Default for ColumnFamilyDescriptorBuilder {
    fn default() -> (r: Self)
        ensures
            r.cf_id_set() is None,
            r.name_set() is None,
            r.columns_set() is None,
    {
        ColumnFamilyDescriptorBuilder { cf_id: None, name: None, columns: None }
    }
}

impl ColumnFamilyDescriptorBuilder {
    /// The id, if it was set.
    pub closed spec fn cf_id_set(&self) -> Option<ColumnFamilyId> {
        self.cf_id
    }

    /// The name, if it was set.
    pub closed spec fn name_set(&self) -> Option<Seq<char>> {
        option_string_view(self.name)
    }

    /// The columns that were set or pushed, if any were.
    pub closed spec fn columns_set(&self) -> Option<Vec<ColumnDescriptor>> {
        self.columns
    }

    pub fn cf_id(self, value: ColumnFamilyId) -> (r: Self)
        ensures
            r.cf_id_set() == Some(value),
            r.name_set() == self.name_set(),
            r.columns_set() == self.columns_set(),
    {
        let mut new = self;
        new.cf_id = Some(value);
        new
    }

    pub fn name(self, value: &str) -> (r: Self)
        ensures
            r.cf_id_set() == self.cf_id_set(),
            r.name_set() == Some(value@),
            r.columns_set() == self.columns_set(),
    {
        let mut new = self;
        new.name = Some(value.to_owned());
        new
    }

    pub fn columns(self, value: Vec<ColumnDescriptor>) -> (r: Self)
        ensures
            r.cf_id_set() == self.cf_id_set(),
            r.name_set() == self.name_set(),
            r.columns_set() == Some(value),
    {
        let mut new = self;
        new.columns = Some(value);
        new
    }

    /// Sets the columns to none, with room for `capacity` of them.
    pub fn columns_capacity(self, capacity: usize) -> (r: Self)
        ensures
            r.cf_id_set() == self.cf_id_set(),
            r.name_set() == self.name_set(),
            r.columns_set() matches Some(v) && v@.len() == 0,
    {
        let mut new = self;
        new.columns = Some(Vec::with_capacity(capacity));
        new
    }

    /// Adds a column behind those that are there.
    pub fn push_column(self, item: ColumnDescriptor) -> (r: Self)
        ensures
            r.cf_id_set() == self.cf_id_set(),
            r.name_set() == self.name_set(),
            r.columns_set() matches Some(v) && v@ == set_or_empty(self.columns_set()).push(item),
    {
        let mut columns = match self.columns {
            Some(v) => v,
            None => Vec::new(),
        };
        columns.push(item);
        ColumnFamilyDescriptorBuilder { cf_id: self.cf_id, name: self.name, columns: Some(columns) }
    }

    /// Builds the descriptor: of the default column family where id or
    /// name were not set, with no columns where none were set.
    pub fn build(self) -> (r: Result<ColumnFamilyDescriptor, BuilderError>)
        ensures
            r matches Ok(d) && d.cf_id == (match self.cf_id_set() {
                Some(id) => id,
                None => DEFAULT_CF_ID,
            }) && d.name@ == (match self.name_set() {
                Some(n) => n,
                None => DEFAULT_CF_NAME@,
            }) && d.columns@ == set_or_empty(self.columns_set()),
    {
        Ok(
            ColumnFamilyDescriptor {
                cf_id: match self.cf_id {
                    Some(v) => v,
                    None => DEFAULT_CF_ID,
                },
                name: match self.name {
                    Some(v) => v,
                    None => DEFAULT_CF_NAME.to_owned(),
                },
                columns: match self.columns {
                    Some(v) => v,
                    None => Vec::new(),
                },
            },
        )
    }
}

/// What is needed to create a region.
#[derive(Debug, Clone, PartialEq, Eq)]
pub struct RegionDescriptor {
    pub id: RegionId,
    /// The name of the region.
    pub name: String,
    /// The row key of the region.
    pub row_key: RowKeyDescriptor,
    /// The default column family.
    pub default_cf: ColumnFamilyDescriptor,
    /// The column families that the user defined.
    pub extra_cfs: Vec<ColumnFamilyDescriptor>,
}

/// Collects what a [`RegionDescriptor`] is built from.
#[derive(Debug)]
pub struct RegionDescriptorBuilder {
    id: Option<RegionId>,
    name: Option<String>,
    row_key: Option<RowKeyDescriptor>,
    default_cf: Option<ColumnFamilyDescriptor>,
    extra_cfs: Option<Vec<ColumnFamilyDescriptor>>,
}

/// What a [`RegionDescriptorBuilder`] holds: for each field what it was set
/// to, if it was set.
pub struct RegionDescriptorBuilderView {
    pub id: Option<RegionId>,
    pub name: Option<Seq<char>>,
    pub row_key: Option<RowKeyDescriptor>,
    pub default_cf: Option<ColumnFamilyDescriptor>,
    pub extra_cfs: Option<Vec<ColumnFamilyDescriptor>>,
}

impl RegionDescriptorBuilderView {
    /// The first of the fields without a default that is not set, if there
    /// is one: only `extra_cfs` has a default.
    pub open spec fn missing(self) -> Option<Seq<char>> {
        if self.id is None {
            Some("id"@)
        } else if self.name is None {
            Some("name"@)
        } else if self.row_key is None {
            Some("row_key"@)
        } else if self.default_cf is None {
            Some("default_cf"@)
        } else {
            None
        }
    }
}

impl View for RegionDescriptorBuilder {
    type V = RegionDescriptorBuilderView;

    closed spec fn view(&self) -> RegionDescriptorBuilderView {
        RegionDescriptorBuilderView {
            id: self.id,
            name: option_string_view(self.name),
            row_key: self.row_key,
            default_cf: self.default_cf,
            extra_cfs: self.extra_cfs,
        }
    }
}

impl Default for RegionDescriptorBuilder {
    fn default() -> (r: Self)
        ensures
            r@ == (RegionDescriptorBuilderView {
                id: None,
                name: None,
                row_key: None,
                default_cf: None,
                extra_cfs: None,
            }),
    {
        RegionDescriptorBuilder {
            id: None,
            name: None,
            row_key: None,
            default_cf: None,
            extra_cfs: None,
        }
    }
}

impl RegionDescriptorBuilder {
    pub fn id(self, value: RegionId) -> (r: Self)
        ensures
            r@ == (RegionDescriptorBuilderView { id: Some(value), ..self@ }),
    {
        let mut new = self;
        new.id = Some(value);
        new
    }

    pub fn name(self, value: &str) -> (r: Self)
        ensures
            r@ == (RegionDescriptorBuilderView { name: Some(value@), ..self@ }),
    {
        let mut new = self;
        new.name = Some(value.to_owned());
        new
    }

    pub fn row_key(self, value: RowKeyDescriptor) -> (r: Self)
        ensures
            r@ == (RegionDescriptorBuilderView { row_key: Some(value), ..self@ }),
    {
        let mut new = self;
        new.row_key = Some(value);
        new
    }

    pub fn default_cf(self, value: ColumnFamilyDescriptor) -> (r: Self)
        ensures
            r@ == (RegionDescriptorBuilderView { default_cf: Some(value), ..self@ }),
    {
        let mut new = self;
        new.default_cf = Some(value);
        new
    }

    pub fn extra_cfs(self, value: Vec<ColumnFamilyDescriptor>) -> (r: Self)
        ensures
            r@ == (RegionDescriptorBuilderView { extra_cfs: Some(value), ..self@ }),
    {
        let mut new = self;
        new.extra_cfs = Some(value);
        new
    }

    /// Adds a column family behind the extra ones that are there.
    pub fn push_extra_column_family(self, item: ColumnFamilyDescriptor) -> (r: Self)
        ensures
            r@.id == self@.id,
            r@.name == self@.name,
            r@.row_key == self@.row_key,
            r@.default_cf == self@.default_cf,
            r@.extra_cfs matches Some(v) && v@ == set_or_empty(self@.extra_cfs).push(item),
    {
        let mut extra_cfs = match self.extra_cfs {
            Some(v) => v,
            None => Vec::new(),
        };
        extra_cfs.push(item);
        RegionDescriptorBuilder {
            id: self.id,
            name: self.name,
            row_key: self.row_key,
            default_cf: self.default_cf,
            extra_cfs: Some(extra_cfs),
        }
    }

    /// Builds the descriptor, with no extra column families where none
    /// were set. Fails where another field is not set.
    pub fn build(self) -> (r: Result<RegionDescriptor, BuilderError>)
        ensures
            match self@.missing() {
                Some(field) => r matches Err(BuilderError::UninitializedField(f)) && f@ == field,
                None => r matches Ok(d) && d.id == self@.id.unwrap() && d.name@
                    == self@.name.unwrap() && d.row_key == self@.row_key.unwrap() && d.default_cf
                    == self@.default_cf.unwrap() && d.extra_cfs@ == set_or_empty(
                    self@.extra_cfs,
                ),
            },
    {
        let id = match self.id {
            Some(v) => v,
            None => {
                return Err(BuilderError::UninitializedField("id"));
            },
        };
        let name = match self.name {
            Some(v) => v,
            None => {
                return Err(BuilderError::UninitializedField("name"));
            },
        };
        let row_key = match self.row_key {
            Some(v) => v,
            None => {
                return Err(BuilderError::UninitializedField("row_key"));
            },
        };
        let default_cf = match self.default_cf {
            Some(v) => v,
            None => {
                return Err(BuilderError::UninitializedField("default_cf"));
            },
        };
        Ok(
            RegionDescriptor {
                id,
                name,
                row_key,
                default_cf,
                extra_cfs: match self.extra_cfs {
                    Some(v) => v,
                    None => Vec::new(),
                },
            },
        )
    }
}

} // verus!
