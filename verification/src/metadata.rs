//! The columns of a region, and the layout in which its rows are stored.
//!
//! A stored row holds the field columns in their order, then the time index,
//! then the encoded primary key, which stands for all tag columns at once.

use std::sync::Arc;
use vstd::prelude::*;
use crate::datatypes::ConcreteDataType;
use crate::descriptors::ColumnId;
use crate::row_converter::SortField;
use crate::schema::{ColumnSchema, ColumnSchemaView};
use crate::text::str_eq;

verus! {

/// The role of a column in its region.
#[derive(Debug, Clone, Copy, PartialEq, Eq, Structural)]
pub enum SemanticType {
    /// A member of the primary key.
    Tag,
    /// A plain column, neither in the key nor the time index.
    Field,
    /// The time index.
    Timestamp,
}

/// One column of a region.
#[derive(Debug, PartialEq, Eq)]
pub struct ColumnMetadata {
    pub column_schema: ColumnSchema,
    pub semantic_type: SemanticType,
    pub column_id: ColumnId,
}

/// What a [`ColumnMetadata`] stands for.
pub struct ColumnMetadataView {
    pub column_schema: ColumnSchemaView,
    pub semantic_type: SemanticType,
    pub column_id: ColumnId,
}

impl View for ColumnMetadata {
    type V = ColumnMetadataView;

    open spec fn view(&self) -> ColumnMetadataView {
        ColumnMetadataView {
            column_schema: self.column_schema@,
            semantic_type: self.semantic_type,
            column_id: self.column_id,
        }
    }
}

/// The columns of a region and its primary key.
#[derive(Debug, PartialEq, Eq)]
pub struct RegionMetadata {
    /// The columns, in the order of the schema.
    pub column_metadatas: Vec<ColumnMetadata>,
    /// The ids of the tag columns, in the order in which they are encoded
    /// into the key.
    pub primary_key: Vec<ColumnId>,
}

/// What a [`RegionMetadata`] stands for.
pub struct RegionMetadataView {
    pub columns: Seq<ColumnMetadataView>,
    pub primary_key: Seq<ColumnId>,
}

impl View for RegionMetadata {
    type V = RegionMetadataView;

    open spec fn view(&self) -> RegionMetadataView {
        RegionMetadataView {
            columns: self.column_metadatas@.map_values(|c: ColumnMetadata| c@),
            primary_key: self.primary_key@,
        }
    }
}

/// The number of field columns among `columns`.
pub open spec fn field_count(columns: Seq<ColumnMetadataView>) -> nat
    decreases columns.len(),
{
    if columns.len() == 0 {
        0
    } else if columns.last().semantic_type == SemanticType::Field {
        field_count(columns.drop_last()) + 1
    } else {
        field_count(columns.drop_last())
    }
}

/// The names of the field columns among `columns`, in their order.
pub open spec fn field_names(columns: Seq<ColumnMetadataView>) -> Seq<Seq<char>>
    decreases columns.len(),
{
    if columns.len() == 0 {
        Seq::empty()
    } else if columns.last().semantic_type == SemanticType::Field {
        field_names(columns.drop_last()).push(columns.last().column_schema.name)
    } else {
        field_names(columns.drop_last())
    }
}

/// There are no more field columns than columns, and fewer where some column
/// is no field.
pub proof fn lemma_field_count_bound(columns: Seq<ColumnMetadataView>)
    ensures
        field_count(columns) <= columns.len(),
        (exists|i: int|
            0 <= i < columns.len() && (#[trigger] columns[i]).semantic_type
                != SemanticType::Field) ==> field_count(columns) < columns.len(),
    decreases columns.len(),
{
    if columns.len() > 0 {
        let front = columns.drop_last();
        lemma_field_count_bound(front);
        if columns.last().semantic_type == SemanticType::Field {
            if exists|i: int|
                0 <= i < columns.len() && (#[trigger] columns[i]).semantic_type
                    != SemanticType::Field {
                let i = choose|i: int|
                    0 <= i < columns.len() && (#[trigger] columns[i]).semantic_type
                        != SemanticType::Field;
                assert(front[i].semantic_type != SemanticType::Field);
            }
        }
    }
}

impl RegionMetadataView {
    /// Column `i` is the first one named `name`.
    pub open spec fn is_first_named(self, i: int, name: Seq<char>) -> bool {
        &&& 0 <= i < self.columns.len()
        &&& self.columns[i].column_schema.name == name
        &&& forall|j: int| 0 <= j < i ==> self.columns[j].column_schema.name != name
    }

    /// Column `i` is the first one with the id `id`.
    pub open spec fn is_first_with_id(self, i: int, id: ColumnId) -> bool {
        &&& 0 <= i < self.columns.len()
        &&& self.columns[i].column_id == id
        &&& forall|j: int| 0 <= j < i ==> self.columns[j].column_id != id
    }

    /// Some column is named `name`.
    pub open spec fn has_column(self, name: Seq<char>) -> bool {
        exists|i: int| 0 <= i < self.columns.len() && self.columns[i].column_schema.name == name
    }

    /// Some column has the id `id`.
    pub open spec fn has_id(self, id: ColumnId) -> bool {
        exists|i: int| 0 <= i < self.columns.len() && self.columns[i].column_id == id
    }

    /// The first column named `name`, if there is one.
    pub open spec fn column_by_name(self, name: Seq<char>) -> Option<ColumnMetadataView> {
        if self.has_column(name) {
            Some(self.columns[choose|i: int| self.is_first_named(i, name)])
        } else {
            None
        }
    }

    /// The first column with the id `id`, if there is one.
    pub open spec fn column_by_id(self, id: ColumnId) -> Option<ColumnMetadataView> {
        if self.has_id(id) {
            Some(self.columns[choose|i: int| self.is_first_with_id(i, id)])
        } else {
            None
        }
    }

    /// The column of the first member of the primary key, if the key has a
    /// member and that member is a column.
    pub open spec fn first_primary_key_column(self) -> Option<ColumnMetadataView> {
        if self.primary_key.len() == 0 {
            None
        } else {
            self.column_by_id(self.primary_key[0])
        }
    }

    /// Column `i` is the time index.
    pub open spec fn is_time_index(self, i: int) -> bool {
        0 <= i < self.columns.len() && self.columns[i].semantic_type == SemanticType::Timestamp
    }

    /// A column named `name` is a tag.
    pub open spec fn is_tag(self, name: Seq<char>) -> bool {
        self.column_by_name(name) matches Some(c) && c.semantic_type == SemanticType::Tag
    }

    /// The type of member `k` of the primary key, where that member is a
    /// column.
    pub open spec fn key_field_type(self, k: int) -> Option<ConcreteDataType> {
        match self.column_by_id(self.primary_key[k]) {
            Some(c) => Some(c.column_schema.data_type),
            None => None,
        }
    }

    /// The column with the id `id` is a tag.
    pub open spec fn is_tag_id(self, id: ColumnId) -> bool {
        self.column_by_id(id) matches Some(c) && c.semantic_type == SemanticType::Tag
    }

    /// The position of the encoded primary key in a stored row: behind the
    /// field columns and the time index.
    pub open spec fn primary_key_position(self) -> nat {
        field_count(self.columns) + 1
    }

    /// The metadata describes a region: no two columns share a name or an
    /// id, one column is the time index, and the primary key lists the tag
    /// columns, each once.
    pub open spec fn wf(self) -> bool {
        &&& forall|i: int, j: int|
            0 <= i < j < self.columns.len() ==> self.columns[i].column_schema.name
                != self.columns[j].column_schema.name
        &&& forall|i: int, j: int|
            0 <= i < j < self.columns.len() ==> self.columns[i].column_id
                != self.columns[j].column_id
        &&& exists|i: int| self.is_time_index(i)
        &&& forall|i: int, j: int| self.is_time_index(i) && self.is_time_index(j) ==> i == j
        &&& forall|i: int, j: int|
            0 <= i < j < self.primary_key.len() ==> self.primary_key[i] != self.primary_key[j]
        &&& forall|k: int|
            0 <= k < self.primary_key.len() ==> self.is_tag_id(#[trigger] self.primary_key[k])
        &&& forall|i: int|
            0 <= i < self.columns.len() && (#[trigger] self.columns[i]).semantic_type
                == SemanticType::Tag ==> self.primary_key.contains(self.columns[i].column_id)
    }
}

impl RegionMetadata {
    /// The first column named `name`, if there is one.
    pub fn column_by_name(&self, name: &str) -> (r: Option<&ColumnMetadata>)
        ensures
            match r {
                Some(c) => self@.column_by_name(name@) == Some(c@) && exists|i: int|
                    self@.is_first_named(i, name@) && self@.columns[i] == c@,
                None => self@.column_by_name(name@) is None,
            },
    {
        let mut i: usize = 0;
        while i < self.column_metadatas.len()
            invariant
                i <= self.column_metadatas@.len(),
                forall|j: int| 0 <= j < i ==> self@.columns[j].column_schema.name != name@,
            decreases self.column_metadatas@.len() - i,
        {
            let c = &self.column_metadatas[i];
            if str_eq(c.column_schema.name().as_str(), name) {
                assert(self@.columns[i as int] == c@);
                assert(self@.is_first_named(i as int, name@));
                proof {
                    let k = choose|k: int| self@.is_first_named(k, name@);
                    assert(k == i) by {
                        if k < i {
                        } else if i < k {
                        }
                    }
                }
                return Some(c);
            }
            assert(self@.columns[i as int] == c@);
            i += 1;
        }
        None
    }

    /// The first column with the id `id`, if there is one.
    pub fn column_by_id(&self, id: ColumnId) -> (r: Option<&ColumnMetadata>)
        ensures
            match r {
                Some(c) => self@.column_by_id(id) == Some(c@) && exists|i: int|
                    self@.is_first_with_id(i, id) && self@.columns[i] == c@,
                None => self@.column_by_id(id) is None,
            },
    {
        let mut i: usize = 0;
        while i < self.column_metadatas.len()
            invariant
                i <= self.column_metadatas@.len(),
                forall|j: int| 0 <= j < i ==> self@.columns[j].column_id != id,
            decreases self.column_metadatas@.len() - i,
        {
            let c = &self.column_metadatas[i];
            assert(self@.columns[i as int] == c@);
            if c.column_id == id {
                assert(self@.is_first_with_id(i as int, id));
                proof {
                    let k = choose|k: int| self@.is_first_with_id(k, id);
                    assert(k == i) by {
                        if k < i {
                        } else if i < k {
                        }
                    }
                }
                return Some(c);
            }
            i += 1;
        }
        None
    }

    /// The column of the first member of the primary key, if the key has a
    /// member and that member is a column.
    pub fn first_primary_key_column(&self) -> (r: Option<&ColumnMetadata>)
        ensures
            match r {
                Some(c) => self@.first_primary_key_column() == Some(c@),
                None => self@.first_primary_key_column() is None,
            },
    {
        if self.primary_key.len() == 0 {
            None
        } else {
            self.column_by_id(self.primary_key[0])
        }
    }

    /// The time index column, if there is one.
    pub fn time_index_column(&self) -> (r: Option<&ColumnMetadata>)
        ensures
            match r {
                Some(c) => exists|i: int|
                    self@.is_time_index(i) && self@.columns[i] == c@ && forall|j: int|
                        0 <= j < i ==> !self@.is_time_index(j),
                None => forall|i: int| !self@.is_time_index(i),
            },
    {
        let mut i: usize = 0;
        while i < self.column_metadatas.len()
            invariant
                i <= self.column_metadatas@.len(),
                forall|j: int| 0 <= j < i ==> !self@.is_time_index(j),
            decreases self.column_metadatas@.len() - i,
        {
            let c = &self.column_metadatas[i];
            assert(self@.columns[i as int] == c@);
            if c.semantic_type == SemanticType::Timestamp {
                assert(self@.is_time_index(i as int));
                return Some(c);
            }
            i += 1;
        }
        None
    }

    /// The names of the field columns, in the order of the columns.
    pub fn field_columns(&self) -> (r: Vec<String>)
        ensures
            r@.map_values(|s: String| s@) == field_names(self@.columns),
    {
        let mut names: Vec<String> = Vec::new();
        let mut i: usize = 0;
        let ghost columns = self@.columns;
        assert(columns.take(0) =~= Seq::<ColumnMetadataView>::empty());
        assert(names@.map_values(|s: String| s@) =~= field_names(columns.take(0)));
        while i < self.column_metadatas.len()
            invariant
                i <= self.column_metadatas@.len(),
                columns == self@.columns,
                names@.map_values(|s: String| s@) == field_names(columns.take(i as int)),
            decreases self.column_metadatas@.len() - i,
        {
            let c = &self.column_metadatas[i];
            let ghost old_names = names@.map_values(|s: String| s@);
            proof {
                let next = columns.take(i + 1);
                assert(next.drop_last() =~= columns.take(i as int));
                assert(next.last() == c@);
            }
            if c.semantic_type == SemanticType::Field {
                names.push(c.column_schema.name().clone());
                assert(names@.map_values(|s: String| s@) =~= old_names.push(
                    c@.column_schema.name,
                ));
            }
            i += 1;
        }
        assert(columns.take(i as int) =~= columns);
        names
    }

    /// The number of field columns.
    pub fn num_fields(&self) -> (n: usize)
        ensures
            n == field_count(self@.columns),
    {
        let mut n: usize = 0;
        let mut i: usize = 0;
        let ghost columns = self@.columns;
        assert(columns.take(0) =~= Seq::<ColumnMetadataView>::empty());
        while i < self.column_metadatas.len()
            invariant
                i <= self.column_metadatas@.len(),
                columns == self@.columns,
                n == field_count(columns.take(i as int)),
                n <= i,
            decreases self.column_metadatas@.len() - i,
        {
            let c = &self.column_metadatas[i];
            proof {
                let next = columns.take(i + 1);
                assert(next.drop_last() =~= columns.take(i as int));
                assert(next.last() == c@);
            }
            if c.semantic_type == SemanticType::Field {
                n += 1;
            }
            i += 1;
        }
        assert(columns.take(i as int) =~= columns);
        n
    }
}

impl RegionMetadata {
    /// Whether no two columns share a name.
    fn names_are_distinct(&self) -> (r: bool)
        ensures
            r == forall|i: int, j: int|
                0 <= i < j < self@.columns.len() ==> self@.columns[i].column_schema.name
                    != self@.columns[j].column_schema.name,
    {
        let n = self.column_metadatas.len();
        let mut j: usize = 0;
        while j < n
            invariant
                j <= n,
                n == self.column_metadatas@.len(),
                forall|a: int, b: int|
                    0 <= a < b < j ==> self@.columns[a].column_schema.name
                        != self@.columns[b].column_schema.name,
            decreases n - j,
        {
            let mut i: usize = 0;
            while i < j
                invariant
                    i <= j < n,
                    n == self.column_metadatas@.len(),
                    forall|a: int|
                        0 <= a < i ==> self@.columns[a].column_schema.name
                            != self@.columns[j as int].column_schema.name,
                decreases j - i,
            {
                let a = &self.column_metadatas[i];
                let b = &self.column_metadatas[j];
                assert(self@.columns[i as int] == a@);
                assert(self@.columns[j as int] == b@);
                if str_eq(a.column_schema.name().as_str(), b.column_schema.name().as_str()) {
                    return false;
                }
                i += 1;
            }
            j += 1;
        }
        true
    }

    /// Whether no two columns share an id.
    fn ids_are_distinct(&self) -> (r: bool)
        ensures
            r == forall|i: int, j: int|
                0 <= i < j < self@.columns.len() ==> self@.columns[i].column_id
                    != self@.columns[j].column_id,
    {
        let n = self.column_metadatas.len();
        let mut j: usize = 0;
        while j < n
            invariant
                j <= n,
                n == self.column_metadatas@.len(),
                forall|a: int, b: int|
                    0 <= a < b < j ==> self@.columns[a].column_id != self@.columns[b].column_id,
            decreases n - j,
        {
            let mut i: usize = 0;
            while i < j
                invariant
                    i <= j < n,
                    n == self.column_metadatas@.len(),
                    forall|a: int|
                        0 <= a < i ==> self@.columns[a].column_id
                            != self@.columns[j as int].column_id,
                decreases j - i,
            {
                let a = &self.column_metadatas[i];
                let b = &self.column_metadatas[j];
                assert(self@.columns[i as int] == a@);
                assert(self@.columns[j as int] == b@);
                if a.column_id == b.column_id {
                    return false;
                }
                i += 1;
            }
            j += 1;
        }
        true
    }

    /// Whether exactly one column is the time index.
    fn has_one_time_index(&self) -> (r: bool)
        ensures
            r == ((exists|i: int| self@.is_time_index(i)) && forall|i: int, j: int|
                self@.is_time_index(i) && self@.is_time_index(j) ==> i == j),
    {
        let n = self.column_metadatas.len();
        let mut found: Option<usize> = None;
        let mut i: usize = 0;
        while i < n
            invariant
                i <= n,
                n == self.column_metadatas@.len(),
                match found {
                    Some(f) => f < i && self@.is_time_index(f as int) && forall|a: int|
                        0 <= a < i && self@.is_time_index(a) ==> a == f,
                    None => forall|a: int| 0 <= a < i ==> !self@.is_time_index(a),
                },
            decreases n - i,
        {
            let c = &self.column_metadatas[i];
            assert(self@.columns[i as int] == c@);
            if c.semantic_type == SemanticType::Timestamp {
                if found.is_some() {
                    assert(self@.is_time_index(i as int));
                    return false;
                }
                found = Some(i);
            }
            i += 1;
        }
        found.is_some()
    }

    /// Whether no id stands twice in the primary key.
    fn key_is_distinct(&self) -> (r: bool)
        ensures
            r == forall|i: int, j: int|
                0 <= i < j < self@.primary_key.len() ==> self@.primary_key[i]
                    != self@.primary_key[j],
    {
        let n = self.primary_key.len();
        let mut j: usize = 0;
        while j < n
            invariant
                j <= n,
                n == self.primary_key@.len(),
                forall|a: int, b: int|
                    0 <= a < b < j ==> self.primary_key@[a] != self.primary_key@[b],
            decreases n - j,
        {
            let mut i: usize = 0;
            while i < j
                invariant
                    i <= j < n,
                    n == self.primary_key@.len(),
                    forall|a: int| 0 <= a < i ==> self.primary_key@[a] != self.primary_key@[j as int],
                decreases j - i,
            {
                if self.primary_key[i] == self.primary_key[j] {
                    assert(self@.primary_key[i as int] == self@.primary_key[j as int]);
                    return false;
                }
                i += 1;
            }
            j += 1;
        }
        true
    }

    /// Whether every member of the primary key is a tag column.
    fn key_is_of_tags(&self) -> (r: bool)
        ensures
            r == forall|k: int|
                0 <= k < self@.primary_key.len() ==> self@.is_tag_id(
                    #[trigger] self@.primary_key[k],
                ),
    {
        let n = self.primary_key.len();
        let mut k: usize = 0;
        while k < n
            invariant
                k <= n,
                n == self.primary_key@.len(),
                forall|a: int| 0 <= a < k ==> self@.is_tag_id(#[trigger] self@.primary_key[a]),
            decreases n - k,
        {
            let is_tag = match self.column_by_id(self.primary_key[k]) {
                Some(c) => c.semantic_type == SemanticType::Tag,
                None => false,
            };
            if !is_tag {
                assert(!self@.is_tag_id(self@.primary_key[k as int]));
                return false;
            }
            k += 1;
        }
        true
    }

    /// Whether every tag column is a member of the primary key.
    fn tags_are_in_key(&self) -> (r: bool)
        ensures
            r == forall|i: int|
                0 <= i < self@.columns.len() && (#[trigger] self@.columns[i]).semantic_type
                    == SemanticType::Tag ==> self@.primary_key.contains(
                    self@.columns[i].column_id,
                ),
    {
        let n = self.column_metadatas.len();
        let mut i: usize = 0;
        while i < n
            invariant
                i <= n,
                n == self.column_metadatas@.len(),
                forall|a: int|
                    0 <= a < i && (#[trigger] self@.columns[a]).semantic_type == SemanticType::Tag
                        ==> self@.primary_key.contains(self@.columns[a].column_id),
            decreases n - i,
        {
            let c = &self.column_metadatas[i];
            assert(self@.columns[i as int] == c@);
            if c.semantic_type == SemanticType::Tag {
                let mut k: usize = 0;
                let mut found = false;
                while k < self.primary_key.len()
                    invariant
                        k <= self.primary_key@.len(),
                        found ==> self@.primary_key.contains(c.column_id),
                        !found ==> forall|a: int| 0 <= a < k ==> self.primary_key@[a] != c.column_id,
                    decreases self.primary_key@.len() - k,
                {
                    if self.primary_key[k] == c.column_id {
                        assert(self@.primary_key[k as int] == c.column_id);
                        found = true;
                    }
                    k += 1;
                }
                if !found {
                    assert(!self@.primary_key.contains(c.column_id));
                    return false;
                }
            }
            i += 1;
        }
        true
    }

    /// Whether the metadata describes a region: see
    /// [`RegionMetadataView::wf`].
    pub fn is_well_formed(&self) -> (r: bool)
        ensures
            r == self@.wf(),
    {
        self.names_are_distinct() && self.ids_are_distinct() && self.has_one_time_index()
            && self.key_is_distinct() && self.key_is_of_tags() && self.tags_are_in_key()
    }
}

/// A region's metadata, shared by all that read it.
pub type RegionMetadataRef = Arc<RegionMetadata>;

/// `Arc::clone` of std: another pointer to the same metadata. Trusted: as the
/// documentation of `Arc::clone` says, the new pointer points to the same
/// allocation, so what it points to is what `metadata` points to.
#[verifier::external_body]
fn share_metadata(metadata: &RegionMetadataRef) -> (r: RegionMetadataRef)
    ensures
        r == *metadata,
{
    Arc::clone(metadata)
}

/// How the rows of a region are laid out in a stored file: the region's
/// metadata together with the position of the encoded primary key.
#[derive(Debug)]
pub struct ReadFormat {
    metadata: RegionMetadataRef,
    primary_key_position: usize,
}

impl View for ReadFormat {
    type V = RegionMetadataView;

    /// The metadata of the region.
    closed spec fn view(&self) -> RegionMetadataView {
        self.metadata@
    }
}

impl Clone for ReadFormat {
    fn clone(&self) -> (r: Self)
        ensures
            r@ == self@,
    {
        proof {
            use_type_invariant(self);
        }
        ReadFormat {
            metadata: share_metadata(&self.metadata),
            primary_key_position: self.primary_key_position,
        }
    }
}

impl ReadFormat {
    #[verifier::type_invariant]
    spec fn inv(self) -> bool {
        self.metadata@.wf() && self.primary_key_position == self.metadata@.primary_key_position()
    }

    /// The layout of the rows of the region that `metadata` describes.
    pub fn new(metadata: RegionMetadataRef) -> (r: Self)
        requires
            metadata@.wf(),
        ensures
            r@ == metadata@,
    {
        let n = metadata.num_fields();
        let len = metadata.column_metadatas.len();
        proof {
            assert(metadata@.columns.len() == len);
            lemma_field_count_bound(metadata@.columns);
            let i = choose|i: int| metadata@.is_time_index(i);
            assert(metadata@.columns[i].semantic_type != SemanticType::Field);
        }
        ReadFormat { metadata, primary_key_position: n + 1 }
    }

    /// The layout of the rows of the region that `metadata` describes, or
    /// `None` where `metadata` describes no region.
    pub fn try_new(metadata: RegionMetadataRef) -> (r: Option<Self>)
        ensures
            match r {
                Some(f) => metadata@.wf() && f@ == metadata@,
                None => !metadata@.wf(),
            },
    {
        if metadata.is_well_formed() {
            Some(Self::new(metadata))
        } else {
            None
        }
    }

    /// The fields of the encoded primary key: the types of the tag columns
    /// in the order of the key.
    pub fn primary_key_fields(&self) -> (r: Vec<SortField>)
        ensures
            r@.len() == self@.primary_key.len(),
            forall|k: int|
                0 <= k < r@.len() ==> self@.key_field_type(k) == Some((#[trigger] r@[k]).data_type),
    {
        proof {
            use_type_invariant(self);
        }
        let metadata = &self.metadata;
        let mut fields: Vec<SortField> = Vec::new();
        let mut k: usize = 0;
        while k < metadata.primary_key.len()
            invariant
                metadata@ == self@,
                self@.wf(),
                k <= metadata.primary_key@.len(),
                fields@.len() == k,
                forall|a: int|
                    0 <= a < k ==> self@.key_field_type(a) == Some(
                        (#[trigger] fields@[a]).data_type,
                    ),
            decreases metadata.primary_key@.len() - k,
        {
            let id = metadata.primary_key[k];
            assert(self@.is_tag_id(self@.primary_key[k as int]));
            let c = metadata.column_by_id(id).unwrap();
            fields.push(SortField::new(c.column_schema.data_type()));
            k += 1;
        }
        fields
    }

    /// The metadata of the region, which is well formed.
    pub fn metadata(&self) -> (r: &RegionMetadataRef)
        ensures
            r@ == self@,
            self@.wf(),
    {
        proof {
            use_type_invariant(self);
        }
        &self.metadata
    }

    /// The position of the encoded primary key in a stored row.
    pub fn primary_key_position(&self) -> (r: usize)
        ensures
            r == self@.primary_key_position(),
    {
        proof {
            use_type_invariant(self);
        }
        self.primary_key_position
    }

    /// Whether the column named `name` is a tag, a member of the primary key.
    pub fn is_tag_column(&self, name: &str) -> (r: bool)
        ensures
            r == self@.is_tag(name@),
    {
        match self.metadata.column_by_name(name) {
            Some(c) => c.semantic_type == SemanticType::Tag,
            None => false,
        }
    }
}

} // verus!
