use key_prune::consts;
use key_prune::datatypes::{ConcreteDataType, Value};
use key_prune::descriptors::{
    BuilderError, ColumnDescriptor, ColumnDescriptorBuilder, ColumnFamilyDescriptorBuilder,
    RegionDescriptorBuilder, RegionId, RowKeyDescriptorBuilder, ValidationError,
};
use key_prune::schema::{ColumnDefaultConstraint, ColumnSchema, ConstraintError};

fn new_column_desc_builder() -> ColumnDescriptorBuilder {
    ColumnDescriptorBuilder::new(3, "test", ConcreteDataType::int32_datatype())
}

#[test]
fn test_column_descriptor_builder() {
    let desc = new_column_desc_builder().build().unwrap();
    assert_eq!(3, desc.id);
    assert_eq!("test", desc.name);
    assert_eq!(ConcreteDataType::int32_datatype(), desc.data_type);
    assert!(desc.is_nullable());
    assert!(desc.default_constraint().is_none());
    assert!(desc.comment.is_empty());

    let desc = new_column_desc_builder()
        .is_nullable(false)
        .build()
        .unwrap();
    assert!(!desc.is_nullable());

    let desc = new_column_desc_builder()
        .default_constraint(Some(ColumnDefaultConstraint::Value(Value::Null)))
        .build()
        .unwrap();
    assert_eq!(
        ColumnDefaultConstraint::Value(Value::Null),
        *desc.default_constraint().unwrap()
    );

    let desc = new_column_desc_builder()
        .default_constraint(Some(ColumnDefaultConstraint::Value(Value::Int32(123))))
        .build()
        .unwrap();
    assert_eq!(
        ColumnDefaultConstraint::Value(Value::Int32(123)),
        desc.default_constraint().unwrap().clone()
    );

    let desc = new_column_desc_builder()
        .comment("A test column")
        .build()
        .unwrap();
    assert_eq!("A test column", desc.comment);

    assert!(new_column_desc_builder()
        .is_nullable(false)
        .default_constraint(Some(ColumnDefaultConstraint::Value(Value::Null)))
        .build()
        .is_err());
}

#[test]
fn test_descriptor_to_column_schema() {
    let constraint = ColumnDefaultConstraint::Value(Value::Int32(123));
    let desc = new_column_desc_builder()
        .default_constraint(Some(constraint.clone()))
        .is_nullable(false)
        .build()
        .unwrap();
    let column_schema = desc.to_column_schema();
    let expected = ColumnSchema::new("test", ConcreteDataType::int32_datatype(), false)
        .with_default_constraint(Some(constraint))
        .unwrap();

    assert_eq!(expected, column_schema);
}

fn new_timestamp_desc() -> ColumnDescriptor {
    ColumnDescriptorBuilder::new(5, "timestamp", ConcreteDataType::int64_datatype())
        .is_time_index(true)
        .build()
        .unwrap()
}

#[test]
fn test_row_key_descriptor_builder() {
    let timestamp = new_timestamp_desc();

    let desc = RowKeyDescriptorBuilder::new(timestamp.clone())
        .build()
        .unwrap();
    assert!(desc.columns.is_empty());

    let desc = RowKeyDescriptorBuilder::new(timestamp.clone())
        .columns_capacity(1)
        .push_column(
            ColumnDescriptorBuilder::new(6, "c1", ConcreteDataType::int32_datatype())
                .build()
                .unwrap(),
        )
        .push_column(
            ColumnDescriptorBuilder::new(7, "c2", ConcreteDataType::int32_datatype())
                .build()
                .unwrap(),
        )
        .build()
        .unwrap();
    assert_eq!(2, desc.columns.len());

    let desc = RowKeyDescriptorBuilder::new(timestamp).build().unwrap();
    assert!(desc.columns.is_empty());
}

#[test]
fn test_cf_descriptor_builder() {
    let desc = ColumnFamilyDescriptorBuilder::default().build().unwrap();
    assert_eq!(consts::DEFAULT_CF_ID, desc.cf_id);
    assert_eq!(consts::DEFAULT_CF_NAME, desc.name);
    assert!(desc.columns.is_empty());

    let desc = ColumnFamilyDescriptorBuilder::default()
        .cf_id(32)
        .name("cf1")
        .build()
        .unwrap();
    assert_eq!(32, desc.cf_id);
    assert_eq!("cf1", desc.name);

    let desc = ColumnFamilyDescriptorBuilder::default()
        .push_column(
            ColumnDescriptorBuilder::default()
                .id(6)
                .name("c1")
                .data_type(ConcreteDataType::int32_datatype())
                .build()
                .unwrap(),
        )
        .build()
        .unwrap();
    assert_eq!(1, desc.columns.len());
}

#[test]
fn test_region_id() {
    assert_eq!(RegionId::new(0, 1), 1);
    assert_eq!(4294967296, RegionId::new(1, 0));
    assert_eq!(4294967297, RegionId::new(1, 1));
    assert_eq!(4294967396, RegionId::new(1, 100));
    assert_eq!(8589934602, RegionId::new(2, 10));
    assert_eq!(18446744069414584330, RegionId::new(u32::MAX, 10));

    let region_id = RegionId::new(u32::MAX, 1);
    assert_eq!(u32::MAX, region_id.table_id());
    assert_eq!(1, region_id.region_number());
    let inner: u64 = region_id.into();
    assert_eq!(RegionId::from(inner), region_id);

    let region_id = RegionId::new(1234, 5);
    assert_eq!("5299989643269(1234, 5)", region_id.to_string());
    assert_eq!("5299989643269(1234, 5)", format!("{}", region_id.to_string()));
}

#[test]
fn region_id_takes_apart_what_it_was_made_of() {
    for (table_id, region_number) in [(0u32, 0u32), (1, 0), (0, 1), (77, u32::MAX), (u32::MAX, u32::MAX)] {
        let id = RegionId::new(table_id, region_number);
        assert_eq!(id.table_id(), table_id);
        assert_eq!(id.region_number(), region_number);
        assert_eq!(id.as_u64(), ((table_id as u64) << 32) | region_number as u64);
        assert_eq!(RegionId::from_u64(id.as_u64()), id);
    }
    assert_eq!(RegionId::default().as_u64(), 0);
    assert_eq!(RegionId::from_u64(0).to_string(), "0(0, 0)");
    assert_eq!(
        RegionId::from_u64(u64::MAX).to_string(),
        "18446744073709551615(4294967295, 4294967295)"
    );
}

#[test]
fn column_descriptor_builder_reports_missing_fields_in_order() {
    assert_eq!(
        ColumnDescriptorBuilder::default().build().unwrap_err(),
        BuilderError::UninitializedField("id")
    );
    assert_eq!(
        ColumnDescriptorBuilder::default().id(1).build().unwrap_err(),
        BuilderError::UninitializedField("name")
    );
    assert_eq!(
        ColumnDescriptorBuilder::default().id(1).name("a").build().unwrap_err(),
        BuilderError::UninitializedField("data_type")
    );
}

#[test]
fn column_descriptor_builder_validates_before_it_looks_for_missing_fields() {
    assert_eq!(
        ColumnDescriptorBuilder::default().name("").build().unwrap_err(),
        BuilderError::ValidationError(ValidationError::EmptyName)
    );
    assert_eq!(
        new_column_desc_builder().name("").validate(),
        Err(ValidationError::EmptyName)
    );
    assert_eq!(new_column_desc_builder().validate(), Ok(()));
}

#[test]
fn column_descriptor_builder_rejects_defaults_that_cannot_stand() {
    assert_eq!(
        new_column_desc_builder()
            .is_nullable(false)
            .default_constraint(Some(ColumnDefaultConstraint::Value(Value::Null)))
            .build()
            .unwrap_err(),
        BuilderError::ValidationError(ValidationError::Constraint(ConstraintError::NullDefault))
    );
    assert_eq!(
        new_column_desc_builder()
            .default_constraint(Some(ColumnDefaultConstraint::Value(Value::Int64(1))))
            .build()
            .unwrap_err(),
        BuilderError::ValidationError(ValidationError::Constraint(
            ConstraintError::DefaultValueType
        ))
    );
    assert_eq!(
        new_column_desc_builder()
            .default_constraint(Some(ColumnDefaultConstraint::Function("now()".to_string())))
            .build()
            .unwrap_err(),
        BuilderError::ValidationError(ValidationError::Constraint(
            ConstraintError::UnsupportedDefaultExpr
        ))
    );
    assert_eq!(
        new_column_desc_builder()
            .default_constraint(Some(ColumnDefaultConstraint::Function(
                "current_timestamp()".to_string()
            )))
            .build()
            .unwrap_err(),
        BuilderError::ValidationError(ValidationError::Constraint(
            ConstraintError::DefaultValueType
        ))
    );
    // a default is not looked at before the type is set
    assert_eq!(
        ColumnDescriptorBuilder::default()
            .default_constraint(Some(ColumnDefaultConstraint::Function("now()".to_string())))
            .validate(),
        Ok(())
    );
}

#[test]
fn column_descriptor_keeps_what_was_set() {
    let desc = ColumnDescriptorBuilder::new(9, "ts", ConcreteDataType::Timestamp)
        .is_time_index(true)
        .is_nullable(false)
        .default_constraint(Some(ColumnDefaultConstraint::Function(
            "current_timestamp()".to_string(),
        )))
        .comment("time")
        .build()
        .unwrap();
    assert_eq!(desc.id, 9);
    assert!(desc.is_time_index());
    assert!(!desc.is_nullable());
    assert_eq!(desc.comment, "time");
    let schema = desc.to_column_schema();
    assert_eq!(schema.name, "ts");
    assert_eq!(schema.data_type, ConcreteDataType::Timestamp);
    assert!(schema.is_time_index());
    assert!(!schema.is_nullable());
    assert_eq!(
        schema.default_constraint(),
        Some(&ColumnDefaultConstraint::Function("current_timestamp()".to_string()))
    );
    assert_eq!(desc.clone(), desc);
}

#[test]
fn a_built_descriptor_has_a_valid_default_until_it_is_changed() {
    let mut desc = new_column_desc_builder()
        .default_constraint(Some(ColumnDefaultConstraint::Value(Value::Int32(1))))
        .build()
        .unwrap();
    assert!(desc.has_valid_default());
    desc.data_type = ConcreteDataType::String;
    assert!(!desc.has_valid_default());
    assert!(new_column_desc_builder().build().unwrap().has_valid_default());
}

#[test]
fn row_key_descriptor_builder_needs_a_timestamp() {
    assert_eq!(
        RowKeyDescriptorBuilder::default().build().unwrap_err(),
        BuilderError::UninitializedField("timestamp")
    );
    let c1 = ColumnDescriptorBuilder::new(6, "c1", ConcreteDataType::int32_datatype())
        .build()
        .unwrap();
    let desc = RowKeyDescriptorBuilder::default()
        .columns(vec![c1.clone()])
        .timestamp(new_timestamp_desc())
        .build()
        .unwrap();
    assert_eq!(desc.columns, vec![c1.clone()]);
    assert_eq!(desc.timestamp, new_timestamp_desc());
    // setting a capacity starts the columns anew
    let desc = RowKeyDescriptorBuilder::new(new_timestamp_desc())
        .push_column(c1)
        .columns_capacity(4)
        .build()
        .unwrap();
    assert!(desc.columns.is_empty());
}

#[test]
fn cf_descriptor_builder_capacity_starts_the_columns_anew() {
    let c1 = ColumnDescriptorBuilder::new(6, "c1", ConcreteDataType::int32_datatype())
        .build()
        .unwrap();
    let desc = ColumnFamilyDescriptorBuilder::default()
        .columns(vec![c1.clone(), c1.clone()])
        .columns_capacity(8)
        .push_column(c1.clone())
        .build()
        .unwrap();
    assert_eq!(desc.columns, vec![c1]);
    assert_eq!(desc.cf_id, 1);
    assert_eq!(desc.name, "default");
}

#[test]
fn region_descriptor_builder_builds_and_reports_missing_fields() {
    let row_key = RowKeyDescriptorBuilder::new(new_timestamp_desc()).build().unwrap();
    let default_cf = ColumnFamilyDescriptorBuilder::default().build().unwrap();
    let extra = ColumnFamilyDescriptorBuilder::default().cf_id(2).name("cf2").build().unwrap();

    assert_eq!(
        RegionDescriptorBuilder::default().build().unwrap_err(),
        BuilderError::UninitializedField("id")
    );
    assert_eq!(
        RegionDescriptorBuilder::default().id(RegionId::new(1, 2)).build().unwrap_err(),
        BuilderError::UninitializedField("name")
    );
    assert_eq!(
        RegionDescriptorBuilder::default()
            .id(RegionId::new(1, 2))
            .name("r")
            .build()
            .unwrap_err(),
        BuilderError::UninitializedField("row_key")
    );
    assert_eq!(
        RegionDescriptorBuilder::default()
            .id(RegionId::new(1, 2))
            .name("r")
            .row_key(row_key.clone())
            .build()
            .unwrap_err(),
        BuilderError::UninitializedField("default_cf")
    );
    let desc = RegionDescriptorBuilder::default()
        .id(RegionId::new(1, 2))
        .name("r")
        .row_key(row_key.clone())
        .default_cf(default_cf.clone())
        .push_extra_column_family(extra.clone())
        .build()
        .unwrap();
    assert_eq!(desc.id, RegionId::new(1, 2));
    assert_eq!(desc.name, "r");
    assert_eq!(desc.row_key, row_key);
    assert_eq!(desc.default_cf, default_cf);
    assert_eq!(desc.extra_cfs, vec![extra.clone()]);
    let desc = RegionDescriptorBuilder::default()
        .id(RegionId::new(1, 2))
        .name("r")
        .row_key(row_key)
        .default_cf(default_cf)
        .extra_cfs(vec![])
        .build()
        .unwrap();
    assert!(desc.extra_cfs.is_empty());
}
