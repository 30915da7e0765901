use std::sync::Arc;

use key_prune::consts::PRIMARY_KEY_COLUMN_NAME;
use key_prune::datatypes::{ConcreteDataType, Value};
use key_prune::expr::{
    ArrayData, Column, ColumnarValue, DfDataType, Operator, PhysicalExpr, Predicate, RecordBatch,
    ScalarValue, Transformed,
};
use key_prune::metadata::{ColumnMetadata, ReadFormat, RegionMetadata, SemanticType};
use key_prune::page_prune::{
    DecodePrimaryKey, PagePruningPredicateBuilder, PruneError, ShapeError,
};
use key_prune::prefix_range::get_prefix_end_key;
use key_prune::row_converter::{CodecError, McmpRowCodec, SortField};
use key_prune::schema::ColumnSchema;

fn column(
    id: u32,
    name: &str,
    data_type: ConcreteDataType,
    semantic_type: SemanticType,
) -> ColumnMetadata {
    ColumnMetadata {
        column_schema: ColumnSchema::new(name, data_type, semantic_type != SemanticType::Timestamp),
        semantic_type,
        column_id: id,
    }
}

/// region and host are the tags; the stored row is
/// cpu_usage, mem_usage, ts, __primary_key.
fn read_format_with(first_tag_type: ConcreteDataType) -> ReadFormat {
    ReadFormat::new(Arc::new(RegionMetadata {
        column_metadatas: vec![
            column(1, "region", first_tag_type, SemanticType::Tag),
            column(2, "host", ConcreteDataType::String, SemanticType::Tag),
            column(3, "cpu_usage", ConcreteDataType::Float64, SemanticType::Field),
            column(4, "mem_usage", ConcreteDataType::Int64, SemanticType::Field),
            column(5, "ts", ConcreteDataType::Timestamp, SemanticType::Timestamp),
        ],
        primary_key: vec![1, 2],
    }))
}

fn read_format() -> ReadFormat {
    read_format_with(ConcreteDataType::String)
}

fn read_format_without_tags() -> ReadFormat {
    ReadFormat::new(Arc::new(RegionMetadata {
        column_metadatas: vec![
            column(3, "cpu_usage", ConcreteDataType::Float64, SemanticType::Field),
            column(5, "ts", ConcreteDataType::Timestamp, SemanticType::Timestamp),
        ],
        primary_key: vec![],
    }))
}

fn col(name: &str, index: usize) -> PhysicalExpr {
    PhysicalExpr::Column(Column::new(name, index))
}

fn utf8(v: &str) -> PhysicalExpr {
    PhysicalExpr::Literal(ScalarValue::Utf8(Some(v.to_string())))
}

fn binary(v: &[u8]) -> PhysicalExpr {
    PhysicalExpr::Literal(ScalarValue::Binary(Some(v.to_vec())))
}

fn float(v: f64) -> PhysicalExpr {
    PhysicalExpr::Literal(ScalarValue::Float64(Some(v.to_bits())))
}

fn binary_expr(left: PhysicalExpr, op: Operator, right: PhysicalExpr) -> PhysicalExpr {
    PhysicalExpr::binary(left, op, right)
}

fn region_eq(v: &str) -> PhysicalExpr {
    binary_expr(col("region", 0), Operator::Eq, utf8(v))
}

fn cpu_usage_gt_half() -> PhysicalExpr {
    binary_expr(col("cpu_usage", 2), Operator::Gt, float(0.5))
}

fn key_range(lower: &[u8], upper: &[u8]) -> PhysicalExpr {
    binary_expr(
        binary_expr(col(PRIMARY_KEY_COLUMN_NAME, 3), Operator::GtEq, binary(lower)),
        Operator::And,
        binary_expr(col(PRIMARY_KEY_COLUMN_NAME, 3), Operator::Lt, binary(upper)),
    )
}

fn encode_region(v: &str) -> Vec<u8> {
    McmpRowCodec::new(vec![SortField::new(ConcreteDataType::String)])
        .encode(&[Value::String(v.to_string())])
        .unwrap()
}

fn key_of(region: Value, host: Value) -> Vec<u8> {
    McmpRowCodec::new(vec![
        SortField::new(ConcreteDataType::String),
        SortField::new(ConcreteDataType::String),
    ])
    .encode(&[region, host])
    .unwrap()
}

fn string(v: &str) -> Value {
    Value::String(v.to_string())
}

fn filter(exprs: Vec<PhysicalExpr>, read_format: &ReadFormat) -> Vec<PhysicalExpr> {
    PagePruningPredicateBuilder::filter_map_physical_expr(Predicate::new(exprs), read_format)
}

#[test]
fn equality_on_the_first_tag_becomes_a_key_range() {
    let lower = encode_region("us-east");
    let upper = get_prefix_end_key(&lower).unwrap();
    assert_eq!(lower, [&[1u8][..], b"us-east", &[0, 0]].concat());
    assert_eq!(upper, [&[1u8][..], b"us-east", &[0, 1]].concat());

    let built = PagePruningPredicateBuilder::build(
        Predicate::new(vec![region_eq("us-east")]),
        &read_format(),
    );
    assert_eq!(built, Some(key_range(&lower, &upper)));

    // a page can be skipped where no key between its least and its greatest
    // lies in the range
    let may_skip = |min: &[u8], max: &[u8]| max < lower.as_slice() || min >= upper.as_slice();
    // entirely below
    assert!(may_skip(
        &key_of(string("ap-south"), string("a")),
        &key_of(string("us-eas"), string("z"))
    ));
    assert!(may_skip(&key_of(Value::Null, Value::Null), &key_of(string("eu"), Value::Null)));
    // entirely at or above the prefix end
    assert!(may_skip(&upper, &key_of(string("us-west"), string("a"))));
    assert!(may_skip(
        &key_of(string("us-east-1"), string("a")),
        &key_of(string("us-west"), string("a"))
    ));
    // straddling
    assert!(!may_skip(
        &key_of(string("ap-south"), string("a")),
        &key_of(string("us-east"), string("a"))
    ));
    assert!(!may_skip(
        &key_of(string("us-east"), string("m")),
        &key_of(string("us-west"), string("a"))
    ));
    assert!(!may_skip(
        &key_of(string("us-east"), Value::Null),
        &key_of(string("us-east"), string("zz"))
    ));
    assert!(!may_skip(
        &key_of(string("a"), string("a")),
        &key_of(string("z"), string("z"))
    ));
}

#[test]
fn key_range_holds_the_rows_of_the_value_and_no_others() {
    let lower = encode_region("us-east");
    let upper = get_prefix_end_key(&lower).unwrap();
    let in_range = |key: &[u8]| lower.as_slice() <= key && key < upper.as_slice();
    for host in [Value::Null, string(""), string("a"), string("\0"), string("zzzz")] {
        assert!(in_range(&key_of(string("us-east"), host.clone())));
        for region in [
            Value::Null,
            string(""),
            string("us-eas"),
            string("us-east\0"),
            string("us-east-1"),
            string("us-easu"),
            string("us-west"),
        ] {
            assert!(!in_range(&key_of(region, host.clone())));
        }
    }
}

#[test]
fn inequality_on_the_first_tag_is_dropped_and_a_field_filter_kept() {
    let region_ne = binary_expr(col("region", 0), Operator::NotEq, utf8("us-east"));
    let kept = filter(vec![region_ne, cpu_usage_gt_half()], &read_format());
    assert_eq!(kept, vec![cpu_usage_gt_half()]);

    let region_ne = binary_expr(col("region", 0), Operator::NotEq, utf8("us-east"));
    assert_eq!(
        PagePruningPredicateBuilder::build(
            Predicate::new(vec![region_ne, cpu_usage_gt_half()]),
            &read_format()
        ),
        Some(cpu_usage_gt_half())
    );
}

#[test]
fn what_is_not_recognized_on_the_first_tag_is_dropped() {
    let format = read_format();
    for op in [
        Operator::NotEq,
        Operator::Lt,
        Operator::LtEq,
        Operator::Gt,
        Operator::GtEq,
        Operator::And,
        Operator::Or,
    ] {
        assert_eq!(filter(vec![binary_expr(col("region", 0), op, utf8("x"))], &format), vec![]);
    }
    // a literal that is no string, a null, and no literal at all
    let rights = vec![
        PhysicalExpr::Literal(ScalarValue::Int64(Some(1))),
        PhysicalExpr::Literal(ScalarValue::Binary(Some(vec![1]))),
        PhysicalExpr::Literal(ScalarValue::Utf8(None)),
        col("host", 1),
        PhysicalExpr::Not(Arc::new(utf8("x"))),
    ];
    for right in rights {
        assert_eq!(filter(vec![binary_expr(col("region", 0), Operator::Eq, right)], &format), vec![]);
    }
    assert_eq!(
        PagePruningPredicateBuilder::build(
            Predicate::new(vec![binary_expr(col("region", 0), Operator::Lt, utf8("x"))]),
            &format
        ),
        None
    );
    assert_eq!(PagePruningPredicateBuilder::build(Predicate::new(vec![]), &format), None);
}

#[test]
fn equality_with_a_string_on_a_first_tag_of_another_type_is_dropped() {
    let format = read_format_with(ConcreteDataType::Int32);
    assert_eq!(filter(vec![region_eq("us-east"), cpu_usage_gt_half()], &format), vec![cpu_usage_gt_half()]);
    assert_eq!(
        PagePruningPredicateBuilder::rewrite_primary_key_eq(&format, region_eq("7")),
        Transformed::No(region_eq("7"))
    );
}

#[test]
fn other_expressions_are_kept_as_they_are() {
    let format = read_format();
    let others = || {
        vec![
            // no binary expressions
            col("region", 0),
            utf8("us-east"),
            PhysicalExpr::Not(Arc::new(region_eq("us-east"))),
            // the left operand is no column
            binary_expr(utf8("us-east"), Operator::Eq, col("region", 0)),
            binary_expr(region_eq("a"), Operator::Or, region_eq("b")),
            binary_expr(region_eq("a"), Operator::And, region_eq("b")),
            // the left operand is another column
            binary_expr(col("host", 1), Operator::Eq, utf8("h1")),
            binary_expr(col("ts", 4), Operator::GtEq, PhysicalExpr::Literal(ScalarValue::Timestamp(Some(0)))),
            cpu_usage_gt_half(),
        ]
    };
    assert_eq!(filter(others(), &format), others());
}

#[test]
fn without_a_primary_key_everything_is_kept() {
    let format = read_format_without_tags();
    let exprs = || vec![region_eq("us-east"), cpu_usage_gt_half()];
    assert_eq!(filter(exprs(), &format), exprs());
    assert_eq!(
        PagePruningPredicateBuilder::rewrite_primary_key_eq(&format, region_eq("a")),
        Transformed::No(region_eq("a"))
    );
}

#[test]
fn filtering_twice_is_filtering_once() {
    let format = read_format();
    let candidates = || {
        vec![
            cpu_usage_gt_half(),
            region_eq("us-east"),
            binary_expr(col("region", 0), Operator::NotEq, utf8("us-west")),
            binary_expr(col("host", 1), Operator::Eq, utf8("h1")),
            region_eq(""),
            col("ts", 4),
        ]
    };
    let once = filter(candidates(), &format);
    assert_eq!(once.len(), 5);
    let twice = filter(filter(candidates(), &format), &format);
    assert_eq!(twice, once);
}

#[test]
fn the_order_of_the_filters_is_kept() {
    let format = read_format();
    let lower = encode_region("a");
    let upper = get_prefix_end_key(&lower).unwrap();
    assert_eq!(
        filter(
            vec![
                cpu_usage_gt_half(),
                binary_expr(col("region", 0), Operator::Gt, utf8("a")),
                region_eq("a"),
                col("ts", 4)
            ],
            &format
        ),
        vec![cpu_usage_gt_half(), key_range(&lower, &upper), col("ts", 4)]
    );
}

#[test]
fn rewrite_looks_at_operator_and_literal_only() {
    let format = read_format();
    let lower = encode_region("h1");
    let upper = get_prefix_end_key(&lower).unwrap();
    // the left operand is taken to be the first tag column
    assert_eq!(
        PagePruningPredicateBuilder::rewrite_primary_key_eq(
            &format,
            binary_expr(col("host", 1), Operator::Eq, utf8("h1"))
        ),
        Transformed::Yes(key_range(&lower, &upper))
    );
    assert_eq!(
        PagePruningPredicateBuilder::rewrite_primary_key_eq(&format, col("region", 0)),
        Transformed::No(col("region", 0))
    );
    let empty = encode_region("");
    assert_eq!(empty, vec![1, 0, 0]);
    assert_eq!(
        PagePruningPredicateBuilder::rewrite_primary_key_eq(&format, region_eq("")),
        Transformed::Yes(key_range(&[1, 0, 0], &[1, 0, 1]))
    );
}

#[test]
fn conjoin_starts_with_the_last_filter() {
    let a = || col("a", 0);
    let b = || col("b", 1);
    let c = || col("c", 2);
    assert_eq!(PagePruningPredicateBuilder::conjoin_exprs(vec![a()]), a());
    assert_eq!(
        PagePruningPredicateBuilder::conjoin_exprs(vec![a(), b()]),
        binary_expr(b(), Operator::And, a())
    );
    assert_eq!(
        PagePruningPredicateBuilder::conjoin_exprs(vec![a(), b(), c()]),
        binary_expr(binary_expr(c(), Operator::And, a()), Operator::And, b())
    );
}

#[test]
fn build_conjoins_what_is_left() {
    let lower = encode_region("us-east");
    let upper = get_prefix_end_key(&lower).unwrap();
    let built = PagePruningPredicateBuilder::build(
        Predicate::new(vec![
            region_eq("us-east"),
            binary_expr(col("region", 0), Operator::NotEq, utf8("us-west")),
            cpu_usage_gt_half(),
        ]),
        &read_format(),
    );
    assert_eq!(
        built,
        Some(binary_expr(cpu_usage_gt_half(), Operator::And, key_range(&lower, &upper)))
    );
}

#[test]
fn valid_reference_columns_are_fields_time_index_and_first_tag() {
    assert_eq!(
        PagePruningPredicateBuilder::valid_reference_columns(&read_format()),
        vec!["region", "cpu_usage", "mem_usage", "ts"]
    );
    assert_eq!(
        PagePruningPredicateBuilder::valid_reference_columns(&read_format_without_tags()),
        vec!["cpu_usage", "ts"]
    );
}

#[test]
fn transform_puts_a_decoder_in_the_place_of_a_tag() {
    let format = read_format();
    match PagePruningPredicateBuilder::transform_expr(&format, Column::new("region", 0)) {
        Transformed::Yes(PhysicalExpr::DecodePrimaryKey(d)) => {
            assert_eq!(d, DecodePrimaryKey::new(read_format(), "region"));
            assert_eq!(d.children(), vec![col(PRIMARY_KEY_COLUMN_NAME, 3)]);
        }
        other => panic!("{:?}", other),
    }
    assert_eq!(
        PagePruningPredicateBuilder::transform_expr(&format, Column::new("cpu_usage", 2)),
        Transformed::No(col("cpu_usage", 2))
    );
    assert_eq!(
        PagePruningPredicateBuilder::transform_expr(&format, Column::new("ts", 4)),
        Transformed::No(col("ts", 4))
    );
    assert_eq!(
        PagePruningPredicateBuilder::transform_expr(&format, Column::new("nowhere", 9)),
        Transformed::No(col("nowhere", 9))
    );
}

#[test]
fn decoder_reports_type_and_child() {
    let d = DecodePrimaryKey::new(read_format(), "region");
    assert_eq!(d.data_type(), DfDataType::Utf8);
    assert!(!d.nullable());
    assert_eq!(d.children(), vec![col(PRIMARY_KEY_COLUMN_NAME, 3)]);
    let d = DecodePrimaryKey::new(read_format_with(ConcreteDataType::Int32), "region");
    assert_eq!(d.data_type(), DfDataType::Int32);
}

#[test]
fn decoder_decodes_scalars() {
    let d = DecodePrimaryKey::new(read_format(), "region");
    let key = key_of(string("us-east"), string("h1"));
    assert_eq!(d.decode_one(&key), Ok(ScalarValue::Utf8(Some("us-east".to_string()))));
    assert_eq!(
        d.decode_columnar(&ColumnarValue::Scalar(ScalarValue::Binary(Some(key)))),
        Ok(ColumnarValue::Scalar(ScalarValue::Utf8(Some("us-east".to_string()))))
    );
    // a null key
    assert_eq!(
        d.decode_columnar(&ColumnarValue::Scalar(ScalarValue::Binary(None))),
        Ok(ColumnarValue::Scalar(ScalarValue::Utf8(None)))
    );
    // a key whose first tag is a null
    assert_eq!(d.decode_one(&key_of(Value::Null, string("h1"))), Ok(ScalarValue::Utf8(None)));
    // what is no binary value
    assert_eq!(
        d.decode_columnar(&ColumnarValue::Scalar(ScalarValue::Utf8(Some("us-east".to_string())))),
        Err(PruneError::Shape(ShapeError::NotBinary))
    );
    assert_eq!(
        d.decode_scalar(&ScalarValue::Int64(None)),
        Err(PruneError::Shape(ShapeError::NotBinary))
    );
    // what is no key
    assert_eq!(d.decode_one(&[]), Err(PruneError::Codec(CodecError::Malformed)));
    assert_eq!(d.decode_one(&[1, b'a']), Err(PruneError::Codec(CodecError::Malformed)));

    let d = DecodePrimaryKey::new(read_format_with(ConcreteDataType::Int32), "region");
    assert_eq!(d.decode_one(&[1, 0x80, 0, 0, 123, 0]), Ok(ScalarValue::Int32(Some(123))));
    assert_eq!(d.decode_one(&[0]), Ok(ScalarValue::Int32(None)));
}

#[test]
fn decoder_of_a_later_tag_finds_no_such_field() {
    // the decoder reads one field, and the tag is the second of the key
    let d = DecodePrimaryKey::new(read_format(), "host");
    assert_eq!(
        d.decode_one(&key_of(string("us-east"), string("h1"))),
        Err(PruneError::Codec(CodecError::FieldCount))
    );
}

fn keys_column(keys: Vec<Option<Vec<u8>>>) -> ArrayData {
    ArrayData {
        data_type: DfDataType::Binary,
        values: keys.into_iter().map(ScalarValue::Binary).collect(),
    }
}

fn batch_with(keys: ArrayData) -> RecordBatch {
    let floats = ArrayData { data_type: DfDataType::Float64, values: vec![] };
    let ints = ArrayData { data_type: DfDataType::Int64, values: vec![] };
    let times = ArrayData { data_type: DfDataType::Timestamp, values: vec![] };
    RecordBatch { columns: vec![floats, ints, times, keys] }
}

#[test]
fn decoder_decodes_columns_row_by_row() {
    let d = DecodePrimaryKey::new(read_format(), "region");
    let keys = keys_column(vec![
        Some(key_of(string("us-east"), string("h1"))),
        None,
        Some(key_of(Value::Null, string("h2"))),
        Some(key_of(string(""), Value::Null)),
        Some(key_of(string("us-west"), string("h1"))),
    ]);
    let expected = ArrayData {
        data_type: DfDataType::Utf8,
        values: vec![
            ScalarValue::Utf8(Some("us-east".to_string())),
            ScalarValue::Utf8(None),
            ScalarValue::Utf8(None),
            ScalarValue::Utf8(Some(String::new())),
            ScalarValue::Utf8(Some("us-west".to_string())),
        ],
    };
    assert_eq!(d.decode_array(&keys), Ok(ArrayData { ..clone_array(&expected) }));
    assert_eq!(d.evaluate(&batch_with(keys)), Ok(ColumnarValue::Array(expected)));

    // no rows
    assert_eq!(
        d.evaluate(&batch_with(keys_column(vec![]))),
        Ok(ColumnarValue::Array(ArrayData { data_type: DfDataType::Utf8, values: vec![] }))
    );
}

fn clone_array(a: &ArrayData) -> ArrayData {
    ArrayData { data_type: a.data_type, values: a.values.iter().map(|v| v.clone()).collect() }
}

#[test]
fn decoder_fails_on_the_first_row_that_cannot_be_decoded() {
    let d = DecodePrimaryKey::new(read_format(), "region");
    let keys = keys_column(vec![
        Some(key_of(string("us-east"), string("h1"))),
        Some(vec![1, b'a']),
        Some(vec![]),
    ]);
    assert_eq!(d.evaluate(&batch_with(keys)), Err(PruneError::Codec(CodecError::Malformed)));
    // a value that is not binary among the keys
    let mixed = ArrayData {
        data_type: DfDataType::Binary,
        values: vec![ScalarValue::Binary(None), ScalarValue::Int64(Some(1)), ScalarValue::Binary(Some(vec![]))],
    };
    assert_eq!(d.decode_array(&mixed), Err(PruneError::Shape(ShapeError::NotBinary)));
    // a column of another type
    let strings = ArrayData { data_type: DfDataType::Utf8, values: vec![] };
    assert_eq!(
        d.decode_columnar(&ColumnarValue::Array(strings)),
        Err(PruneError::Shape(ShapeError::NotBinary))
    );
}

#[test]
fn decoder_needs_the_key_column_in_the_batch() {
    let d = DecodePrimaryKey::new(read_format(), "region");
    let batch = RecordBatch { columns: vec![keys_column(vec![]), keys_column(vec![]), keys_column(vec![])] };
    assert_eq!(d.evaluate(&batch), Err(PruneError::Shape(ShapeError::ColumnOutOfBounds)));
}

#[test]
fn decoder_takes_one_column_as_its_new_child() {
    let d = DecodePrimaryKey::new(read_format(), "region");
    let moved = d.with_new_children(vec![col("key", 0)]).unwrap();
    assert_eq!(moved.children(), vec![col("key", 0)]);
    assert_eq!(moved.data_type(), DfDataType::Utf8);
    let batch = RecordBatch {
        columns: vec![keys_column(vec![Some(key_of(string("eu"), Value::Null))])],
    };
    assert_eq!(
        moved.evaluate(&batch),
        Ok(ColumnarValue::Array(ArrayData {
            data_type: DfDataType::Utf8,
            values: vec![ScalarValue::Utf8(Some("eu".to_string()))]
        }))
    );

    assert_eq!(
        d.with_new_children(vec![]).unwrap_err(),
        PruneError::Shape(ShapeError::ChildCount)
    );
    assert_eq!(
        d.with_new_children(vec![col("a", 0), col("b", 1)]).unwrap_err(),
        PruneError::Shape(ShapeError::ChildCount)
    );
    assert_eq!(
        d.with_new_children(vec![utf8("a")]).unwrap_err(),
        PruneError::Shape(ShapeError::ChildNotColumn)
    );
    assert_eq!(
        d.with_new_children(vec![region_eq("a")]).unwrap_err(),
        PruneError::Shape(ShapeError::ChildNotColumn)
    );
}

#[test]
fn decoders_are_equal_by_name_child_and_type() {
    let region = DecodePrimaryKey::new(read_format(), "region");
    assert_eq!(region, DecodePrimaryKey::new(read_format(), "region"));
    assert_ne!(region, DecodePrimaryKey::new(read_format(), "host"));
    assert_ne!(region, DecodePrimaryKey::new(read_format_with(ConcreteDataType::Int32), "region"));
    assert_ne!(region, region.with_new_children(vec![col("key", 0)]).unwrap());
    assert_eq!(
        region,
        region.with_new_children(vec![col(PRIMARY_KEY_COLUMN_NAME, 3)]).unwrap()
    );

    assert!(region.eq_expr(&PhysicalExpr::DecodePrimaryKey(DecodePrimaryKey::new(
        read_format(),
        "region"
    ))));
    assert!(!region.eq_expr(&PhysicalExpr::DecodePrimaryKey(DecodePrimaryKey::new(
        read_format(),
        "host"
    ))));
    assert!(!region.eq_expr(&col(PRIMARY_KEY_COLUMN_NAME, 3)));
    assert!(!region.eq_expr(&utf8("region")));
}

/// What a scan holds against the statistics of a page: the least and the
/// greatest key of its rows. A page is skipped only where a range of keys
/// in the predicate rules out every key between the two.
fn page_is_skipped(predicate: &PhysicalExpr, min: &[u8], max: &[u8]) -> bool {
    match predicate {
        PhysicalExpr::BinaryExpr { left, op: Operator::And, right } => {
            page_is_skipped(left, min, max) || page_is_skipped(right, min, max)
        }
        PhysicalExpr::BinaryExpr { left, op, right } => match (&**left, &**right) {
            (PhysicalExpr::Column(c), PhysicalExpr::Literal(ScalarValue::Binary(Some(bound))))
                if c.name() == PRIMARY_KEY_COLUMN_NAME =>
            {
                match op {
                    Operator::GtEq => max < bound.as_slice(),
                    Operator::Lt => min >= bound.as_slice(),
                    _ => false,
                }
            }
            _ => false,
        },
        _ => false,
    }
}

#[test]
fn pruning_changes_no_result_of_a_scan() {
    let regions = ["ap-south", "eu", "us-eas", "us-east", "us-east-1", "us-west"];
    let mut rows: Vec<(Vec<u8>, &str, u32)> = Vec::new();
    for region in regions {
        for host in 0..5u32 {
            rows.push((key_of(string(region), string(&format!("h{host}"))), region, host));
        }
    }
    rows.sort();
    let pages: Vec<&[(Vec<u8>, &str, u32)]> = rows.chunks(4).collect();

    // what the rows are filtered by, row for row
    let wanted = |region: &str, host: u32| region == "us-east" && region != "us-west" && host > 1;
    let filters = || {
        vec![
            region_eq("us-east"),
            binary_expr(col("region", 0), Operator::NotEq, utf8("us-west")),
            binary_expr(col("host", 1), Operator::Gt, utf8("h1")),
        ]
    };
    let predicate = PagePruningPredicateBuilder::build(Predicate::new(filters()), &read_format())
        .unwrap();

    let mut visited = 0;
    let mut found = Vec::new();
    for page in &pages {
        let min = page.first().unwrap().0.as_slice();
        let max = page.last().unwrap().0.as_slice();
        if page_is_skipped(&predicate, min, max) {
            continue;
        }
        visited += 1;
        found.extend(page.iter().filter(|r| wanted(r.1, r.2)).map(|r| (r.1, r.2)));
    }
    let all: Vec<(&str, u32)> =
        rows.iter().filter(|r| wanted(r.1, r.2)).map(|r| (r.1, r.2)).collect();
    assert_eq!(found, all);
    assert_eq!(all, vec![("us-east", 2), ("us-east", 3), ("us-east", 4)]);
    assert!(visited < pages.len());

    // with the filter on the first tag dropped, more pages are read and the
    // same rows found
    let dropped = PagePruningPredicateBuilder::build(
        Predicate::new(vec![
            binary_expr(col("region", 0), Operator::GtEq, utf8("us-east")),
            binary_expr(col("host", 1), Operator::Gt, utf8("h1")),
        ]),
        &read_format(),
    )
    .unwrap();
    assert_eq!(dropped, binary_expr(col("host", 1), Operator::Gt, utf8("h1")));
    let mut found = Vec::new();
    for page in &pages {
        let min = page.first().unwrap().0.as_slice();
        let max = page.last().unwrap().0.as_slice();
        assert!(!page_is_skipped(&dropped, min, max));
        found.extend(page.iter().filter(|r| wanted(r.1, r.2)).map(|r| (r.1, r.2)));
    }
    assert_eq!(found, all);
}

#[test]
fn nodes_and_columns_have_a_text_form() {
    assert_eq!(Column::new("region", 0).to_string(), "region@0");
    assert_eq!(Column::new(PRIMARY_KEY_COLUMN_NAME, 12).to_string(), "__primary_key@12");
    assert_eq!(
        DecodePrimaryKey::new(read_format(), "region").to_string(),
        "region @ __primary_key@3"
    );
    let d = DecodePrimaryKey::new(read_format(), "host");
    assert_eq!(d.required_column_name(), "host");
    assert_eq!(d.required_index(), 1);
    assert_eq!(d.concrete_data_type(), ConcreteDataType::String);
    assert_eq!(d.encoded_column(), &Column::new(PRIMARY_KEY_COLUMN_NAME, 3));
    assert_eq!(d.clone(), d);
    assert!(Column::new("a", 1).same(&Column::new("a", 1)));
    assert!(!Column::new("a", 1).same(&Column::new("a", 2)));
    assert!(!Column::new("a", 1).same(&Column::new("b", 1)));
}

#[test]
fn whole_keys_are_decoded_with_the_fields_of_the_key() {
    let format = read_format_with(ConcreteDataType::Int32);
    let fields = format.primary_key_fields();
    assert_eq!(
        fields,
        vec![SortField::new(ConcreteDataType::Int32), SortField::new(ConcreteDataType::String)]
    );
    let codec = McmpRowCodec::new(fields);
    let row = vec![Value::Int32(-3), string("h1")];
    assert_eq!(codec.decode(&codec.encode(&row).unwrap()), Ok(row));
    assert_eq!(read_format_without_tags().primary_key_fields(), vec![]);
}
