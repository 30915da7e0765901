use key_prune::datatypes::{ConcreteDataType, Value};
use key_prune::row_converter::{CodecError, McmpRowCodec, SortField};

fn codec(types: &[ConcreteDataType]) -> McmpRowCodec {
    McmpRowCodec::new(types.iter().map(|t| SortField::new(*t)).collect())
}

fn encode_single(data_type: ConcreteDataType, value: Value) -> Vec<u8> {
    codec(&[data_type]).encode(&[value]).unwrap()
}

fn samples() -> Vec<(ConcreteDataType, Vec<Value>)> {
    // the values of each type in ascending order
    vec![
        (ConcreteDataType::Boolean, vec![Value::Null, Value::Boolean(false), Value::Boolean(true)]),
        (
            ConcreteDataType::UInt8,
            vec![Value::Null, Value::UInt8(0), Value::UInt8(1), Value::UInt8(200), Value::UInt8(u8::MAX)],
        ),
        (
            ConcreteDataType::UInt16,
            vec![Value::Null, Value::UInt16(0), Value::UInt16(255), Value::UInt16(256), Value::UInt16(u16::MAX)],
        ),
        (
            ConcreteDataType::UInt32,
            vec![Value::Null, Value::UInt32(0), Value::UInt32(65_536), Value::UInt32(u32::MAX)],
        ),
        (
            ConcreteDataType::UInt64,
            vec![Value::Null, Value::UInt64(0), Value::UInt64(1 << 40), Value::UInt64(u64::MAX)],
        ),
        (
            ConcreteDataType::Int8,
            vec![Value::Null, Value::Int8(i8::MIN), Value::Int8(-1), Value::Int8(0), Value::Int8(1), Value::Int8(i8::MAX)],
        ),
        (
            ConcreteDataType::Int16,
            vec![Value::Null, Value::Int16(i16::MIN), Value::Int16(-256), Value::Int16(-1), Value::Int16(0), Value::Int16(i16::MAX)],
        ),
        (
            ConcreteDataType::Int32,
            vec![Value::Null, Value::Int32(i32::MIN), Value::Int32(-1), Value::Int32(0), Value::Int32(123), Value::Int32(i32::MAX)],
        ),
        (
            ConcreteDataType::Int64,
            vec![Value::Null, Value::Int64(i64::MIN), Value::Int64(-1), Value::Int64(0), Value::Int64(1), Value::Int64(i64::MAX)],
        ),
        (
            ConcreteDataType::Date,
            vec![Value::Null, Value::Date(i32::MIN), Value::Date(-1), Value::Date(0), Value::Date(19_000)],
        ),
        (
            ConcreteDataType::DateTime,
            vec![Value::Null, Value::DateTime(i64::MIN), Value::DateTime(0), Value::DateTime(1_700_000_000)],
        ),
        (
            ConcreteDataType::Timestamp,
            vec![Value::Null, Value::Timestamp(-5), Value::Timestamp(0), Value::Timestamp(i64::MAX)],
        ),
        (
            ConcreteDataType::String,
            vec![
                Value::Null,
                Value::String(String::new()),
                Value::String("\0".to_string()),
                Value::String("\0\0".to_string()),
                Value::String("\0a".to_string()),
                Value::String("\u{1}".to_string()),
                Value::String("a".to_string()),
                Value::String("a\0".to_string()),
                Value::String("a\0b".to_string()),
                Value::String("ab".to_string()),
                Value::String("b".to_string()),
                Value::String("us-east".to_string()),
                Value::String("us-east-1".to_string()),
                Value::String("us-west".to_string()),
                Value::String("é".to_string()),
                Value::String("日本".to_string()),
            ],
        ),
        (
            ConcreteDataType::Binary,
            vec![
                Value::Null,
                Value::Binary(vec![]),
                Value::Binary(vec![0]),
                Value::Binary(vec![0, 0]),
                Value::Binary(vec![0, 0xFF]),
                Value::Binary(vec![1]),
                Value::Binary(vec![0xFE]),
                Value::Binary(vec![0xFF]),
                Value::Binary(vec![0xFF, 0]),
                Value::Binary(vec![0xFF, 0xFF]),
            ],
        ),
    ]
}

#[test]
fn round_trip_of_single_values() {
    for (data_type, values) in samples() {
        let codec = codec(&[data_type]);
        for value in values {
            let key = codec.encode(std::slice::from_ref(&value)).unwrap();
            assert_eq!(codec.decode(&key), Ok(vec![value]));
        }
    }
}

#[test]
fn order_of_single_values_is_the_order_of_their_keys() {
    for (data_type, values) in samples() {
        let keys: Vec<Vec<u8>> = values.iter().map(|v| encode_single(data_type, v.clone())).collect();
        for i in 0..keys.len() {
            for j in 0..keys.len() {
                assert_eq!(
                    keys[i].cmp(&keys[j]),
                    i.cmp(&j),
                    "{:?} against {:?}",
                    values[i],
                    values[j]
                );
            }
        }
    }
}

#[test]
fn no_key_of_a_value_starts_the_key_of_another() {
    for (data_type, values) in samples() {
        let keys: Vec<Vec<u8>> = values.iter().map(|v| encode_single(data_type, v.clone())).collect();
        for i in 0..keys.len() {
            for j in 0..keys.len() {
                if i != j {
                    assert!(!keys[j].starts_with(&keys[i]), "{:?} starts {:?}", values[i], values[j]);
                }
            }
        }
    }
}

#[test]
fn exact_keys_of_fixed_width_values() {
    assert_eq!(encode_single(ConcreteDataType::Boolean, Value::Null), vec![0]);
    assert_eq!(encode_single(ConcreteDataType::Boolean, Value::Boolean(false)), vec![1, 0]);
    assert_eq!(encode_single(ConcreteDataType::Boolean, Value::Boolean(true)), vec![1, 1]);
    assert_eq!(encode_single(ConcreteDataType::UInt8, Value::UInt8(0xAB)), vec![1, 0xAB]);
    assert_eq!(encode_single(ConcreteDataType::UInt16, Value::UInt16(0x0102)), vec![1, 1, 2]);
    assert_eq!(
        encode_single(ConcreteDataType::UInt32, Value::UInt32(0x0102_0304)),
        vec![1, 1, 2, 3, 4]
    );
    assert_eq!(
        encode_single(ConcreteDataType::UInt64, Value::UInt64(0x0102_0304_0506_0708)),
        vec![1, 1, 2, 3, 4, 5, 6, 7, 8]
    );
    assert_eq!(encode_single(ConcreteDataType::Int8, Value::Int8(i8::MIN)), vec![1, 0x00]);
    assert_eq!(encode_single(ConcreteDataType::Int8, Value::Int8(-1)), vec![1, 0x7F]);
    assert_eq!(encode_single(ConcreteDataType::Int8, Value::Int8(0)), vec![1, 0x80]);
    assert_eq!(encode_single(ConcreteDataType::Int8, Value::Int8(i8::MAX)), vec![1, 0xFF]);
    assert_eq!(encode_single(ConcreteDataType::Int16, Value::Int16(1)), vec![1, 0x80, 0x01]);
    assert_eq!(
        encode_single(ConcreteDataType::Int32, Value::Int32(123)),
        vec![1, 0x80, 0, 0, 123]
    );
    assert_eq!(
        encode_single(ConcreteDataType::Int32, Value::Int32(-1)),
        vec![1, 0x7F, 0xFF, 0xFF, 0xFF]
    );
    assert_eq!(
        encode_single(ConcreteDataType::Int64, Value::Int64(i64::MIN)),
        vec![1, 0, 0, 0, 0, 0, 0, 0, 0]
    );
    assert_eq!(
        encode_single(ConcreteDataType::Int64, Value::Int64(i64::MAX)),
        vec![1, 0xFF, 0xFF, 0xFF, 0xFF, 0xFF, 0xFF, 0xFF, 0xFF]
    );
    assert_eq!(encode_single(ConcreteDataType::Date, Value::Date(0)), vec![1, 0x80, 0, 0, 0]);
    assert_eq!(
        encode_single(ConcreteDataType::DateTime, Value::DateTime(-1)),
        vec![1, 0x7F, 0xFF, 0xFF, 0xFF, 0xFF, 0xFF, 0xFF, 0xFF]
    );
    assert_eq!(
        encode_single(ConcreteDataType::Timestamp, Value::Timestamp(2)),
        vec![1, 0x80, 0, 0, 0, 0, 0, 0, 2]
    );
}

#[test]
fn exact_keys_of_strings_and_binary_values() {
    assert_eq!(encode_single(ConcreteDataType::String, Value::Null), vec![0]);
    assert_eq!(encode_single(ConcreteDataType::String, Value::String(String::new())), vec![1, 0, 0]);
    assert_eq!(
        encode_single(ConcreteDataType::String, Value::String("ab".to_string())),
        vec![1, b'a', b'b', 0, 0]
    );
    assert_eq!(
        encode_single(ConcreteDataType::String, Value::String("a\0b".to_string())),
        vec![1, b'a', 0, 0xFF, b'b', 0, 0]
    );
    assert_eq!(
        encode_single(ConcreteDataType::String, Value::String("é".to_string())),
        vec![1, 0xC3, 0xA9, 0, 0]
    );
    assert_eq!(
        encode_single(ConcreteDataType::Binary, Value::Binary(vec![0, 0, 0xFF])),
        vec![1, 0, 0xFF, 0, 0xFF, 0xFF, 0, 0]
    );
}

#[test]
fn round_trip_of_rows() {
    let codec = codec(&[
        ConcreteDataType::String,
        ConcreteDataType::Int64,
        ConcreteDataType::Boolean,
        ConcreteDataType::Binary,
        ConcreteDataType::UInt16,
    ]);
    let rows = vec![
        vec![
            Value::String("host-1".to_string()),
            Value::Int64(-42),
            Value::Boolean(true),
            Value::Binary(vec![0, 1, 0]),
            Value::UInt16(7),
        ],
        vec![Value::Null, Value::Null, Value::Null, Value::Null, Value::Null],
        vec![
            Value::String(String::new()),
            Value::Null,
            Value::Boolean(false),
            Value::Binary(vec![]),
            Value::UInt16(u16::MAX),
        ],
    ];
    for row in rows {
        let key = codec.encode(&row).unwrap();
        assert_eq!(codec.decode(&key), Ok(row));
    }
    assert_eq!(
        codec
            .encode(&[
                Value::String("a".to_string()),
                Value::Int64(1),
                Value::Null,
                Value::Binary(vec![9]),
                Value::UInt16(1),
            ])
            .unwrap(),
        vec![1, b'a', 0, 0, 1, 0x80, 0, 0, 0, 0, 0, 0, 1, 0, 1, 9, 0, 0, 1, 0, 1]
    );
}

#[test]
fn order_of_rows_is_the_order_of_their_keys() {
    let codec = codec(&[ConcreteDataType::String, ConcreteDataType::Int32]);
    // in ascending order, field by field
    let rows = vec![
        vec![Value::Null, Value::Null],
        vec![Value::Null, Value::Int32(-7)],
        vec![Value::String(String::new()), Value::Int32(5)],
        vec![Value::String("a".to_string()), Value::Null],
        vec![Value::String("a".to_string()), Value::Int32(-1)],
        vec![Value::String("a".to_string()), Value::Int32(1)],
        vec![Value::String("a\0".to_string()), Value::Int32(i32::MIN)],
        vec![Value::String("ab".to_string()), Value::Int32(i32::MIN)],
        vec![Value::String("b".to_string()), Value::Null],
    ];
    let keys: Vec<Vec<u8>> = rows.iter().map(|r| codec.encode(r).unwrap()).collect();
    for i in 0..keys.len() {
        for j in 0..keys.len() {
            assert_eq!(keys[i].cmp(&keys[j]), i.cmp(&j), "{:?} against {:?}", rows[i], rows[j]);
        }
    }
}

#[test]
fn decode_reads_the_row_and_leaves_the_rest() {
    let one = codec(&[ConcreteDataType::String]);
    let two = codec(&[ConcreteDataType::String, ConcreteDataType::UInt8]);
    let key = two.encode(&[Value::String("us-east".to_string()), Value::UInt8(3)]).unwrap();
    assert_eq!(one.decode(&key), Ok(vec![Value::String("us-east".to_string())]));
    assert_eq!(
        two.decode(&key),
        Ok(vec![Value::String("us-east".to_string()), Value::UInt8(3)])
    );
    assert_eq!(codec(&[]).decode(&key), Ok(vec![]));
    assert_eq!(codec(&[]).decode(&[]), Ok(vec![]));
}

#[test]
fn encode_rejects_rows_that_do_not_fit() {
    let codec = codec(&[ConcreteDataType::String, ConcreteDataType::Int32]);
    assert_eq!(codec.encode(&[]), Err(CodecError::FieldCount));
    assert_eq!(
        codec.encode(&[Value::String("a".to_string())]),
        Err(CodecError::FieldCount)
    );
    assert_eq!(
        codec.encode(&[Value::Null, Value::Null, Value::Null]),
        Err(CodecError::FieldCount)
    );
    assert_eq!(
        codec.encode(&[Value::Int32(1), Value::Int32(1)]),
        Err(CodecError::TypeMismatch)
    );
    assert_eq!(
        codec.encode(&[Value::String("a".to_string()), Value::Int64(1)]),
        Err(CodecError::TypeMismatch)
    );
    assert_eq!(
        codec.encode(&[Value::String("a".to_string()), Value::Date(1)]),
        Err(CodecError::TypeMismatch)
    );
}

#[test]
fn decode_rejects_malformed_keys() {
    let string = codec(&[ConcreteDataType::String]);
    // nothing there
    assert_eq!(string.decode(&[]), Err(CodecError::Malformed));
    // a marker that is neither 0 nor 1
    assert_eq!(string.decode(&[2, 0, 0]), Err(CodecError::Malformed));
    // no terminator
    assert_eq!(string.decode(&[1, b'a']), Err(CodecError::Malformed));
    assert_eq!(string.decode(&[1, b'a', 0]), Err(CodecError::Malformed));
    // a zero byte followed by neither 0xFF nor the end
    assert_eq!(string.decode(&[1, b'a', 0, 7, 0, 0]), Err(CodecError::Malformed));
    // bytes that are no UTF-8
    assert_eq!(string.decode(&[1, 0xC3, 0, 0]), Err(CodecError::Malformed));
    assert_eq!(
        codec(&[ConcreteDataType::Binary]).decode(&[1, 0xC3, 0, 0]),
        Ok(vec![Value::Binary(vec![0xC3])])
    );
    // too few bytes for the width
    assert_eq!(
        codec(&[ConcreteDataType::Int32]).decode(&[1, 0x80, 0, 0]),
        Err(CodecError::Malformed)
    );
    // a boolean that is neither 0 nor 1
    assert_eq!(codec(&[ConcreteDataType::Boolean]).decode(&[1, 2]), Err(CodecError::Malformed));
    // a second field that is not there
    assert_eq!(
        codec(&[ConcreteDataType::UInt8, ConcreteDataType::UInt8]).decode(&[1, 5]),
        Err(CodecError::Malformed)
    );
}

#[test]
fn floats_are_ordered_by_the_total_order() {
    let codec = codec(&[ConcreteDataType::Float64]);
    let numbers = [
        f64::NEG_INFINITY,
        f64::MIN,
        -1.0e10,
        -1.5,
        -f64::MIN_POSITIVE,
        -0.0,
        0.0,
        f64::MIN_POSITIVE,
        0.5,
        1.5,
        1.0e10,
        f64::MAX,
        f64::INFINITY,
        f64::NAN,
    ];
    let mut keys = vec![codec.encode(&[Value::Null]).unwrap()];
    for x in numbers {
        let value = Value::Float64(x.to_bits());
        let key = codec.encode(std::slice::from_ref(&value)).unwrap();
        assert_eq!(codec.decode(&key), Ok(vec![value]));
        keys.push(key);
    }
    for i in 0..keys.len() {
        for j in 0..keys.len() {
            assert_eq!(keys[i].cmp(&keys[j]), i.cmp(&j));
        }
    }
    assert_eq!(
        codec.encode(&[Value::Float64(0.0f64.to_bits())]),
        Ok(vec![1, 0x80, 0, 0, 0, 0, 0, 0, 0])
    );
    assert_eq!(
        codec.encode(&[Value::Float64((-0.0f64).to_bits())]),
        Ok(vec![1, 0x7F, 0xFF, 0xFF, 0xFF, 0xFF, 0xFF, 0xFF, 0xFF])
    );
    assert_eq!(
        codec.encode(&[Value::Float64(1.0f64.to_bits())]),
        Ok(vec![1, 0xBF, 0xF0, 0, 0, 0, 0, 0, 0])
    );
    assert_eq!(codec.encode(&[Value::Int64(1)]), Err(CodecError::TypeMismatch));
}

#[test]
fn codec_knows_its_fields() {
    let c = codec(&[ConcreteDataType::String, ConcreteDataType::Int32]);
    assert_eq!(c.num_fields(), 2);
    assert_eq!(c.clone(), c);
    assert_eq!(SortField::new(ConcreteDataType::Date).data_type, ConcreteDataType::Date);
}
