//! The order-preserving codec of composite keys.
//!
//! A key is the concatenation of its fields. A field starts with a marker
//! byte, `0` for a null and `1` for a value. A value of a fixed-width type
//! follows as a big-endian number, signed types shifted so that the least
//! value becomes zero; a string or a binary value follows with each zero
//! byte escaped and a terminator behind it. A floating-point number is
//! written as its place in the total order of IEEE 754. Compared byte by byte, keys order
//! as their rows do, and the encoding of one field is never the beginning of
//! the encoding of another value of that field.

use vstd::prelude::*;
use vstd::slice::slice_to_vec;
use vstd::utf8::{decode_utf8, encode_utf8, valid_utf8};
use crate::datatypes::{float_rank, row_view, ConcreteDataType, Value, ValueView};
use crate::byte_order::{
    agree_before, diverge, is_prefix, less_at, lex_lt, lemma_diverge_common_front,
    lemma_diverge_symmetric, lemma_lex_asymmetric, lemma_lex_common_front,
    lemma_lex_diverge_extend,
};
use crate::key_encoding::{
    be_bytes, escape, from_be, get_escaped, get_fixed, pow256, put_escaped, put_fixed, unescape,
    lemma_be_bytes_len, lemma_be_bytes_of_from_be,
    lemma_be_bytes_order, lemma_escape_of_unescape, lemma_escape_order, lemma_from_be_bound,
    lemma_from_be_of_be_bytes, lemma_pow256_values, lemma_unescape_of_escape,
};

verus! {

/// The number of bytes that a value of a fixed-width type takes behind its
/// marker; `None` for the types of variable width.
pub open spec fn fixed_width(data_type: ConcreteDataType) -> Option<nat> {
    match data_type {
        ConcreteDataType::Boolean | ConcreteDataType::Int8 | ConcreteDataType::UInt8 => Some(1),
        ConcreteDataType::Int16 | ConcreteDataType::UInt16 => Some(2),
        ConcreteDataType::Int32 | ConcreteDataType::UInt32 | ConcreteDataType::Date => Some(4),
        ConcreteDataType::Int64
        | ConcreteDataType::UInt64
        | ConcreteDataType::Float64
        | ConcreteDataType::DateTime
        | ConcreteDataType::Timestamp => Some(8),
        ConcreteDataType::String | ConcreteDataType::Binary => None,
    }
}

/// The non-negative number that is written for a value of a fixed-width
/// type: the value itself where the type is unsigned, the value minus the
/// type's least value where it is signed, `0` and `1` for `false` and
/// `true`, and for a floating-point number its place in the total order.
pub open spec fn fixed_number(v: ValueView) -> int {
    match v {
        ValueView::Boolean(b) => if b { 1 } else { 0 },
        ValueView::UInt8(x) => x as int,
        ValueView::UInt16(x) => x as int,
        ValueView::UInt32(x) => x as int,
        ValueView::UInt64(x) => x as int,
        ValueView::Int8(x) => x + 0x80,
        ValueView::Int16(x) => x + 0x8000,
        ValueView::Int32(x) => x + 0x8000_0000,
        ValueView::Int64(x) => x + 0x8000_0000_0000_0000,
        ValueView::Float64(x) => float_rank(x),
        ValueView::Date(x) => x + 0x8000_0000,
        ValueView::DateTime(x) => x + 0x8000_0000_0000_0000,
        ValueView::Timestamp(x) => x + 0x8000_0000_0000_0000,
        _ => 0,
    }
}

/// The bytes that are written, escaped, for a value of variable width: the
/// UTF-8 bytes of a string, the bytes of a binary value.
pub open spec fn var_bytes(v: ValueView) -> Seq<u8> {
    match v {
        ValueView::String(s) => encode_utf8(s),
        ValueView::Binary(b) => b,
        _ => Seq::empty(),
    }
}

/// The encoding of one field.
pub open spec fn encode_value(v: ValueView) -> Seq<u8> {
    match v.data_type() {
        None => seq![0u8],
        Some(data_type) => match fixed_width(data_type) {
            Some(w) => seq![1u8] + be_bytes(fixed_number(v), w),
            None => seq![1u8] + escape(var_bytes(v)),
        },
    }
}

/// The encoding of a row: its fields one after another.
pub open spec fn encode_row(row: Seq<ValueView>) -> Seq<u8>
    decreases row.len(),
{
    if row.len() == 0 {
        Seq::empty()
    } else {
        encode_row(row.drop_last()) + encode_value(row.last())
    }
}

/// The value of the fixed-width type `data_type` for which `x` is written,
/// if there is one.
pub open spec fn fixed_value(data_type: ConcreteDataType, x: int) -> Option<ValueView> {
    match data_type {
        ConcreteDataType::Boolean => if x == 0 || x == 1 {
            Some(ValueView::Boolean(x == 1))
        } else {
            None
        },
        ConcreteDataType::UInt8 => Some(ValueView::UInt8(x as u8)),
        ConcreteDataType::UInt16 => Some(ValueView::UInt16(x as u16)),
        ConcreteDataType::UInt32 => Some(ValueView::UInt32(x as u32)),
        ConcreteDataType::UInt64 => Some(ValueView::UInt64(x as u64)),
        ConcreteDataType::Int8 => Some(ValueView::Int8((x - 0x80) as i8)),
        ConcreteDataType::Int16 => Some(ValueView::Int16((x - 0x8000) as i16)),
        ConcreteDataType::Int32 => Some(ValueView::Int32((x - 0x8000_0000) as i32)),
        ConcreteDataType::Int64 => Some(ValueView::Int64((x - 0x8000_0000_0000_0000) as i64)),
        ConcreteDataType::Date => Some(ValueView::Date((x - 0x8000_0000) as i32)),
        ConcreteDataType::DateTime => Some(
            ValueView::DateTime((x - 0x8000_0000_0000_0000) as i64),
        ),
        ConcreteDataType::Timestamp => Some(
            ValueView::Timestamp((x - 0x8000_0000_0000_0000) as i64),
        ),
        ConcreteDataType::Float64 => Some(
            ValueView::Float64(
                (if x >= 0x8000_0000_0000_0000 {
                    x - 0x8000_0000_0000_0000
                } else {
                    0xFFFF_FFFF_FFFF_FFFF - x
                }) as u64,
            ),
        ),
        ConcreteDataType::String | ConcreteDataType::Binary => None,
    }
}

/// The value of the variable-width type `data_type` that holds the bytes
/// `b`, if there is one: a string only where `b` is valid UTF-8.
pub open spec fn var_value(data_type: ConcreteDataType, b: Seq<u8>) -> Option<ValueView> {
    match data_type {
        ConcreteDataType::String => if valid_utf8(b) {
            Some(ValueView::String(decode_utf8(b)))
        } else {
            None
        },
        ConcreteDataType::Binary => Some(ValueView::Binary(b)),
        _ => None,
    }
}

/// Reads one field of type `data_type` from the front of `b`: the value and
/// the number of bytes it took, or `None` where `b` does not start with the
/// encoding of such a field.
pub open spec fn parse_value(data_type: ConcreteDataType, b: Seq<u8>) -> Option<(ValueView, int)> {
    if b.len() == 0 {
        None
    } else if b[0] == 0 {
        Some((ValueView::Null, 1))
    } else if b[0] != 1 {
        None
    } else {
        match fixed_width(data_type) {
            Some(w) => if b.len() < 1 + w {
                None
            } else {
                match fixed_value(data_type, from_be(b.subrange(1, 1 + w as int))) {
                    Some(v) => Some((v, 1 + w as int)),
                    None => None,
                }
            },
            None => match unescape(b.skip(1)) {
                Some((s, n)) => match var_value(data_type, s) {
                    Some(v) => Some((v, 1 + n)),
                    None => None,
                },
                None => None,
            },
        }
    }
}

/// The order of the values of one column: a null before every value, whole
/// numbers by size, floating-point numbers in the total order of IEEE 754,
/// `false` before `true`, strings by their UTF-8 bytes and binary values by
/// their bytes, both lexicographically. Values of different types are not
/// ordered.
pub open spec fn value_lt(a: ValueView, b: ValueView) -> bool {
    match (a, b) {
        (ValueView::Null, ValueView::Null) => false,
        (ValueView::Null, _) => true,
        (ValueView::Boolean(x), ValueView::Boolean(y)) => !x && y,
        (ValueView::UInt8(x), ValueView::UInt8(y)) => x < y,
        (ValueView::UInt16(x), ValueView::UInt16(y)) => x < y,
        (ValueView::UInt32(x), ValueView::UInt32(y)) => x < y,
        (ValueView::UInt64(x), ValueView::UInt64(y)) => x < y,
        (ValueView::Int8(x), ValueView::Int8(y)) => x < y,
        (ValueView::Int16(x), ValueView::Int16(y)) => x < y,
        (ValueView::Int32(x), ValueView::Int32(y)) => x < y,
        (ValueView::Int64(x), ValueView::Int64(y)) => x < y,
        (ValueView::Float64(x), ValueView::Float64(y)) => float_rank(x) < float_rank(y),
        (ValueView::String(x), ValueView::String(y)) => lex_lt(encode_utf8(x), encode_utf8(y)),
        (ValueView::Binary(x), ValueView::Binary(y)) => lex_lt(x, y),
        (ValueView::Date(x), ValueView::Date(y)) => x < y,
        (ValueView::DateTime(x), ValueView::DateTime(y)) => x < y,
        (ValueView::Timestamp(x), ValueView::Timestamp(y)) => x < y,
        _ => false,
    }
}

/// The number written for a value of a fixed-width type fits the width.
proof fn lemma_fixed_number_bound(v: ValueView)
    requires
        v.data_type() is Some,
        fixed_width(v.data_type().unwrap()) is Some,
    ensures
        0 <= fixed_number(v) < pow256(fixed_width(v.data_type().unwrap()).unwrap()),
        fixed_value(v.data_type().unwrap(), fixed_number(v)) == Some(v),
{
    lemma_pow256_values();
}

/// A number that fits the width of a fixed-width type is the number written
/// for the value that it gives.
proof fn lemma_fixed_value_number(data_type: ConcreteDataType, x: int)
    requires
        fixed_width(data_type) is Some,
        0 <= x < pow256(fixed_width(data_type).unwrap()),
        fixed_value(data_type, x) is Some,
    ensures
        fixed_value(data_type, x).unwrap().data_type() == Some(data_type),
        fixed_number(fixed_value(data_type, x).unwrap()) == x,
{
    lemma_pow256_values();
}

/// Round trip of one field: reading the encoding of a value, whatever follows
/// it, gives the value and the length of the encoding.
pub proof fn lemma_parse_of_encode(data_type: ConcreteDataType, v: ValueView, rest: Seq<u8>)
    requires
        v.fits(data_type),
    ensures
        parse_value(data_type, encode_value(v) + rest) == Some(
            (v, encode_value(v).len() as int),
        ),
{
    let b = encode_value(v) + rest;
    if v is Null {
        assert(b[0] == 0);
    } else {
        assert(b[0] == 1);
        match fixed_width(data_type) {
            Some(w) => {
                let x = fixed_number(v);
                lemma_fixed_number_bound(v);
                lemma_be_bytes_len(x, w);
                assert(b.subrange(1, 1 + w as int) =~= be_bytes(x, w));
                lemma_from_be_of_be_bytes(x, w);
            },
            None => {
                let raw = var_bytes(v);
                assert(b.skip(1) =~= escape(raw) + rest);
                lemma_unescape_of_escape(raw, rest);
                broadcast use vstd::utf8::encode_utf8_valid_utf8;
                broadcast use vstd::utf8::encode_utf8_decode_utf8;

            },
        }
    }
}

/// What `parse_value` reads is the encoding of the value that it returns, and
/// that value fits the type.
pub proof fn lemma_encode_of_parse(data_type: ConcreteDataType, b: Seq<u8>)
    requires
        parse_value(data_type, b) is Some,
    ensures
        parse_value(data_type, b).unwrap().0.fits(data_type),
        1 <= parse_value(data_type, b).unwrap().1 <= b.len(),
        b.take(parse_value(data_type, b).unwrap().1) == encode_value(
            parse_value(data_type, b).unwrap().0,
        ),
{
    let (v, n) = parse_value(data_type, b).unwrap();
    if b[0] == 0 {
        assert(b.take(1) =~= seq![0u8]);
    } else {
        match fixed_width(data_type) {
            Some(w) => {
                let sub = b.subrange(1, 1 + w as int);
                let x = from_be(sub);
                lemma_from_be_bound(sub);
                lemma_be_bytes_of_from_be(sub);
                lemma_fixed_value_number(data_type, x);
                assert(b.take(n) =~= seq![1u8] + sub);
            },
            None => {
                let c = b.skip(1);
                lemma_escape_of_unescape(c);
                let (raw, m) = unescape(c).unwrap();
                broadcast use vstd::utf8::decode_utf8_encode_utf8;

                assert(var_bytes(v) == raw);
                assert(b.take(n) =~= seq![1u8] + c.take(m));
            },
        }
    }
}

/// Order preservation and prefix freedom of one field: the encodings of two
/// different values of one column diverge, so neither is the beginning of
/// the other, and they order as the values do.
pub proof fn lemma_encode_value_order(data_type: ConcreteDataType, a: ValueView, b: ValueView)
    requires
        a.fits(data_type),
        b.fits(data_type),
        a != b,
    ensures
        diverge(encode_value(a), encode_value(b)),
        lex_lt(encode_value(a), encode_value(b)) == value_lt(a, b),
{
    let ea = encode_value(a);
    let eb = encode_value(b);
    if a is Null {
        assert(less_at(ea, eb, 0));
        assert(agree_before(ea, eb, 0) && ea[0] != eb[0]);
    } else if b is Null {
        assert(less_at(eb, ea, 0));
        assert(agree_before(ea, eb, 0) && ea[0] != eb[0]);
        lemma_lex_asymmetric(eb, ea);
    } else {
        let one = seq![1u8];
        match fixed_width(data_type) {
            Some(w) => {
                let xa = fixed_number(a);
                let xb = fixed_number(b);
                lemma_fixed_number_bound(a);
                lemma_fixed_number_bound(b);
                let pa = be_bytes(xa, w);
                let pb = be_bytes(xb, w);
                if xa < xb {
                    lemma_be_bytes_order(xa, xb, w);
                    lemma_lex_common_front(one, pa, pb);
                    lemma_diverge_common_front(one, pa, pb);
                } else {
                    lemma_be_bytes_order(xb, xa, w);
                    lemma_lex_common_front(one, pb, pa);
                    lemma_diverge_common_front(one, pb, pa);
                    lemma_diverge_symmetric(eb, ea);
                    lemma_lex_asymmetric(eb, ea);
                }
            },
            None => {
                let ra = var_bytes(a);
                let rb = var_bytes(b);
                if let (ValueView::String(sa), ValueView::String(sb)) = (a, b) {
                    vstd::utf8::encode_utf8_decode_utf8(sa);
                    vstd::utf8::encode_utf8_decode_utf8(sb);
                }
                assert(ra != rb);
                lemma_escape_order(ra, rb);
                lemma_lex_common_front(one, escape(ra), escape(rb));
                lemma_diverge_common_front(one, escape(ra), escape(rb));
            },
        }
    }
}

/// `String::from_utf8` of std: the string whose UTF-8 bytes are `bytes`, or
/// `None` where `bytes` is not valid UTF-8. Trusted: the contract restates
/// what the documentation of `String::from_utf8` says, over vstd's model of
/// UTF-8.
#[verifier::external_body]
fn string_from_utf8(bytes: Vec<u8>) -> (r: Option<String>)
    ensures
        r is Some <==> valid_utf8(bytes@),
        r matches Some(s) ==> s@ == decode_utf8(bytes@),
{
    String::from_utf8(bytes).ok()
}

/// The number written for a signed value of `width` bytes: the value minus
/// the least value of that width.
fn shifted(x: i64, width: usize) -> (r: u64)
    requires
        width == 1 || width == 2 || width == 4 || width == 8,
        -pow256(width as nat) <= 2 * x < pow256(width as nat),
    ensures
        2 * r == 2 * x + pow256(width as nat),
{
    proof {
        lemma_pow256_values();
    }
    if width == 8 {
        if x >= 0 {
            x as u64 + 0x8000_0000_0000_0000
        } else {
            (x - i64::MIN) as u64
        }
    } else if width == 4 {
        (x + 0x8000_0000) as u64
    } else if width == 2 {
        (x + 0x8000) as u64
    } else {
        (x + 0x80) as u64
    }
}

/// The signed value of `width` bytes for which `r` is written.
fn unshifted(r: u64, width: usize) -> (x: i64)
    requires
        width == 1 || width == 2 || width == 4 || width == 8,
        r < pow256(width as nat),
    ensures
        2 * r == 2 * x + pow256(width as nat),
{
    proof {
        lemma_pow256_values();
    }
    if width == 8 {
        if r >= 0x8000_0000_0000_0000 {
            (r - 0x8000_0000_0000_0000) as i64
        } else {
            r as i64 + i64::MIN
        }
    } else if width == 4 {
        r as i64 - 0x8000_0000
    } else if width == 2 {
        r as i64 - 0x8000
    } else {
        r as i64 - 0x80
    }
}

/// The place of the floating-point number with the bits `bits` in the total
/// order.
fn ranked(bits: u64) -> (r: u64)
    ensures
        r == float_rank(bits),
{
    if bits >= 0x8000_0000_0000_0000 {
        u64::MAX - bits
    } else {
        bits + 0x8000_0000_0000_0000
    }
}

/// The bits of the floating-point number at the place `r` in the total
/// order.
fn unranked(r: u64) -> (bits: u64)
    ensures
        float_rank(bits) == r,
        bits == (if r >= 0x8000_0000_0000_0000 {
            r - 0x8000_0000_0000_0000
        } else {
            0xFFFF_FFFF_FFFF_FFFF - r
        }),
{
    if r >= 0x8000_0000_0000_0000 {
        r - 0x8000_0000_0000_0000
    } else {
        u64::MAX - r
    }
}

/// Appends the encoding of `value` as a field of type `data_type` to `out`,
/// and says whether the value fits the type; `out` is left as it was where
/// it does not.
pub fn put_value(out: &mut Vec<u8>, data_type: ConcreteDataType, value: &Value) -> (ok: bool)
    ensures
        ok == value@.fits(data_type),
        ok ==> final(out)@ == old(out)@ + encode_value(value@),
        !ok ==> final(out)@ == old(out)@,
{
    proof {
        lemma_pow256_values();
    }
    match value.data_type() {
        None => {
            out.push(0);
            assert(out@ =~= old(out)@ + seq![0u8]);
            true
        },
        Some(t) => {
            if t != data_type {
                return false;
            }
            out.push(1);
            let ghost mid = out@;
            match value {
                Value::Boolean(b) => put_fixed(out, if *b { 1 } else { 0 }, 1),
                Value::UInt8(x) => put_fixed(out, *x as u64, 1),
                Value::UInt16(x) => put_fixed(out, *x as u64, 2),
                Value::UInt32(x) => put_fixed(out, *x as u64, 4),
                Value::UInt64(x) => put_fixed(out, *x, 8),
                Value::Int8(x) => put_fixed(out, shifted(*x as i64, 1), 1),
                Value::Int16(x) => put_fixed(out, shifted(*x as i64, 2), 2),
                Value::Int32(x) => put_fixed(out, shifted(*x as i64, 4), 4),
                Value::Int64(x) => put_fixed(out, shifted(*x, 8), 8),
                Value::Float64(x) => put_fixed(out, ranked(*x), 8),
                Value::Date(x) => put_fixed(out, shifted(*x as i64, 4), 4),
                Value::DateTime(x) => put_fixed(out, shifted(*x, 8), 8),
                Value::Timestamp(x) => put_fixed(out, shifted(*x, 8), 8),
                Value::String(s) => put_escaped(out, s.as_str().as_bytes()),
                Value::Binary(b) => put_escaped(out, b.as_slice()),
                Value::Null => {},
            }
            assert(out@ =~= old(out)@ + encode_value(value@));
            true
        },
    }
}

/// Reads one field of type `data_type` from `bytes` at `pos`: the value and
/// the position behind it, or `None` where no such field starts there.
pub fn get_value(data_type: ConcreteDataType, bytes: &[u8], pos: usize) -> (r: Option<
    (Value, usize),
>)
    requires
        pos <= bytes@.len(),
    ensures
        match r {
            Some((v, end)) => pos < end <= bytes@.len() && parse_value(
                data_type,
                bytes@.skip(pos as int),
            ) == Some((v@, end - pos)),
            None => parse_value(data_type, bytes@.skip(pos as int)) is None,
        },
{
    let ghost b = bytes@.skip(pos as int);
    let len = bytes.len();
    if pos >= len {
        return None;
    }
    let marker = bytes[pos];
    assert(b[0] == marker);
    if marker == 0 {
        return Some((Value::Null, pos + 1));
    }
    if marker != 1 {
        return None;
    }
    let width: usize = match data_type {
        ConcreteDataType::Boolean | ConcreteDataType::Int8 | ConcreteDataType::UInt8 => 1,
        ConcreteDataType::Int16 | ConcreteDataType::UInt16 => 2,
        ConcreteDataType::Int32 | ConcreteDataType::UInt32 | ConcreteDataType::Date => 4,
        ConcreteDataType::Int64
        | ConcreteDataType::UInt64
        | ConcreteDataType::Float64
        | ConcreteDataType::DateTime
        | ConcreteDataType::Timestamp => 8,
        ConcreteDataType::String | ConcreteDataType::Binary => 0,
    };
    if width == 0 {
        assert(b.skip(1) =~= bytes@.skip(pos + 1));
        match get_escaped(bytes, pos + 1) {
            None => None,
            Some((raw, end)) => {
                proof {
                    lemma_escape_of_unescape(b.skip(1));
                }
                match data_type {
                    ConcreteDataType::String => match string_from_utf8(raw) {
                        Some(s) => Some((Value::String(s), end)),
                        None => None,
                    },
                    _ => Some((Value::Binary(raw), end)),
                }
            },
        }
    } else {
        if len - pos - 1 < width {
            return None;
        }
        let x = get_fixed(bytes, pos + 1, width);
        proof {
            let sub = b.subrange(1, 1 + width as int);
            assert(sub =~= bytes@.subrange(pos + 1, pos + 1 + width));
            lemma_from_be_bound(sub);
            lemma_pow256_values();
        }
        let end = pos + 1 + width;
        match data_type {
            ConcreteDataType::Boolean => if x == 0 {
                Some((Value::Boolean(false), end))
            } else if x == 1 {
                Some((Value::Boolean(true), end))
            } else {
                None
            },
            ConcreteDataType::UInt8 => Some((Value::UInt8(x as u8), end)),
            ConcreteDataType::UInt16 => Some((Value::UInt16(x as u16), end)),
            ConcreteDataType::UInt32 => Some((Value::UInt32(x as u32), end)),
            ConcreteDataType::UInt64 => Some((Value::UInt64(x), end)),
            ConcreteDataType::Int8 => Some((Value::Int8(unshifted(x, 1) as i8), end)),
            ConcreteDataType::Int16 => Some((Value::Int16(unshifted(x, 2) as i16), end)),
            ConcreteDataType::Int32 => Some((Value::Int32(unshifted(x, 4) as i32), end)),
            ConcreteDataType::Int64 => Some((Value::Int64(unshifted(x, 8)), end)),
            ConcreteDataType::Float64 => Some((Value::Float64(unranked(x)), end)),
            ConcreteDataType::Date => Some((Value::Date(unshifted(x, 4) as i32), end)),
            ConcreteDataType::DateTime => Some((Value::DateTime(unshifted(x, 8)), end)),
            ConcreteDataType::Timestamp => Some((Value::Timestamp(unshifted(x, 8)), end)),
            _ => None,
        }
    }
}

/// Every value of `row` fits the field of `fields` at its position, and the
/// two have the same length.
pub open spec fn row_fits(fields: Seq<ConcreteDataType>, row: Seq<ValueView>) -> bool {
    row.len() == fields.len() && forall|i: int|
        0 <= i < row.len() ==> (#[trigger] row[i]).fits(fields[i])
}

/// `bytes` starts with the encoding of a row of `fields`.
pub open spec fn decodable(fields: Seq<ConcreteDataType>, bytes: Seq<u8>) -> bool {
    exists|row: Seq<ValueView>| row_fits(fields, row) && is_prefix(encode_row(row), bytes)
}

/// The order of rows: at the first field in which they differ, `a` holds the
/// lesser value.
pub open spec fn row_lt(a: Seq<ValueView>, b: Seq<ValueView>) -> bool {
    exists|k: int|
        0 <= k < a.len() && k < b.len() && a.take(k) == b.take(k) && value_lt(
            #[trigger] a[k],
            b[k],
        )
}

/// The encoding of two rows put together is their encodings put together.
pub proof fn lemma_encode_row_concat(a: Seq<ValueView>, b: Seq<ValueView>)
    ensures
        encode_row(a + b) == encode_row(a) + encode_row(b),
    decreases b.len(),
{
    if b.len() == 0 {
        assert(a + b =~= a);
        assert(encode_row(a) + encode_row(b) =~= encode_row(a));
    } else {
        let c = a + b;
        assert(c.drop_last() =~= a + b.drop_last());
        assert(c.last() == b.last());
        lemma_encode_row_concat(a, b.drop_last());
        assert(encode_row(c) =~= encode_row(a) + encode_row(b));
    }
}

/// The encoding of a row of one value is the encoding of the value.
pub proof fn lemma_encode_row_single(v: ValueView)
    ensures
        encode_row(seq![v]) == encode_value(v),
{
    let r = seq![v];
    assert(r.drop_last() =~= Seq::<ValueView>::empty());
    assert(encode_row(r.drop_last()) =~= Seq::<u8>::empty());
    assert(encode_row(r) =~= encode_value(v));
}

/// A row's encoding cut into the part before field `k`, field `k`, and the
/// part behind it.
pub proof fn lemma_encode_row_split(row: Seq<ValueView>, k: int)
    requires
        0 <= k < row.len(),
    ensures
        encode_row(row) == encode_row(row.take(k)) + encode_value(row[k]) + encode_row(
            row.skip(k + 1),
        ),
{
    let head = row.take(k);
    let mid = seq![row[k]];
    let tail = row.skip(k + 1);
    assert(row =~= head + mid + tail);
    lemma_encode_row_concat(head + mid, tail);
    lemma_encode_row_concat(head, mid);
    lemma_encode_row_single(row[k]);
}

/// No value is less than itself.
pub proof fn lemma_value_lt_irreflexive(a: ValueView)
    ensures
        !value_lt(a, a),
{
    match a {
        ValueView::String(x) => {
            if lex_lt(encode_utf8(x), encode_utf8(x)) {
                lemma_lex_asymmetric(encode_utf8(x), encode_utf8(x));
            }
        },
        ValueView::Binary(x) => {
            if lex_lt(x, x) {
                lemma_lex_asymmetric(x, x);
            }
        },
        _ => {},
    }
}

/// Two rows of equal length that differ have a first field in which they
/// differ.
proof fn lemma_first_difference(a: Seq<ValueView>, b: Seq<ValueView>, from: int) -> (k: int)
    requires
        a.len() == b.len(),
        a != b,
        0 <= from <= a.len(),
        a.take(from) == b.take(from),
    ensures
        from <= k < a.len(),
        a.take(k) == b.take(k),
        a[k] != b[k],
    decreases a.len() - from,
{
    if from == a.len() {
        assert(a.take(from) =~= a);
        assert(b.take(from) =~= b);
        from
    } else if a[from] != b[from] {
        from
    } else {
        assert(a.take(from + 1) =~= a.take(from).push(a[from]));
        assert(b.take(from + 1) =~= b.take(from).push(b[from]));
        lemma_first_difference(a, b, from + 1)
    }
}

/// Order preservation and prefix freedom of rows: the encodings of two
/// different rows of the same fields diverge, and they order as the rows do,
/// compared field by field.
pub proof fn lemma_encode_row_order(
    fields: Seq<ConcreteDataType>,
    a: Seq<ValueView>,
    b: Seq<ValueView>,
)
    requires
        row_fits(fields, a),
        row_fits(fields, b),
        a != b,
    ensures
        diverge(encode_row(a), encode_row(b)),
        lex_lt(encode_row(a), encode_row(b)) == row_lt(a, b),
{
    assert(a.take(0) =~= b.take(0));
    let k = lemma_first_difference(a, b, 0);
    lemma_encode_row_split(a, k);
    lemma_encode_row_split(b, k);
    let front = encode_row(a.take(k));
    let ea = encode_value(a[k]);
    let eb = encode_value(b[k]);
    let ta = encode_row(a.skip(k + 1));
    let tb = encode_row(b.skip(k + 1));
    lemma_encode_value_order(fields[k], a[k], b[k]);
    lemma_lex_diverge_extend(ea, eb, ta, tb);
    lemma_lex_common_front(front, ea + ta, eb + tb);
    lemma_diverge_common_front(front, ea + ta, eb + tb);
    assert(encode_row(a) =~= front + (ea + ta));
    assert(encode_row(b) =~= front + (eb + tb));
    if row_lt(a, b) {
        let j = choose|j: int|
            0 <= j < a.len() && j < b.len() && a.take(j) == b.take(j) && value_lt(
                #[trigger] a[j],
                b[j],
            );
        lemma_value_lt_irreflexive(a[j]);
        if j < k {
            assert(a.take(k)[j] == b.take(k)[j]);
        } else if k < j {
            assert(a.take(j)[k] == b.take(j)[k]);
        }
    }
}

/// Two rows whose values fit the same fields, and whose encodings both begin
/// `bytes`, are the same row.
pub proof fn lemma_rows_agree(
    fields: Seq<ConcreteDataType>,
    r1: Seq<ValueView>,
    r2: Seq<ValueView>,
    bytes: Seq<u8>,
)
    requires
        r1.len() == r2.len(),
        row_fits(fields.take(r1.len() as int), r1),
        row_fits(fields.take(r1.len() as int), r2),
        r1.len() <= fields.len(),
        is_prefix(encode_row(r1), bytes),
        is_prefix(encode_row(r2), bytes),
    ensures
        r1 == r2,
{
    if r1 != r2 {
        let f = fields.take(r1.len() as int);
        lemma_encode_row_order(f, r1, r2);
        let e1 = encode_row(r1);
        let e2 = encode_row(r2);
        let k = choose|k: int|
            agree_before(e1, e2, k) && k < e1.len() && k < e2.len() && e1[k] != e2[k];
        assert(e1[k] == bytes[k]);
        assert(e2[k] == bytes[k]);
    }
}

/// Whatever a row of `fields` `bytes` begins with, it is the only one.
pub proof fn lemma_decode_unique(
    fields: Seq<ConcreteDataType>,
    r1: Seq<ValueView>,
    r2: Seq<ValueView>,
    bytes: Seq<u8>,
)
    requires
        row_fits(fields, r1),
        row_fits(fields, r2),
        is_prefix(encode_row(r1), bytes),
        is_prefix(encode_row(r2), bytes),
    ensures
        r1 == r2,
{
    assert(fields.take(fields.len() as int) =~= fields);
    lemma_rows_agree(fields, r1, r2, bytes);
}

/// Round trip: what follows the encoding of a row does not matter, the
/// bytes begin with a row of the fields, and the only row that they begin
/// with is the row that was encoded. So decoding an encoded row gives the
/// row back.
pub proof fn lemma_round_trip(
    fields: Seq<ConcreteDataType>,
    row: Seq<ValueView>,
    rest: Seq<u8>,
    decoded: Seq<ValueView>,
)
    requires
        row_fits(fields, row),
        row_fits(fields, decoded),
        is_prefix(encode_row(decoded), encode_row(row) + rest),
    ensures
        decodable(fields, encode_row(row) + rest),
        decoded == row,
{
    let bytes = encode_row(row) + rest;
    assert(is_prefix(encode_row(row), bytes));
    lemma_decode_unique(fields, decoded, row, bytes);
}

/// Order preservation of single values: of two values of one column, the
/// lesser has the lesser key.
pub proof fn lemma_encode_single_order(data_type: ConcreteDataType, a: ValueView, b: ValueView)
    requires
        a.fits(data_type),
        b.fits(data_type),
        value_lt(a, b),
    ensures
        lex_lt(encode_row(seq![a]), encode_row(seq![b])),
{
    lemma_value_lt_irreflexive(a);
    lemma_encode_value_order(data_type, a, b);
    lemma_encode_row_single(a);
    lemma_encode_row_single(b);
}

/// Prefix freedom of single values: of two different values of one column,
/// the key of neither is the beginning of the key of the other.
pub proof fn lemma_encode_single_prefix_free(
    data_type: ConcreteDataType,
    a: ValueView,
    b: ValueView,
)
    requires
        a.fits(data_type),
        b.fits(data_type),
        a != b,
    ensures
        !is_prefix(encode_row(seq![a]), encode_row(seq![b])),
        !is_prefix(encode_row(seq![b]), encode_row(seq![a])),
{
    lemma_encode_value_order(data_type, a, b);
    lemma_encode_row_single(a);
    lemma_encode_row_single(b);
}

/// Where the first `i` fields have been read from `bytes` up to `pos`, and no
/// field `i` starts there, `bytes` does not begin with a row of `fields`.
proof fn lemma_undecodable(
    fields: Seq<ConcreteDataType>,
    bytes: Seq<u8>,
    read: Seq<ValueView>,
    pos: int,
)
    requires
        read.len() < fields.len(),
        row_fits(fields.take(read.len() as int), read),
        0 <= pos <= bytes.len(),
        encode_row(read) == bytes.take(pos),
        parse_value(fields[read.len() as int], bytes.skip(pos)) is None,
    ensures
        !decodable(fields, bytes),
{
    if decodable(fields, bytes) {
        let row = choose|row: Seq<ValueView>|
            row_fits(fields, row) && is_prefix(encode_row(row), bytes);
        let i = read.len() as int;
        let head = row.take(i);
        lemma_encode_row_split(row, i);
        let eh = encode_row(head);
        let ev = encode_value(row[i]);
        let et = encode_row(row.skip(i + 1));
        let whole = encode_row(row);
        assert forall|j: int| 0 <= j < eh.len() implies eh[j] == bytes[j] by {
            assert(whole[j] == eh[j]);
        }
        assert(is_prefix(eh, bytes));
        assert(is_prefix(encode_row(read), bytes));
        assert(row_fits(fields.take(i), head));
        lemma_rows_agree(fields, head, read, bytes);
        assert(eh.len() == pos);
        let rest = bytes.skip(pos + ev.len());
        assert forall|j: int| 0 <= j < ev.len() implies ev[j] == bytes[pos + j] by {
            assert(whole[pos + j] == ev[j]);
        }
        assert(bytes.skip(pos) =~= ev + rest);
        lemma_parse_of_encode(fields[i], row[i], rest);
    }
}

/// A decoding failure, and the two ways in which a row can fail to be
/// encoded.
#[derive(Debug, Clone, Copy, PartialEq, Eq, Structural)]
pub enum CodecError {
    /// The bytes do not begin with the encoding of a row of the codec's
    /// fields.
    Malformed,
    /// The row does not have as many values as the codec has fields, or a
    /// field was asked for that the row does not have.
    FieldCount,
    /// A value of the row does not fit its field.
    TypeMismatch,
}

/// One field of a key: the type of its values.
#[derive(Debug, Clone, Copy, PartialEq, Eq, Structural)]
pub struct SortField {
    pub data_type: ConcreteDataType,
}

impl SortField {
    pub fn new(data_type: ConcreteDataType) -> (r: Self)
        ensures
            r.data_type == data_type,
    {
        SortField { data_type }
    }
}

/// The codec of the keys of a fixed list of fields.
#[derive(Debug, PartialEq, Eq)]
pub struct McmpRowCodec {
    fields: Vec<SortField>,
}

impl View for McmpRowCodec {
    type V = Seq<ConcreteDataType>;

    /// The types of the codec's fields, in their order.
    closed spec fn view(&self) -> Seq<ConcreteDataType> {
        self.fields@.map_values(|f: SortField| f.data_type)
    }
}

impl Clone for McmpRowCodec {
    fn clone(&self) -> (r: Self)
        ensures
            r@ == self@,
    {
        Self { fields: slice_to_vec(self.fields.as_slice()) }
    }
}

impl McmpRowCodec {
    pub fn new(fields: Vec<SortField>) -> (r: Self)
        ensures
            r@ == fields@.map_values(|f: SortField| f.data_type),
    {
        McmpRowCodec { fields }
    }

    /// The number of fields.
    pub fn num_fields(&self) -> (n: usize)
        ensures
            n == self@.len(),
    {
        self.fields.len()
    }

    /// Encodes `row`. Fails with [`CodecError::FieldCount`] where the row has
    /// not one value for each field, and with [`CodecError::TypeMismatch`]
    /// where it has, but a value does not fit its field.
    pub fn encode(&self, row: &[Value]) -> (r: Result<Vec<u8>, CodecError>)
        ensures
            match r {
                Ok(key) => row_fits(self@, row_view(row@)) && key@ == encode_row(row_view(row@)),
                Err(e) => !row_fits(self@, row_view(row@)) && e == (if row@.len() != self@.len() {
                    CodecError::FieldCount
                } else {
                    CodecError::TypeMismatch
                }),
            },
    {
        let n = self.fields.len();
        if row.len() != n {
            return Err(CodecError::FieldCount);
        }
        let ghost views = row_view(row@);
        let mut out: Vec<u8> = Vec::new();
        let mut i: usize = 0;
        assert(views.take(0) =~= Seq::<ValueView>::empty());
        while i < n
            invariant
                i <= n,
                n == self.fields@.len(),
                n == row@.len(),
                views == row_view(row@),
                forall|j: int| 0 <= j < i ==> (#[trigger] views[j]).fits(self@[j]),
                out@ == encode_row(views.take(i as int)),
            decreases n - i,
        {
            let ok = put_value(&mut out, self.fields[i].data_type, &row[i]);
            if !ok {
                assert(!views[i as int].fits(self@[i as int]));
                return Err(CodecError::TypeMismatch);
            }
            proof {
                let next = views.take(i + 1);
                assert(next.drop_last() =~= views.take(i as int));
                assert(next.last() == row@[i as int]@);
            }
            i += 1;
        }
        assert(views.take(n as int) =~= views);
        Ok(out)
    }

    /// Decodes the row that `bytes` begins with; what follows the row is not
    /// read. Fails with [`CodecError::Malformed`] where `bytes` does not
    /// begin with the encoding of a row of the codec's fields.
    pub fn decode(&self, bytes: &[u8]) -> (r: Result<Vec<Value>, CodecError>)
        ensures
            match r {
                Ok(row) => row_fits(self@, row_view(row@)) && is_prefix(
                    encode_row(row_view(row@)),
                    bytes@,
                ),
                Err(e) => e == CodecError::Malformed && !decodable(self@, bytes@),
            },
    {
        let n = self.fields.len();
        let mut row: Vec<Value> = Vec::new();
        let mut pos: usize = 0;
        let mut i: usize = 0;
        assert(row_view(row@) =~= Seq::<ValueView>::empty());
        assert(bytes@.take(0) =~= Seq::<u8>::empty());
        while i < n
            invariant
                i <= n,
                n == self.fields@.len(),
                pos <= bytes@.len(),
                row@.len() == i,
                row_fits(self@.take(i as int), row_view(row@)),
                encode_row(row_view(row@)) == bytes@.take(pos as int),
            decreases n - i,
        {
            let data_type = self.fields[i].data_type;
            match get_value(data_type, bytes, pos) {
                None => {
                    proof {
                        lemma_undecodable(self@, bytes@, row_view(row@), pos as int);
                    }
                    return Err(CodecError::Malformed);
                },
                Some((v, end)) => {
                    proof {
                        lemma_encode_of_parse(data_type, bytes@.skip(pos as int));
                        let before = row_view(row@);
                        let after = row_view(row@.push(v));
                        assert(after =~= before.push(v@));
                        assert(after.drop_last() =~= before);
                        assert(bytes@.take(end as int) =~= bytes@.take(pos as int) + bytes@.skip(
                            pos as int,
                        ).take(end - pos));
                        assert(row_fits(self@.take(i + 1), after));
                    }
                    row.push(v);
                    pos = end;
                },
            }
            i += 1;
        }
        assert(self@.take(n as int) =~= self@);
        Ok(row)
    }
}

} // verus!
