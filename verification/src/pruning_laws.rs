//! What the rewriting of filters into key ranges rests on: a filter that is
//! rewritten holds of the same rows as before, so that whatever is dropped,
//! the rows that satisfy all filters still satisfy what is left.

use vstd::prelude::*;
use crate::byte_order::{is_prefix, lex_le, lex_lt, lemma_lex_diverge_extend};
use crate::datatypes::{ConcreteDataType, ValueView};
use crate::expr::{ExprView, Operator, ScalarView};
use crate::key_encoding::escape;
use crate::metadata::RegionMetadataView;
use crate::page_prune::{
    and_all, compares_column, conjoin, eq_string_literal, filter_exprs, filter_one, key_column,
    key_range_expr, left_column, rewritten, string_key,
};
use crate::prefix_range::{prefix_end, lemma_prefix_range_exact};
use crate::row_converter::{
    encode_row, encode_value, var_bytes, lemma_encode_row_single, lemma_encode_row_split,
    lemma_encode_value_order,
};

verus! {

/// A stored row, as far as pruning sees it: its encoded primary key and the
/// values of its tag columns.
pub struct RowView {
    pub key: Seq<u8>,
    pub tags: Seq<ValueView>,
}

/// `row` is a row of a region with the metadata `metadata`: its key is the
/// encoding of its tags, and where the region has a first tag column, the
/// row has a first tag, which fits that column.
pub open spec fn is_row_of(row: RowView, metadata: RegionMetadataView) -> bool {
    &&& row.key == encode_row(row.tags)
    &&& match metadata.first_primary_key_column() {
        Some(c) => row.tags.len() > 0 && row.tags[0].fits(c.column_schema.data_type),
        None => true,
    }
}

/// `e` has the form `first tag column = v`, with `v` a string literal.
pub open spec fn first_tag_equals(e: ExprView, metadata: RegionMetadataView) -> Option<
    Seq<char>,
> {
    match metadata.first_primary_key_column() {
        Some(c) => if compares_column(e, c.column_schema.name) {
            eq_string_literal(e)
        } else {
            None
        },
        None => None,
    }
}

/// The bound `b` where `e` has the form `key op b`, with `key` the
/// reference to the encoded primary key and `b` a binary literal.
pub open spec fn key_bound(e: ExprView, metadata: RegionMetadataView, op: Operator) -> Option<
    Seq<u8>,
> {
    match e {
        ExprView::BinaryExpr { left, op: o, right } => match *right {
            ExprView::Literal(ScalarView::Binary(Some(b))) => if o == op && *left == key_column(
                metadata.primary_key_position() as usize,
            ) {
                Some(b)
            } else {
                None
            },
            _ => None,
        },
        _ => None,
    }
}

/// Whether `row` satisfies `e`. A conjunction holds where both sides do, an
/// equality of the first tag column with a string where the row's first tag
/// is that string, and a bound on the encoded key where the row's key keeps
/// it. What any other expression means is left to `base`.
pub open spec fn satisfies(
    e: ExprView,
    row: RowView,
    metadata: RegionMetadataView,
    base: spec_fn(ExprView, RowView) -> bool,
) -> bool
    decreases e,
{
    match e {
        ExprView::BinaryExpr { left, op, right } => if op == Operator::And {
            satisfies(*left, row, metadata, base) && satisfies(*right, row, metadata, base)
        } else if first_tag_equals(e, metadata) is Some {
            row.tags.len() > 0 && row.tags[0] == ValueView::String(
                first_tag_equals(e, metadata).unwrap(),
            )
        } else if key_bound(e, metadata, Operator::GtEq) is Some {
            lex_le(key_bound(e, metadata, Operator::GtEq).unwrap(), row.key)
        } else if key_bound(e, metadata, Operator::Lt) is Some {
            lex_lt(row.key, key_bound(e, metadata, Operator::Lt).unwrap())
        } else {
            base(e, row)
        },
        _ => base(e, row),
    }
}

/// The encoding of a string as the only field of a key ends in a zero byte,
/// so the keys that start with it have an upper bound.
pub proof fn lemma_string_key_has_end(v: Seq<char>)
    ensures
        prefix_end(string_key(v)) is Some,
{
    let value = ValueView::String(v);
    lemma_encode_row_single(value);
    let raw = var_bytes(value);
    lemma_escape_ends_in_zero(raw);
    let key = string_key(v);
    assert(key == seq![1u8] + escape(raw));
    assert(key.last() == 0);
}

/// An escaped string ends in a zero byte.
proof fn lemma_escape_ends_in_zero(s: Seq<u8>)
    ensures
        escape(s).len() >= 2,
        escape(s).last() == 0,
    decreases s.len(),
{
    if s.len() > 0 {
        lemma_escape_ends_in_zero(s.skip(1));
    }
}

/// Rewrite soundness on keys: the range from the encoding of the string `v`
/// to its prefix end holds the key of every row whose first tag is `v`, and
/// of no row whose first tag is another string or a null.
pub proof fn lemma_key_range_is_first_tag(v: Seq<char>, tags: Seq<ValueView>)
    requires
        tags.len() > 0,
        tags[0].fits(ConcreteDataType::String),
    ensures
        prefix_end(string_key(v)) is Some,
        (lex_le(string_key(v), encode_row(tags)) && lex_lt(
            encode_row(tags),
            prefix_end(string_key(v)).unwrap(),
        )) <==> tags[0] == ValueView::String(v),
{
    let lower = string_key(v);
    let key = encode_row(tags);
    let value = ValueView::String(v);
    lemma_string_key_has_end(v);
    lemma_prefix_range_exact(lower, key);
    lemma_encode_row_single(value);
    lemma_encode_row_split(tags, 0);
    assert(tags.take(0) =~= Seq::<ValueView>::empty());
    let first = encode_value(tags[0]);
    let rest = encode_row(tags.skip(1));
    assert(key =~= first + rest);
    if tags[0] == value {
        assert(is_prefix(lower, key));
    } else {
        lemma_encode_value_order(ConcreteDataType::String, value, tags[0]);
        lemma_lex_diverge_extend(lower, first, Seq::empty(), rest);
    }
}

/// Rewrite soundness: a row satisfies what an equality on the first tag
/// column was rewritten to exactly where it satisfies the equality.
pub proof fn lemma_rewrite_sound(
    e: ExprView,
    row: RowView,
    metadata: RegionMetadataView,
    base: spec_fn(ExprView, RowView) -> bool,
)
    requires
        is_row_of(row, metadata),
        metadata.first_primary_key_column() matches Some(c) && compares_column(
            e,
            c.column_schema.name,
        ),
        rewritten(e, metadata) is Some,
    ensures
        satisfies(rewritten(e, metadata).unwrap(), row, metadata, base) == satisfies(
            e,
            row,
            metadata,
            base,
        ),
{
    let v = eq_string_literal(e).unwrap();
    let lower = string_key(v);
    let upper = prefix_end(lower).unwrap();
    let position = metadata.primary_key_position() as usize;
    let r = key_range_expr(position, lower, upper);
    lemma_key_range_is_first_tag(v, row.tags);
    let low = ExprView::BinaryExpr {
        left: Box::new(key_column(position)),
        op: Operator::GtEq,
        right: Box::new(ExprView::Literal(ScalarView::Binary(Some(lower)))),
    };
    let high = ExprView::BinaryExpr {
        left: Box::new(key_column(position)),
        op: Operator::Lt,
        right: Box::new(ExprView::Literal(ScalarView::Binary(Some(upper)))),
    };
    assert(first_tag_equals(low, metadata) is None);
    assert(first_tag_equals(high, metadata) is None);
    assert(key_bound(low, metadata, Operator::GtEq) == Some(lower));
    assert(key_bound(high, metadata, Operator::GtEq) is None);
    assert(key_bound(high, metadata, Operator::Lt) == Some(upper));
    assert(satisfies(low, row, metadata, base) == lex_le(lower, row.key));
    assert(satisfies(high, row, metadata, base) == lex_lt(row.key, upper));
    assert(satisfies(r, row, metadata, base) == (satisfies(low, row, metadata, base)
        && satisfies(high, row, metadata, base)));
    assert(first_tag_equals(e, metadata) == Some(v));
}

/// What is left of one filter holds of every row that the filter holds of.
pub proof fn lemma_filter_one_implied(
    e: ExprView,
    row: RowView,
    metadata: RegionMetadataView,
    base: spec_fn(ExprView, RowView) -> bool,
)
    requires
        is_row_of(row, metadata),
        satisfies(e, row, metadata, base),
        filter_one(e, metadata) is Some,
    ensures
        satisfies(filter_one(e, metadata).unwrap(), row, metadata, base),
{
    if filter_one(e, metadata).unwrap() != e {
        lemma_rewrite_sound(e, row, metadata, base);
    }
}

/// Each filter that is left comes from one of the candidates.
pub proof fn lemma_filter_exprs_origin(exprs: Seq<ExprView>, metadata: RegionMetadataView, j: int)
    -> (i: int)
    requires
        0 <= j < filter_exprs(exprs, metadata).len(),
    ensures
        0 <= i < exprs.len(),
        filter_one(exprs[i], metadata) == Some(filter_exprs(exprs, metadata)[j]),
    decreases exprs.len(),
{
    let front = filter_exprs(exprs.drop_last(), metadata);
    if j < front.len() {
        lemma_filter_exprs_origin(exprs.drop_last(), metadata, j)
    } else {
        exprs.len() - 1
    }
}

/// Dropping is safe: a row that satisfies every candidate satisfies every
/// filter that is left, whatever was rewritten and whatever was dropped.
pub proof fn lemma_filter_implied(
    exprs: Seq<ExprView>,
    row: RowView,
    metadata: RegionMetadataView,
    base: spec_fn(ExprView, RowView) -> bool,
)
    requires
        is_row_of(row, metadata),
        forall|i: int| 0 <= i < exprs.len() ==> satisfies(#[trigger] exprs[i], row, metadata, base),
    ensures
        forall|j: int|
            0 <= j < filter_exprs(exprs, metadata).len() ==> satisfies(
                #[trigger] filter_exprs(exprs, metadata)[j],
                row,
                metadata,
                base,
            ),
{
    let out = filter_exprs(exprs, metadata);
    assert forall|j: int| 0 <= j < out.len() implies satisfies(
        #[trigger] out[j],
        row,
        metadata,
        base,
    ) by {
        let i = lemma_filter_exprs_origin(exprs, metadata, j);
        lemma_filter_one_implied(exprs[i], row, metadata, base);
    }
}

/// A row satisfies `acc AND rest[0] AND ...` exactly where it satisfies
/// `acc` and each of `rest`.
pub proof fn lemma_and_all_satisfies(
    acc: ExprView,
    rest: Seq<ExprView>,
    row: RowView,
    metadata: RegionMetadataView,
    base: spec_fn(ExprView, RowView) -> bool,
)
    ensures
        satisfies(and_all(acc, rest), row, metadata, base) <==> satisfies(
            acc,
            row,
            metadata,
            base,
        ) && forall|i: int|
            0 <= i < rest.len() ==> satisfies(#[trigger] rest[i], row, metadata, base),
    decreases rest.len(),
{
    if rest.len() > 0 {
        let front = rest.drop_last();
        lemma_and_all_satisfies(acc, front, row, metadata, base);
        let whole = and_all(acc, rest);
        assert(satisfies(whole, row, metadata, base) == (satisfies(
            and_all(acc, front),
            row,
            metadata,
            base,
        ) && satisfies(rest.last(), row, metadata, base)));
        if satisfies(whole, row, metadata, base) {
            assert forall|i: int| 0 <= i < rest.len() implies satisfies(
                #[trigger] rest[i],
                row,
                metadata,
                base,
            ) by {
                if i < front.len() {
                    assert(front[i] == rest[i]);
                }
            }
        }
        if satisfies(acc, row, metadata, base) && forall|i: int|
            0 <= i < rest.len() ==> satisfies(#[trigger] rest[i], row, metadata, base) {
            assert forall|i: int| 0 <= i < front.len() implies satisfies(
                #[trigger] front[i],
                row,
                metadata,
                base,
            ) by {
                assert(front[i] == rest[i]);
            }
        }
    }
}

/// A row satisfies the conjunction of filters exactly where it satisfies
/// each of them.
pub proof fn lemma_conjoin_satisfies(
    exprs: Seq<ExprView>,
    row: RowView,
    metadata: RegionMetadataView,
    base: spec_fn(ExprView, RowView) -> bool,
)
    requires
        exprs.len() > 0,
    ensures
        satisfies(conjoin(exprs), row, metadata, base) <==> forall|i: int|
            0 <= i < exprs.len() ==> satisfies(#[trigger] exprs[i], row, metadata, base),
{
    let front = exprs.drop_last();
    lemma_and_all_satisfies(exprs.last(), front, row, metadata, base);
    if satisfies(conjoin(exprs), row, metadata, base) {
        assert forall|i: int| 0 <= i < exprs.len() implies satisfies(
            #[trigger] exprs[i],
            row,
            metadata,
            base,
        ) by {
            if i < front.len() {
                assert(front[i] == exprs[i]);
            }
        }
    }
    if forall|i: int| 0 <= i < exprs.len() ==> satisfies(#[trigger] exprs[i], row, metadata, base) {
        assert forall|i: int| 0 <= i < front.len() implies satisfies(
            #[trigger] front[i],
            row,
            metadata,
            base,
        ) by {
            assert(front[i] == exprs[i]);
        }
    }
}

/// The predicate that pages are pruned by never excludes a row of the
/// result: a row that satisfies every filter of the scan satisfies it.
pub proof fn lemma_pruning_predicate_implied(
    exprs: Seq<ExprView>,
    row: RowView,
    metadata: RegionMetadataView,
    base: spec_fn(ExprView, RowView) -> bool,
)
    requires
        is_row_of(row, metadata),
        forall|i: int| 0 <= i < exprs.len() ==> satisfies(#[trigger] exprs[i], row, metadata, base),
        filter_exprs(exprs, metadata).len() > 0,
    ensures
        satisfies(conjoin(filter_exprs(exprs, metadata)), row, metadata, base),
{
    lemma_filter_implied(exprs, row, metadata, base);
    lemma_conjoin_satisfies(filter_exprs(exprs, metadata), row, metadata, base);
}

/// What is left of a filter is left as it is when filtered again.
pub proof fn lemma_filter_one_fixed(e: ExprView, metadata: RegionMetadataView)
    requires
        filter_one(e, metadata) is Some,
    ensures
        filter_one(filter_one(e, metadata).unwrap(), metadata) == filter_one(e, metadata),
{
    let r = filter_one(e, metadata).unwrap();
    if r != e {
        assert(left_column(r) is None);
    }
}

/// A list of filters that are each left as they are is left as it is.
proof fn lemma_filter_exprs_fixed(exprs: Seq<ExprView>, metadata: RegionMetadataView)
    requires
        forall|i: int|
            0 <= i < exprs.len() ==> filter_one(#[trigger] exprs[i], metadata) == Some(exprs[i]),
    ensures
        filter_exprs(exprs, metadata) == exprs,
    decreases exprs.len(),
{
    if exprs.len() > 0 {
        let front = exprs.drop_last();
        assert forall|i: int| 0 <= i < front.len() implies filter_one(
            #[trigger] front[i],
            metadata,
        ) == Some(front[i]) by {
            assert(front[i] == exprs[i]);
        }
        lemma_filter_exprs_fixed(front, metadata);
        assert(filter_one(exprs.last(), metadata) == Some(exprs.last()));
        assert(front.push(exprs.last()) =~= exprs);
    }
}

/// Idempotence of the filter: filtering what was filtered changes nothing.
pub proof fn lemma_filter_idempotent(exprs: Seq<ExprView>, metadata: RegionMetadataView)
    ensures
        filter_exprs(filter_exprs(exprs, metadata), metadata) == filter_exprs(exprs, metadata),
{
    let out = filter_exprs(exprs, metadata);
    assert forall|j: int| 0 <= j < out.len() implies filter_one(#[trigger] out[j], metadata)
        == Some(out[j]) by {
        let i = lemma_filter_exprs_origin(exprs, metadata, j);
        lemma_filter_one_fixed(exprs[i], metadata);
    }
    lemma_filter_exprs_fixed(out, metadata);
}

} // verus!
