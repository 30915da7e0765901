//! The half-open key range `[p, prefix_end(p))` that holds exactly the byte
//! strings starting with `p`.

use vstd::prelude::*;
use crate::byte_order::{is_prefix, less_at, lex_le, lex_lt, lemma_lex_asymmetric, lemma_lex_total};

verus! {

/// Position of the last byte of `p` below `0xFF`, or `-1` where `p` has none.
pub open spec fn last_below_max(p: Seq<u8>) -> int
    decreases p.len(),
{
    if p.len() == 0 {
        -1
    } else if p.last() < 0xFF {
        p.len() - 1
    } else {
        last_below_max(p.drop_last())
    }
}

/// The exclusive upper bound of the range of strings that start with `p`:
/// `p` cut after its last byte below `0xFF`, with that byte raised by one.
/// There is none where `p` is empty or holds `0xFF` only.
pub open spec fn prefix_end(p: Seq<u8>) -> Option<Seq<u8>> {
    let i = last_below_max(p);
    if i < 0 {
        None
    } else {
        Some(p.take(i).push((p[i] + 1) as u8))
    }
}

/// What `last_below_max` finds: a byte below `0xFF` followed by `0xFF` only,
/// or nothing in a string of `0xFF` only.
pub proof fn lemma_last_below_max(p: Seq<u8>)
    ensures
        -1 <= last_below_max(p) < p.len(),
        last_below_max(p) >= 0 ==> p[last_below_max(p)] < 0xFF,
        forall|j: int| last_below_max(p) < j < p.len() ==> p[j] == 0xFF,
    decreases p.len(),
{
    if p.len() > 0 && p.last() == 0xFF {
        let q = p.drop_last();
        lemma_last_below_max(q);
        assert forall|j: int| last_below_max(p) < j < p.len() implies p[j] == 0xFF by {
            if j < q.len() {
                assert(q[j] == p[j]);
            }
        }
    }
}

/// A byte below `0xFF` at `i` with `0xFF` only behind it is the one that
/// `last_below_max` finds.
proof fn lemma_last_below_max_is(p: Seq<u8>, i: int)
    requires
        -1 <= i < p.len(),
        i >= 0 ==> p[i] < 0xFF,
        forall|j: int| i < j < p.len() ==> p[j] == 0xFF,
    ensures
        last_below_max(p) == i,
    decreases p.len(),
{
    if p.len() > 0 && i < p.len() - 1 {
        let q = p.drop_last();
        assert(p.last() == 0xFF);
        assert(i >= 0 ==> q[i] == p[i]);
        lemma_last_below_max_is(q, i);
    }
}

/// Computes the exclusive upper bound of the keys that start with `key`, or
/// `None` where every key that starts with `key` has a greater one that does
/// so too (an empty `key`, or one of `0xFF` bytes only).
pub fn get_prefix_end_key(key: &[u8]) -> (end: Option<Vec<u8>>)
    ensures
        match end {
            Some(v) => prefix_end(key@) == Some(v@),
            None => prefix_end(key@) is None,
        },
{
    let mut i: usize = key.len();
    while i > 0
        invariant
            i <= key@.len(),
            forall|j: int| i <= j < key@.len() ==> key@[j] == 0xFF,
        decreases i,
    {
        i -= 1;
        if key[i] < 0xFF {
            let mut end: Vec<u8> = Vec::new();
            let mut j: usize = 0;
            while j < i
                invariant
                    j <= i < key@.len(),
                    end@ == key@.take(j as int),
                decreases i - j,
            {
                end.push(key[j]);
                j += 1;
                assert(end@ =~= key@.take(j as int));
            }
            end.push(key[i] + 1);
            proof {
                lemma_last_below_max_is(key@, i as int);
            }
            return Some(end);
        }
    }
    proof {
        lemma_last_below_max_is(key@, -1);
    }
    None
}

/// Prefix-end correctness: where `p` has a bound, the strings from `p`
/// inclusive to `prefix_end(p)` exclusive are exactly those that start
/// with `p`.
pub proof fn lemma_prefix_range_exact(p: Seq<u8>, q: Seq<u8>)
    requires
        prefix_end(p) is Some,
    ensures
        is_prefix(p, q) <==> lex_le(p, q) && lex_lt(q, prefix_end(p).unwrap()),
{
    let i = last_below_max(p);
    let e = prefix_end(p).unwrap();
    lemma_last_below_max(p);
    assert(e.len() == i + 1);
    assert(e[i] == p[i] + 1);
    assert forall|j: int| 0 <= j < i implies e[j] == p[j] by {}
    if is_prefix(p, q) {
        if p.len() < q.len() {
            assert(lex_lt(p, q));
        } else {
            assert(p =~= q);
        }
        assert(q[i] == p[i]);
        assert(less_at(q, e, i));
    }
    if lex_le(p, q) && lex_lt(q, e) {
        if p != q && !(is_prefix(p, q) && p.len() < q.len()) {
            let k = choose|k: int| less_at(p, q, k);
            if is_prefix(q, e) && q.len() < e.len() {
                assert(q[k] == e[k]);
                assert(e[k] == p[k]);
            } else {
                let m = choose|m: int| less_at(q, e, m);
                if m < k {
                    assert(p[m] == q[m]);
                } else if k < m {
                    assert(q[k] == e[k]);
                    if k < i {
                        assert(e[k] == p[k]);
                    }
                } else {
                    if k < i {
                        assert(e[k] == p[k]);
                    }
                }
            }
        }
    }
}

/// No finite bound: where `prefix_end(p)` is `None`, whatever `u` is proposed
/// as an upper bound, some string that starts with `p` lies above it.
pub proof fn lemma_no_prefix_end_unbounded(p: Seq<u8>, u: Seq<u8>) -> (q: Seq<u8>)
    requires
        prefix_end(p) is None,
    ensures
        is_prefix(p, q),
        lex_lt(u, q),
{
    lemma_last_below_max(p);
    let q = Seq::new(p.len() + u.len() + 1, |i: int| 0xFFu8);
    assert(is_prefix(p, q));
    lemma_lex_total(u, q);
    if lex_lt(q, u) {
        lemma_lex_asymmetric(q, u);
        if !(is_prefix(q, u) && q.len() < u.len()) {
            let k = choose|k: int| less_at(q, u, k);
            assert(q[k] == 0xFF);
        }
    }
    q
}

} // verus!
