//! Unsigned lexicographic order on byte strings, the order in which encoded
//! keys are compared by page statistics.

use vstd::prelude::*;

verus! {

/// `p` is a prefix of `q`.
pub open spec fn is_prefix(p: Seq<u8>, q: Seq<u8>) -> bool {
    p.len() <= q.len() && forall|i: int| 0 <= i < p.len() ==> p[i] == q[i]
}

/// `a` and `b` agree on their first `k` bytes.
pub open spec fn agree_before(a: Seq<u8>, b: Seq<u8>, k: int) -> bool {
    0 <= k <= a.len() && k <= b.len() && forall|i: int| 0 <= i < k ==> a[i] == b[i]
}

/// `k` is the first position at which `a` and `b` differ, and `a` holds the
/// smaller byte there.
pub open spec fn less_at(a: Seq<u8>, b: Seq<u8>, k: int) -> bool {
    agree_before(a, b, k) && k < a.len() && k < b.len() && a[k] < b[k]
}

/// Strict lexicographic order: `a` is a proper prefix of `b`, or at the first
/// difference `a` holds the smaller byte.
pub open spec fn lex_lt(a: Seq<u8>, b: Seq<u8>) -> bool {
    (is_prefix(a, b) && a.len() < b.len()) || exists|k: int| less_at(a, b, k)
}

/// Non-strict lexicographic order.
pub open spec fn lex_le(a: Seq<u8>, b: Seq<u8>) -> bool {
    a == b || lex_lt(a, b)
}

/// Neither string is a prefix of the other: they differ at a position that
/// both have.
pub open spec fn diverge(a: Seq<u8>, b: Seq<u8>) -> bool {
    exists|k: int| agree_before(a, b, k) && k < a.len() && k < b.len() && a[k] != b[k]
}

/// Two strings that agree on their first `k` bytes are equal or ordered one
/// way or the other.
proof fn lemma_total_from(a: Seq<u8>, b: Seq<u8>, k: int)
    requires
        agree_before(a, b, k),
    ensures
        lex_lt(a, b) || a == b || lex_lt(b, a),
    decreases a.len() - k,
{
    if k == a.len() {
        if k == b.len() {
            assert(a =~= b);
        } else {
            assert(is_prefix(a, b));
        }
    } else if k == b.len() {
        assert(is_prefix(b, a));
    } else if a[k] == b[k] {
        lemma_total_from(a, b, k + 1);
    } else if a[k] < b[k] {
        assert(less_at(a, b, k));
    } else {
        assert(less_at(b, a, k));
    }
}

/// The order is total: of `a < b`, `a == b` and `b < a` at least one holds.
pub proof fn lemma_lex_total(a: Seq<u8>, b: Seq<u8>)
    ensures
        lex_lt(a, b) || a == b || lex_lt(b, a),
{
    lemma_total_from(a, b, 0);
}

/// The order is strict: `a < b` excludes both `a == b` and `b < a`.
pub proof fn lemma_lex_asymmetric(a: Seq<u8>, b: Seq<u8>)
    requires
        lex_lt(a, b),
    ensures
        a != b,
        !lex_lt(b, a),
{
    if lex_lt(b, a) {
        if is_prefix(a, b) && a.len() < b.len() {
            let k = choose|k: int| less_at(b, a, k);
            assert(a[k] == b[k]);
        } else {
            let k = choose|k: int| less_at(a, b, k);
            if is_prefix(b, a) && b.len() < a.len() {
                assert(b[k] == a[k]);
            } else {
                let j = choose|j: int| less_at(b, a, j);
                if j < k {
                    assert(a[j] == b[j]);
                } else if k < j {
                    assert(b[k] == a[k]);
                }
            }
        }
    }
    if a == b {
        if !(is_prefix(a, b) && a.len() < b.len()) {
            let k = choose|k: int| less_at(a, b, k);
            assert(a[k] < b[k]);
        }
    }
}

/// The order is transitive.
pub proof fn lemma_lex_transitive(a: Seq<u8>, b: Seq<u8>, c: Seq<u8>)
    requires
        lex_lt(a, b),
        lex_lt(b, c),
    ensures
        lex_lt(a, c),
{
    if is_prefix(a, b) && a.len() < b.len() {
        if is_prefix(b, c) && b.len() < c.len() {
            assert(is_prefix(a, c));
        } else {
            let j = choose|j: int| less_at(b, c, j);
            if j < a.len() {
                assert(less_at(a, c, j));
            } else {
                assert(is_prefix(a, c));
            }
        }
    } else {
        let k = choose|k: int| less_at(a, b, k);
        if is_prefix(b, c) && b.len() < c.len() {
            assert(less_at(a, c, k));
        } else {
            let j = choose|j: int| less_at(b, c, j);
            if j < k {
                assert(a[j] == b[j]);
                assert(less_at(a, c, j));
            } else {
                assert(c[k] >= b[k]);
                assert(less_at(a, c, k));
            }
        }
    }
}

/// A common front part does not change the order of what follows it.
pub proof fn lemma_lex_common_front(x: Seq<u8>, a: Seq<u8>, b: Seq<u8>)
    ensures
        lex_lt(x + a, x + b) == lex_lt(a, b),
{
    let xa = x + a;
    let xb = x + b;
    let n = x.len() as int;
    assert forall|i: int| 0 <= i < a.len() implies a[i] == #[trigger] xa[i + n] by {}
    assert forall|i: int| 0 <= i < b.len() implies b[i] == #[trigger] xb[i + n] by {}
    if lex_lt(a, b) {
        if is_prefix(a, b) && a.len() < b.len() {
            assert forall|i: int| 0 <= i < xa.len() implies xa[i] == xb[i] by {
                if i >= n {
                    assert(xa[i] == a[i - n]);
                    assert(xb[i] == b[i - n]);
                }
            }
            assert(is_prefix(xa, xb));
        } else {
            let k = choose|k: int| less_at(a, b, k);
            assert forall|i: int| 0 <= i < k + n implies xa[i] == xb[i] by {
                if i >= n {
                    assert(xa[i] == a[i - n]);
                    assert(xb[i] == b[i - n]);
                }
            }
            assert(xa[k + n] == a[k]);
            assert(xb[k + n] == b[k]);
            assert(less_at(xa, xb, k + n));
        }
    }
    if lex_lt(xa, xb) {
        if is_prefix(xa, xb) && xa.len() < xb.len() {
            assert forall|i: int| 0 <= i < a.len() implies a[i] == b[i] by {
                assert(a[i] == xa[i + n]);
                assert(b[i] == xb[i + n]);
            }
            assert(is_prefix(a, b));
        } else {
            let k = choose|k: int| less_at(xa, xb, k);
            if k < n {
                assert(xa[k] == x[k]);
                assert(xb[k] == x[k]);
            }
            assert forall|i: int| 0 <= i < k - n implies a[i] == b[i] by {
                assert(a[i] == xa[i + n]);
                assert(b[i] == xb[i + n]);
            }
            assert(a[k - n] == xa[(k - n) + n]);
            assert(b[k - n] == xb[(k - n) + n]);
            assert(less_at(a, b, k - n));
        }
    }
}

/// Where two strings diverge, whatever is appended to either does not change
/// their order, and they still diverge.
pub proof fn lemma_lex_diverge_extend(a: Seq<u8>, b: Seq<u8>, s: Seq<u8>, t: Seq<u8>)
    requires
        diverge(a, b),
    ensures
        lex_lt(a + s, b + t) == lex_lt(a, b),
        diverge(a + s, b + t),
        !is_prefix(a, b + t),
{
    let k = choose|k: int| agree_before(a, b, k) && k < a.len() && k < b.len() && a[k] != b[k];
    let at = a + s;
    let bt = b + t;
    assert(at[k] == a[k]);
    assert(bt[k] == b[k]);
    assert forall|i: int| 0 <= i < k implies at[i] == bt[i] by {
        assert(at[i] == a[i]);
        assert(bt[i] == b[i]);
    }
    assert(agree_before(at, bt, k));
    if a[k] < b[k] {
        assert(less_at(a, b, k));
        assert(less_at(at, bt, k));
    } else {
        assert(less_at(b, a, k));
        assert(less_at(bt, at, k));
        lemma_lex_asymmetric(b, a);
        lemma_lex_asymmetric(bt, at);
    }
}

/// A common front part does not change whether what follows it diverges.
pub proof fn lemma_diverge_common_front(x: Seq<u8>, a: Seq<u8>, b: Seq<u8>)
    requires
        diverge(a, b),
    ensures
        diverge(x + a, x + b),
{
    let k = choose|k: int| agree_before(a, b, k) && k < a.len() && k < b.len() && a[k] != b[k];
    let xa = x + a;
    let xb = x + b;
    let n = x.len() as int;
    assert forall|i: int| 0 <= i < k + n implies xa[i] == xb[i] by {
        if i >= n {
            assert(xa[i] == a[i - n]);
            assert(xb[i] == b[i - n]);
        }
    }
    assert(xa[k + n] == a[k]);
    assert(xb[k + n] == b[k]);
    assert(agree_before(xa, xb, k + n));
}

/// Diverging is symmetric.
pub proof fn lemma_diverge_symmetric(a: Seq<u8>, b: Seq<u8>)
    requires
        diverge(a, b),
    ensures
        diverge(b, a),
{
    let k = choose|k: int| agree_before(a, b, k) && k < a.len() && k < b.len() && a[k] != b[k];
    assert(agree_before(b, a, k));
}

} // verus!
