//! The two order-preserving byte encodings that keys are made of: big-endian
//! integers of a fixed width, and byte strings with escaped zero bytes and a
//! terminator.

use vstd::prelude::*;
use crate::byte_order::{
    agree_before, diverge, is_prefix, less_at, lex_lt, lemma_diverge_common_front,
    lemma_lex_asymmetric, lemma_lex_common_front, lemma_lex_total, lemma_diverge_symmetric,
};

verus! {

/// `256` to the power `w`.
pub open spec fn pow256(w: nat) -> int
    decreases w,
{
    if w == 0 {
        1
    } else {
        256 * pow256((w - 1) as nat)
    }
}

/// The `w` bytes of `v`, most significant first.
pub open spec fn be_bytes(v: int, w: nat) -> Seq<u8>
    decreases w,
{
    if w == 0 {
        Seq::empty()
    } else {
        be_bytes(v / 256, (w - 1) as nat).push((v % 256) as u8)
    }
}

/// The number that the bytes of `s` spell, most significant first.
pub open spec fn from_be(s: Seq<u8>) -> int
    decreases s.len(),
{
    if s.len() == 0 {
        0
    } else {
        from_be(s.drop_last()) * 256 + s.last()
    }
}

/// The powers of `256` at the widths in use.
pub proof fn lemma_pow256_values()
    ensures
        pow256(0) == 1,
        pow256(1) == 0x100,
        pow256(2) == 0x1_0000,
        pow256(4) == 0x1_0000_0000,
        pow256(7) == 0x100_0000_0000_0000,
        pow256(8) == 0x1_0000_0000_0000_0000,
{
    reveal_with_fuel(pow256, 9);
}

/// Every power of `256` is positive.
pub proof fn lemma_pow256_positive(w: nat)
    ensures
        pow256(w) > 0,
    decreases w,
{
    if w > 0 {
        lemma_pow256_positive((w - 1) as nat);
    }
}

/// A number is written in as many bytes as the width says.
pub proof fn lemma_be_bytes_len(v: int, w: nat)
    ensures
        be_bytes(v, w).len() == w,
    decreases w,
{
    if w > 0 {
        lemma_be_bytes_len(v / 256, (w - 1) as nat);
    }
}

/// What `w` bytes spell lies below `256^w`.
pub proof fn lemma_from_be_bound(s: Seq<u8>)
    ensures
        0 <= from_be(s) < pow256(s.len()),
    decreases s.len(),
{
    if s.len() > 0 {
        lemma_from_be_bound(s.drop_last());
    }
}

/// Reading back the bytes of a number within range gives the number.
pub proof fn lemma_from_be_of_be_bytes(v: int, w: nat)
    requires
        0 <= v < pow256(w),
    ensures
        from_be(be_bytes(v, w)) == v,
    decreases w,
{
    if w > 0 {
        let s = be_bytes(v, w);
        let t = be_bytes(v / 256, (w - 1) as nat);
        assert(s.drop_last() =~= t);
        lemma_from_be_of_be_bytes(v / 256, (w - 1) as nat);
    }
}

/// Writing the number that bytes spell gives the bytes back.
pub proof fn lemma_be_bytes_of_from_be(s: Seq<u8>)
    ensures
        be_bytes(from_be(s), s.len()) == s,
    decreases s.len(),
{
    if s.len() > 0 {
        let v = from_be(s);
        lemma_from_be_bound(s.drop_last());
        assert(v / 256 == from_be(s.drop_last()));
        assert(v % 256 == s.last());
        lemma_be_bytes_of_from_be(s.drop_last());
        assert(be_bytes(v, s.len()) =~= s);
    } else {
        assert(be_bytes(0, 0) =~= s);
    }
}

/// Big-endian bytes of one width order as the numbers do, and the bytes of
/// two different numbers diverge.
pub proof fn lemma_be_bytes_order(a: int, b: int, w: nat)
    requires
        0 <= a < b < pow256(w),
    ensures
        lex_lt(be_bytes(a, w), be_bytes(b, w)),
        diverge(be_bytes(a, w), be_bytes(b, w)),
    decreases w,
{
    if w > 0 {
        let sa = be_bytes(a, w);
        let sb = be_bytes(b, w);
        let ta = be_bytes(a / 256, (w - 1) as nat);
        let tb = be_bytes(b / 256, (w - 1) as nat);
        lemma_be_bytes_len(a / 256, (w - 1) as nat);
        lemma_be_bytes_len(b / 256, (w - 1) as nat);
        if a / 256 == b / 256 {
            assert(a % 256 < b % 256);
            assert(less_at(sa, sb, w - 1));
            assert(agree_before(sa, sb, w - 1) && sa[w - 1] != sb[w - 1]);
        } else {
            assert(a / 256 < b / 256);
            lemma_be_bytes_order(a / 256, b / 256, (w - 1) as nat);
            let k = choose|k: int| less_at(ta, tb, k);
            assert(less_at(sa, sb, k));
            assert(agree_before(sa, sb, k) && sa[k] != sb[k]);
        }
    }
}

/// The escaped form of the byte string `s`: each zero byte is followed by
/// `0xFF`, and two zero bytes end the string.
pub open spec fn escape(s: Seq<u8>) -> Seq<u8>
    decreases s.len(),
{
    if s.len() == 0 {
        seq![0u8, 0u8]
    } else if s[0] == 0 {
        seq![0u8, 0xFFu8] + escape(s.skip(1))
    } else {
        seq![s[0]] + escape(s.skip(1))
    }
}

/// Reads an escaped byte string from the front of `b`: the string and the
/// number of bytes it took, or `None` where `b` does not start with one.
pub open spec fn unescape(b: Seq<u8>) -> Option<(Seq<u8>, int)>
    decreases b.len(),
{
    if b.len() == 0 {
        None
    } else if b[0] != 0 {
        match unescape(b.skip(1)) {
            Some((s, n)) => Some((seq![b[0]] + s, n + 1)),
            None => None,
        }
    } else if b.len() < 2 {
        None
    } else if b[1] == 0 {
        Some((Seq::empty(), 2))
    } else if b[1] == 0xFF {
        match unescape(b.skip(2)) {
            Some((s, n)) => Some((seq![0u8] + s, n + 2)),
            None => None,
        }
    } else {
        None
    }
}

/// The first byte of an escaped string is the first byte of the string, or
/// zero where the string is empty.
proof fn lemma_escape_first(s: Seq<u8>)
    ensures
        escape(s).len() >= 2,
        escape(s)[0] == (if s.len() == 0 { 0u8 } else { s[0] }),
        s.len() == 0 ==> escape(s)[1] == 0,
        s.len() > 0 && s[0] == 0 ==> escape(s)[1] == 0xFF,
    decreases s.len(),
{
    if s.len() > 0 {
        lemma_escape_first(s.skip(1));
    }
}

/// Reading back an escaped string, whatever follows it, gives the string.
pub proof fn lemma_unescape_of_escape(s: Seq<u8>, rest: Seq<u8>)
    ensures
        unescape(escape(s) + rest) == Some((s, escape(s).len() as int)),
    decreases s.len(),
{
    let b = escape(s) + rest;
    if s.len() == 0 {
        assert(b[0] == 0 && b[1] == 0);
        assert(s =~= Seq::empty());
    } else {
        let t = s.skip(1);
        lemma_unescape_of_escape(t, rest);
        lemma_escape_first(t);
        if s[0] == 0 {
            assert(b[0] == 0 && b[1] == 0xFF);
            assert(b.skip(2) =~= escape(t) + rest);
            assert(seq![0u8] + t =~= s);
        } else {
            assert(b[0] == s[0]);
            assert(b.skip(1) =~= escape(t) + rest);
            assert(seq![s[0]] + t =~= s);
        }
    }
}

/// What `unescape` reads is the escaped form of what it returns.
pub proof fn lemma_escape_of_unescape(b: Seq<u8>)
    requires
        unescape(b) is Some,
    ensures
        2 <= unescape(b).unwrap().1 <= b.len(),
        b.take(unescape(b).unwrap().1) == escape(unescape(b).unwrap().0),
    decreases b.len(),
{
    let (s, n) = unescape(b).unwrap();
    if b[0] != 0 {
        let c = b.skip(1);
        lemma_escape_of_unescape(c);
        let (s1, n1) = unescape(c).unwrap();
        assert(s.skip(1) =~= s1);
        assert(b.take(n) =~= seq![b[0]] + c.take(n1));
    } else if b[1] == 0 {
        assert(b.take(2) =~= seq![0u8, 0u8]);
    } else {
        let c = b.skip(2);
        lemma_escape_of_unescape(c);
        let (s1, n1) = unescape(c).unwrap();
        assert(s.skip(1) =~= s1);
        assert(b.take(n) =~= seq![0u8, 0xFFu8] + c.take(n1));
    }
}

/// Escaping keeps the order and makes different strings diverge.
proof fn lemma_escape_monotone(s: Seq<u8>, t: Seq<u8>)
    requires
        lex_lt(s, t),
    ensures
        lex_lt(escape(s), escape(t)),
        diverge(escape(s), escape(t)),
    decreases s.len(),
{
    let es = escape(s);
    let et = escape(t);
    lemma_escape_first(s);
    lemma_escape_first(t);
    if s.len() == 0 {
        if t[0] != 0 {
            assert(less_at(es, et, 0));
            assert(agree_before(es, et, 0) && es[0] != et[0]);
        } else {
            assert(less_at(es, et, 1));
            assert(agree_before(es, et, 1) && es[1] != et[1]);
        }
    } else {
        if !(is_prefix(s, t) && s.len() < t.len()) {
            let k = choose|k: int| less_at(s, t, k);
            assert(t.len() > 0);
        }
        if s[0] != t[0] {
            if is_prefix(s, t) && s.len() < t.len() {
                assert(s[0] == t[0]);
            } else {
                let k = choose|k: int| less_at(s, t, k);
                if k > 0 {
                    assert(s[0] == t[0]);
                }
            }
            assert(less_at(es, et, 0));
            assert(agree_before(es, et, 0) && es[0] != et[0]);
        } else {
            let x = seq![s[0]];
            let s1 = s.skip(1);
            let t1 = t.skip(1);
            assert(s =~= x + s1);
            assert(t =~= x + t1);
            lemma_lex_common_front(x, s1, t1);
            lemma_escape_monotone(s1, t1);
            let h = if s[0] == 0 { seq![0u8, 0xFFu8] } else { seq![s[0]] };
            assert(es == h + escape(s1));
            assert(et == h + escape(t1));
            lemma_lex_common_front(h, escape(s1), escape(t1));
            lemma_diverge_common_front(h, escape(s1), escape(t1));
        }
    }
}

/// Order preservation and prefix freedom of escaped strings: for different
/// strings the escaped forms diverge, and they order as the strings do.
pub proof fn lemma_escape_order(s: Seq<u8>, t: Seq<u8>)
    requires
        s != t,
    ensures
        diverge(escape(s), escape(t)),
        lex_lt(escape(s), escape(t)) == lex_lt(s, t),
{
    lemma_lex_total(s, t);
    if lex_lt(s, t) {
        lemma_escape_monotone(s, t);
    } else {
        lemma_escape_monotone(t, s);
        lemma_diverge_symmetric(escape(t), escape(s));
        lemma_lex_asymmetric(escape(t), escape(s));
    }
}

/// Appends the `width` low bytes of `v` to `out`, most significant first.
pub fn put_fixed(out: &mut Vec<u8>, v: u64, width: usize)
    requires
        width <= 8,
    ensures
        final(out)@ == old(out)@ + be_bytes(v as int, width as nat),
    decreases width,
{
    if width > 0 {
        put_fixed(out, v / 256, width - 1);
        out.push((v % 256) as u8);
        assert(out@ =~= old(out)@ + be_bytes(v as int, width as nat));
    } else {
        assert(out@ =~= old(out)@ + be_bytes(v as int, width as nat));
    }
}

/// Reads the number that the `width` bytes of `bytes` from `pos` on spell.
pub fn get_fixed(bytes: &[u8], pos: usize, width: usize) -> (v: u64)
    requires
        width <= 8,
        pos + width <= bytes@.len(),
    ensures
        v == from_be(bytes@.subrange(pos as int, pos + width)),
{
    let mut v: u64 = 0;
    let mut i: usize = 0;
    let len = bytes.len();
    proof {
        lemma_pow256_values();
    }
    while i < width
        invariant
            i <= width <= 8,
            pos + width <= bytes@.len(),
            bytes@.len() == len,
            v == from_be(bytes@.subrange(pos as int, pos + i)),
            v < pow256(i as nat),
        decreases width - i,
    {
        let b = bytes[pos + i];
        proof {
            let s = bytes@.subrange(pos as int, pos + i + 1);
            assert(s.drop_last() =~= bytes@.subrange(pos as int, pos + i));
            assert(s.last() == b);
            lemma_from_be_bound(s);
            lemma_pow256_monotone(i as nat, 7);
            lemma_pow256_monotone((i + 1) as nat, 8);
            lemma_pow256_values();
        }
        v = v * 256 + b as u64;
        i += 1;
    }
    v
}

/// The powers of `256` grow with the exponent.
pub proof fn lemma_pow256_monotone(a: nat, b: nat)
    requires
        a <= b,
    ensures
        pow256(a) <= pow256(b),
    decreases b,
{
    if a < b {
        lemma_pow256_monotone(a, (b - 1) as nat);
        lemma_pow256_positive((b - 1) as nat);
    }
}

/// Appends the escaped form of `s` to `out`.
pub fn put_escaped(out: &mut Vec<u8>, s: &[u8])
    ensures
        final(out)@ == old(out)@ + escape(s@),
{
    let mut i: usize = 0;
    assert(s@.skip(0) =~= s@);
    while i < s.len()
        invariant
            i <= s@.len(),
            out@ + escape(s@.skip(i as int)) == old(out)@ + escape(s@),
        decreases s@.len() - i,
    {
        let b = s[i];
        proof {
            let r = s@.skip(i as int);
            assert(r[0] == b);
            assert(r.skip(1) =~= s@.skip(i + 1));
        }
        let ghost before = out@;
        out.push(b);
        if b == 0 {
            out.push(0xFF);
            assert(out@ =~= before + seq![0u8, 0xFFu8]);
        } else {
            assert(out@ =~= before + seq![b]);
        }
        assert(out@ + escape(s@.skip(i + 1)) =~= before + escape(s@.skip(i as int)));
        i += 1;
    }
    let ghost before = out@;
    out.push(0);
    out.push(0);
    assert(out@ =~= before + seq![0u8, 0u8]);
    assert(escape(s@.skip(i as int)) =~= seq![0u8, 0u8]);
}

/// What `unescape` gives with `acc` put before the string and `i` added to
/// the count.
pub open spec fn unescape_after(acc: Seq<u8>, i: int, r: Option<(Seq<u8>, int)>) -> Option<
    (Seq<u8>, int),
> {
    match r {
        Some((s, n)) => Some((acc + s, i + n)),
        None => None,
    }
}

/// Reads an escaped byte string from `bytes` at `pos`: the string and the
/// position behind it, or `None` where there is none.
pub fn get_escaped(bytes: &[u8], pos: usize) -> (r: Option<(Vec<u8>, usize)>)
    requires
        pos <= bytes@.len(),
    ensures
        match r {
            Some((s, end)) => unescape(bytes@.skip(pos as int)) == Some((s@, end - pos)),
            None => unescape(bytes@.skip(pos as int)) is None,
        },
{
    let ghost b = bytes@.skip(pos as int);
    let mut acc: Vec<u8> = Vec::new();
    let mut i: usize = pos;
    assert(b.skip(0) =~= b);
    assert(Seq::<u8>::empty() + Seq::<u8>::empty() =~= Seq::<u8>::empty());
    loop
        invariant
            pos <= i <= bytes@.len(),
            b == bytes@.skip(pos as int),
            unescape(b) == unescape_after(acc@, i - pos, unescape(b.skip(i - pos))),
        decreases bytes@.len() - i,
    {
        let ghost r = b.skip(i - pos);
        if i >= bytes.len() {
            return None;
        }
        let x = bytes[i];
        assert(r[0] == x);
        if x != 0 {
            proof {
                assert(r.skip(1) =~= b.skip(i + 1 - pos));
                let tail = unescape(r.skip(1));
                if tail is Some {
                    let (s, n) = tail.unwrap();
                    assert(acc@ + (seq![x] + s) =~= acc@.push(x) + s);
                }
            }
            acc.push(x);
            i += 1;
        } else {
            if i + 1 >= bytes.len() {
                return None;
            }
            let y = bytes[i + 1];
            assert(r[1] == y);
            if y == 0 {
                assert(acc@ + Seq::<u8>::empty() =~= acc@);
                return Some((acc, i + 2));
            } else if y == 0xFF {
                proof {
                    assert(r.skip(2) =~= b.skip(i + 2 - pos));
                    let tail = unescape(r.skip(2));
                    if tail is Some {
                        let (s, n) = tail.unwrap();
                        assert(acc@ + (seq![0u8] + s) =~= acc@.push(0u8) + s);
                    }
                }
                acc.push(0);
                i += 2;
            } else {
                return None;
            }
        }
    }
}

} // verus!
