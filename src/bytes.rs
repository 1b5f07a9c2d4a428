//! Fixed-width big-endian byte strings and their integer values.
use vstd::arithmetic::mul::{lemma_mul_inequality, lemma_mul_is_distributive_add_other_way};
use vstd::arithmetic::power::{lemma_pow_positive, pow};
use vstd::prelude::*;

verus! {

/// The integer that a big-endian byte string denotes.
pub open spec fn be_val(s: Seq<u8>) -> nat
    decreases s.len(),
{
    if s.len() == 0 {
        0
    } else {
        be_val(s.drop_last()) * 256 + s.last() as nat
    }
}

/// A byte string of `n` bytes denotes less than 256^n.
pub proof fn lemma_be_bound(s: Seq<u8>)
    ensures
        be_val(s) < pow(256, s.len()),
    decreases s.len(),
{
    if s.len() > 0 {
        lemma_be_bound(s.drop_last());
        let p = pow(256, (s.len() - 1) as nat);
        assert(pow(256, s.len()) == 256 * p) by {
            reveal(pow);
        }
        assert(be_val(s.drop_last()) * 256 <= (p - 1) * 256) by (nonlinear_arith)
            requires
                be_val(s.drop_last()) <= p - 1,
        ;
    } else {
        reveal(pow);
    }
}

/// A byte string splits at `k` into a high part, scaled, and a low part.
pub proof fn lemma_be_split(s: Seq<u8>, k: int)
    requires
        0 <= k <= s.len(),
    ensures
        be_val(s) == be_val(s.subrange(0, k)) * pow(256, (s.len() - k) as nat) + be_val(
            s.subrange(k, s.len() as int),
        ),
    decreases s.len(),
{
    let n = s.len() as int;
    if k == n {
        assert(s.subrange(0, k) =~= s);
        assert(s.subrange(k, n).len() == 0);
        reveal(pow);
    } else {
        let d = s.drop_last();
        lemma_be_split(d, k);
        assert(d.subrange(0, k) =~= s.subrange(0, k));
        assert(s.subrange(k, n).drop_last() =~= d.subrange(k, n - 1));
        assert(s.subrange(k, n).last() == s.last());
        let p = pow(256, (n - 1 - k) as nat);
        assert(pow(256, (n - k) as nat) == 256 * p) by {
            reveal(pow);
        }
        let hi = be_val(s.subrange(0, k));
        let mid = be_val(d.subrange(k, n - 1));
        assert((hi * p + mid) * 256 == hi * (256 * p) + mid * 256) by (nonlinear_arith);
    }
}

/// Two strings of one length that agree before `i` and differ at `i` are
/// ordered as their bytes at `i` are.
pub proof fn lemma_be_lex(s: Seq<u8>, t: Seq<u8>, i: int)
    requires
        s.len() == t.len(),
        0 <= i < s.len(),
        s.subrange(0, i) == t.subrange(0, i),
        s[i] < t[i],
    ensures
        be_val(s) < be_val(t),
{
    let n = s.len() as int;
    lemma_be_split(s, i + 1);
    lemma_be_split(t, i + 1);
    let sp = s.subrange(0, i + 1);
    let tp = t.subrange(0, i + 1);
    assert(sp.drop_last() =~= s.subrange(0, i));
    assert(tp.drop_last() =~= t.subrange(0, i));
    assert(be_val(sp) + 1 <= be_val(tp));
    let m = pow(256, (n - i - 1) as nat);
    lemma_pow_positive(256, (n - i - 1) as nat);
    lemma_be_bound(s.subrange(i + 1, n));
    lemma_mul_inequality(be_val(sp) + 1int, be_val(tp) as int, m);
    lemma_mul_is_distributive_add_other_way(m, be_val(sp) as int, 1);
}

/// Whether two 32-byte strings are equal.
pub fn bytes_eq(a: &[u8; 32], b: &[u8; 32]) -> (r: bool)
    ensures
        r == (a@ == b@),
{
    let mut i: usize = 0;
    while i < 32
        invariant
            0 <= i <= 32,
            a@.subrange(0, i as int) == b@.subrange(0, i as int),
        decreases 32 - i,
    {
        if a[i] != b[i] {
            return false;
        }
        assert(a@.subrange(0, i + 1) =~= a@.subrange(0, i as int).push(a@[i as int]));
        assert(b@.subrange(0, i + 1) =~= b@.subrange(0, i as int).push(b@[i as int]));
        i = i + 1;
    }
    assert(a@.subrange(0, 32) =~= a@);
    assert(b@.subrange(0, 32) =~= b@);
    true
}

/// Compares two 32-byte big-endian strings; `or_equal` is the answer when
/// they are equal.
fn bytes_compare(a: &[u8; 32], b: &[u8; 32], or_equal: bool) -> (r: bool)
    ensures
        be_val(a@) > be_val(b@) ==> r,
        be_val(a@) < be_val(b@) ==> !r,
        be_val(a@) == be_val(b@) ==> r == or_equal,
{
    let mut i: usize = 0;
    while i < 32
        invariant
            0 <= i <= 32,
            a@.subrange(0, i as int) == b@.subrange(0, i as int),
        decreases 32 - i,
    {
        if a[i] < b[i] {
            proof {
                lemma_be_lex(a@, b@, i as int);
            }
            return false;
        }
        if a[i] > b[i] {
            proof {
                lemma_be_lex(b@, a@, i as int);
            }
            return true;
        }
        assert(a@.subrange(0, i + 1) =~= a@.subrange(0, i as int).push(a@[i as int]));
        assert(b@.subrange(0, i + 1) =~= b@.subrange(0, i as int).push(b@[i as int]));
        i = i + 1;
    }
    assert(a@.subrange(0, 32) =~= a@);
    assert(b@.subrange(0, 32) =~= b@);
    or_equal
}

/// Whether `a` denotes a larger integer than `b`.
pub fn bytes_gt(a: &[u8; 32], b: &[u8; 32]) -> (r: bool)
    ensures
        r == (be_val(a@) > be_val(b@)),
{
    bytes_compare(a, b, false)
}

/// Whether `a` denotes an integer at least as large as `b`.
pub fn bytes_gte(a: &[u8; 32], b: &[u8; 32]) -> (r: bool)
    ensures
        r == (be_val(a@) >= be_val(b@)),
{
    bytes_compare(a, b, true)
}

/// Strings of one length that denote one integer are equal.
pub proof fn lemma_be_injective(s: Seq<u8>, t: Seq<u8>)
    requires
        s.len() == t.len(),
        be_val(s) == be_val(t),
    ensures
        s == t,
    decreases s.len(),
{
    if s.len() > 0 {
        let a = be_val(s.drop_last()) as int;
        let b = be_val(t.drop_last()) as int;
        let x = s.last() as int;
        let y = t.last() as int;
        assert(a == b && x == y) by (nonlinear_arith)
            requires
                a * 256 + x == b * 256 + y,
                0 <= x < 256,
                0 <= y < 256,
                a >= 0,
                b >= 0,
        ;
        lemma_be_injective(s.drop_last(), t.drop_last());
        assert(s =~= s.drop_last().push(s.last()));
        assert(t =~= t.drop_last().push(t.last()));
    } else {
        assert(s =~= t);
    }
}

/// A string of zero bytes denotes zero.
pub proof fn lemma_be_zeros(s: Seq<u8>)
    requires
        forall|i: int| 0 <= i < s.len() ==> s[i] == 0,
    ensures
        be_val(s) == 0,
    decreases s.len(),
{
    if s.len() > 0 {
        lemma_be_zeros(s.drop_last());
    }
}

/// The `n`-byte big-endian encoding of `v` (modulo 256^n).
pub open spec fn be_bytes(v: nat, n: nat) -> Seq<u8>
    decreases n,
{
    if n == 0 {
        Seq::empty()
    } else {
        be_bytes(v / 256, (n - 1) as nat).push((v % 256) as u8)
    }
}

/// A big-endian string is the encoding of the integer it denotes.
pub proof fn lemma_be_bytes_of(s: Seq<u8>)
    ensures
        s == be_bytes(be_val(s), s.len()),
    decreases s.len(),
{
    if s.len() > 0 {
        let d = s.drop_last();
        let v = be_val(s) as int;
        vstd::arithmetic::div_mod::lemma_fundamental_div_mod_converse(
            v,
            256,
            be_val(d) as int,
            s.last() as int,
        );
        lemma_be_bytes_of(d);
        assert(s =~= d.push(s.last()));
    }
}

/// The last byte of a big-endian string fixes its parity.
pub proof fn lemma_be_parity(s: Seq<u8>)
    requires
        s.len() > 0,
    ensures
        be_val(s) % 2 == s.last() % 2,
{
    let d = be_val(s.drop_last());
    let l = s.last() as nat;
    assert((d * 256 + l) % 2 == l % 2) by (nonlinear_arith);
}

} // verus!
