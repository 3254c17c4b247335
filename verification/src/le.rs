//! The canonical byte encoding of fixed-width integers: little-endian,
//! two's-complement, the same scheme at every width.
//!
//! [`le_decode`] and [`le_encode`] are the mathematical model; [`le_value`]
//! and [`le_bytes`] are the executable codec, one pair shared by every width.
//! [`signed_of`] and [`unsigned_of`] carry signed values to and from their
//! two's-complement representatives.

use vstd::prelude::*;

verus! {

/// 256 raised to `n`: the number of distinct values of an `n`-byte encoding.
pub open spec fn pow256(n: nat) -> nat
    decreases n,
{
    if n == 0 {
        1
    } else {
        256 * pow256((n - 1) as nat)
    }
}

/// The unsigned value of a little-endian byte sequence: the first byte is the
/// least significant.
pub open spec fn le_decode(b: Seq<u8>) -> nat
    decreases b.len(),
{
    if b.len() == 0 {
        0
    } else {
        b[0] as nat + 256 * le_decode(b.drop_first())
    }
}

/// The `n`-byte little-endian encoding of `v` (of `v`'s low `n` bytes, where
/// `v` does not fit).
pub open spec fn le_encode(v: nat, n: nat) -> Seq<u8>
    decreases n,
{
    if n == 0 {
        Seq::empty()
    } else {
        seq![(v % 256) as u8] + le_encode(v / 256, (n - 1) as nat)
    }
}

/// The signed reading of an `n`-byte unsigned value `u`, by two's complement.
pub open spec fn signed_of(u: nat, n: nat) -> int {
    if u < pow256(n) / 2 {
        u as int
    } else {
        u - pow256(n)
    }
}

/// The `n`-byte two's-complement representative of a signed value `i`.
pub open spec fn unsigned_of(i: int, n: nat) -> nat {
    if i >= 0 {
        i as nat
    } else {
        (i + pow256(n)) as nat
    }
}

/// `pow256` never falls below 1.
pub proof fn lemma_pow256_pos(n: nat)
    ensures
        pow256(n) >= 1,
    decreases n,
{
    if n > 0 {
        lemma_pow256_pos((n - 1) as nat);
        assert(256 * pow256((n - 1) as nat) >= pow256((n - 1) as nat)) by (nonlinear_arith)
            requires
                pow256((n - 1) as nat) >= 1,
        ;
    }
}

/// `pow256` does not decrease with its argument.
pub proof fn lemma_pow256_monotone(a: nat, b: nat)
    requires
        a <= b,
    ensures
        1 <= pow256(a) <= pow256(b),
    decreases b,
{
    lemma_pow256_pos(a);
    if a < b {
        lemma_pow256_monotone(a, (b - 1) as nat);
        lemma_pow256_pos((b - 1) as nat);
        assert(256 * pow256((b - 1) as nat) >= pow256((b - 1) as nat)) by (nonlinear_arith)
            requires
                pow256((b - 1) as nat) >= 1,
        ;
    }
}

/// The concrete values of `pow256` at the widths this layer uses.
pub proof fn lemma_pow256_values()
    ensures
        pow256(1) == 0x100,
        pow256(2) == 0x10000,
        pow256(4) == 0x100000000,
        pow256(7) == 0x100000000000000,
        pow256(8) == 0x10000000000000000,
{
    reveal_with_fuel(pow256, 10);
}

/// An encoding of `n` bytes is `n` bytes long.
pub proof fn lemma_le_encode_len(v: nat, n: nat)
    ensures
        le_encode(v, n).len() == n,
    decreases n,
{
    if n > 0 {
        lemma_le_encode_len(v / 256, (n - 1) as nat);
    }
}

/// The value of a byte sequence is below `pow256` of its length.
pub proof fn lemma_le_decode_bound(b: Seq<u8>)
    ensures
        le_decode(b) < pow256(b.len()),
    decreases b.len(),
{
    if b.len() > 0 {
        let d = le_decode(b.drop_first());
        let p = pow256((b.len() - 1) as nat);
        lemma_le_decode_bound(b.drop_first());
        assert(256 * d <= 256 * (p - 1)) by (nonlinear_arith)
            requires
                d <= p - 1,
        ;
        assert(b[0] as nat + 256 * d < 256 * p);
    }
}

/// Round-trip law for unsigned integers: decoding the `n`-byte encoding of
/// any value that fits in `n` bytes gives that value back.
pub proof fn lemma_le_round_trip(v: nat, n: nat)
    requires
        v < pow256(n),
    ensures
        le_encode(v, n).len() == n,
        le_decode(le_encode(v, n)) == v,
    decreases n,
{
    lemma_le_encode_len(v, n);
    if n > 0 {
        assert(v / 256 < pow256((n - 1) as nat)) by (nonlinear_arith)
            requires
                v < 256 * pow256((n - 1) as nat),
        ;
        lemma_le_round_trip(v / 256, (n - 1) as nat);
        let rest = le_encode(v / 256, (n - 1) as nat);
        assert((seq![(v % 256) as u8] + rest).drop_first() =~= rest);
        assert(v % 256 + 256 * (v / 256) == v) by (nonlinear_arith);
    }
}

/// Round-trip law for signed integers: the two's-complement representative of
/// any value in the `n`-byte signed range fits in `n` bytes, and reading it
/// back as signed gives the value again; so does decoding its encoding.
pub proof fn lemma_signed_round_trip(i: int, n: nat)
    requires
        n >= 1,
        -(pow256(n) / 2) <= i < pow256(n) / 2,
    ensures
        unsigned_of(i, n) < pow256(n),
        signed_of(unsigned_of(i, n), n) == i,
        le_decode(le_encode(unsigned_of(i, n), n)) == unsigned_of(i, n),
{
    lemma_pow256_monotone(1, n);
    assert(pow256(n) == 256 * pow256((n - 1) as nat));
    assert(pow256(n) / 2 == 128 * pow256((n - 1) as nat)) by (nonlinear_arith)
        requires
            pow256(n) == 256 * pow256((n - 1) as nat),
    ;
    lemma_le_round_trip(unsigned_of(i, n), n);
}

/// Decode up to eight little-endian bytes into their unsigned value.
pub fn le_value(b: &Vec<u8>) -> (r: u64)
    requires
        b@.len() <= 8,
    ensures
        r as nat == le_decode(b@),
{
    let mut v: u64 = 0;
    let mut i: usize = b.len();
    while i > 0
        invariant
            b@.len() <= 8,
            i <= b@.len(),
            v as nat == le_decode(b@.skip(i as int)),
        decreases i,
    {
        i = i - 1;
        proof {
            lemma_le_decode_bound(b@.skip(i + 1));
            lemma_pow256_monotone(b@.skip(i + 1).len(), 7);
            lemma_pow256_values();
            assert(b@.skip(i as int).drop_first() =~= b@.skip(i + 1));
            assert(b@.skip(i as int)[0] == b@[i as int]);
        }
        v = v * 256 + (b[i] as u64);
    }
    proof {
        assert(b@.skip(0) =~= b@);
    }
    v
}

/// Encode the low `n` bytes of `v` in little-endian order.
pub fn le_bytes(v: u64, n: usize) -> (r: Vec<u8>)
    ensures
        r@ == le_encode(v as nat, n as nat),
        r@.len() == n,
{
    let mut out: Vec<u8> = Vec::new();
    let mut x: u64 = v;
    let mut i: usize = 0;
    while i < n
        invariant
            i <= n,
            out@.len() == i,
            le_encode(v as nat, n as nat) == out@ + le_encode(x as nat, (n - i) as nat),
        decreases n - i,
    {
        let b: u8 = (x % 256) as u8;
        proof {
            let rest = le_encode(x as nat / 256, (n - i - 1) as nat);
            assert(le_encode(x as nat, (n - i) as nat) == seq![b] + rest);
            assert(out@ + (seq![b] + rest) =~= (out@ + seq![b]) + rest);
            assert(out@.push(b) =~= out@ + seq![b]);
        }
        out.push(b);
        x = x / 256;
        i = i + 1;
    }
    proof {
        assert(le_encode(x as nat, 0) =~= Seq::<u8>::empty());
        assert(out@ + Seq::<u8>::empty() =~= out@);
        lemma_le_encode_len(v as nat, n as nat);
    }
    out
}

} // verus!
