//! Little-endian byte serialization of unsigned integers: the spec-level
//! meaning, the lemmas that make it reversible, and the executable
//! readers and writers the payload codec is built on.

use vstd::prelude::*;
use vstd::arithmetic::div_mod::{lemma_div_denominator, lemma_fundamental_div_mod};

verus! {

/// 256 to the power `e`: the number of values `e` bytes can hold.
pub open spec fn pow256(e: nat) -> nat
    decreases e,
{
    if e == 0 {
        1
    } else {
        256 * pow256((e - 1) as nat)
    }
}

/// The `len` little-endian bytes of `n`; bits above the window are cut
/// off.
pub open spec fn le_bytes(n: nat, len: nat) -> Seq<u8>
    decreases len,
{
    if len == 0 {
        Seq::empty()
    } else {
        seq![(n % 256) as u8] + le_bytes(n / 256, (len - 1) as nat)
    }
}

/// The value a byte sequence holds when read little-endian.
pub open spec fn from_le(s: Seq<u8>) -> nat
    decreases s.len(),
{
    if s.len() == 0 {
        0
    } else {
        s[0] as nat + 256 * from_le(s.drop_first())
    }
}

pub proof fn lemma_pow256_pos(e: nat)
    ensures
        pow256(e) >= 1,
    decreases e,
{
    if e > 0 {
        lemma_pow256_pos((e - 1) as nat);
    }
}

pub proof fn lemma_pow256_mono(a: nat, b: nat)
    requires
        a <= b,
    ensures
        pow256(a) <= pow256(b),
    decreases b,
{
    if a < b {
        lemma_pow256_mono(a, (b - 1) as nat);
        lemma_pow256_pos((b - 1) as nat);
    }
}

/// The concrete sizes the codec uses.
pub proof fn lemma_pow256_values()
    ensures
        pow256(4) == 0x1_0000_0000,
        pow256(8) == 0x1_0000_0000_0000_0000,
        pow256(15) == 0x100_0000_0000_0000_0000_0000_0000_0000,
        pow256(16) == 0x1_0000_0000_0000_0000_0000_0000_0000_0000,
{
    assert(pow256(1) == 256 * pow256(0));
    assert(pow256(2) == 256 * pow256(1));
    assert(pow256(3) == 256 * pow256(2));
    assert(pow256(4) == 256 * pow256(3));
    assert(pow256(5) == 256 * pow256(4));
    assert(pow256(6) == 256 * pow256(5));
    assert(pow256(7) == 256 * pow256(6));
    assert(pow256(8) == 256 * pow256(7));
    assert(pow256(9) == 256 * pow256(8));
    assert(pow256(10) == 256 * pow256(9));
    assert(pow256(11) == 256 * pow256(10));
    assert(pow256(12) == 256 * pow256(11));
    assert(pow256(13) == 256 * pow256(12));
    assert(pow256(14) == 256 * pow256(13));
    assert(pow256(15) == 256 * pow256(14));
    assert(pow256(16) == 256 * pow256(15));
}

pub proof fn lemma_le_bytes_len(n: nat, len: nat)
    ensures
        le_bytes(n, len).len() == len,
    decreases len,
{
    if len > 0 {
        lemma_le_bytes_len(n / 256, (len - 1) as nat);
    }
}

/// Writing one more byte appends the next 8-bit window of `n`.
pub proof fn lemma_le_bytes_snoc(n: nat, len: nat)
    ensures
        le_bytes(n, len + 1) == le_bytes(n, len).push(((n / pow256(len)) % 256) as u8),
    decreases len,
{
    lemma_le_bytes_len(n, len + 1);
    lemma_le_bytes_len(n, len);
    if len == 0 {
        reveal_with_fuel(le_bytes, 3);
        assert(pow256(0) == 1);
        assert(le_bytes(n, 1) =~= le_bytes(n, 0).push(((n / pow256(0)) % 256) as u8));
    } else {
        lemma_le_bytes_snoc(n / 256, (len - 1) as nat);
        lemma_pow256_pos((len - 1) as nat);
        lemma_div_denominator(n as int, 256, pow256((len - 1) as nat) as int);
        assert(256 * pow256((len - 1) as nat) == pow256(len));
        assert(le_bytes(n, len + 1) =~= le_bytes(n, len).push(((n / pow256(len)) % 256) as u8));
    }
}

/// Reading back the bytes of `n` yields `n`, provided `n` fits the
/// window.
pub proof fn lemma_from_le_le_bytes(n: nat, len: nat)
    requires
        n < pow256(len),
    ensures
        from_le(le_bytes(n, len)) == n,
    decreases len,
{
    if len == 0 {
        assert(n == 0);
    } else {
        lemma_le_bytes_len(n / 256, (len - 1) as nat);
        lemma_fundamental_div_mod(n as int, 256);
        assert(n / 256 < pow256((len - 1) as nat));
        lemma_from_le_le_bytes(n / 256, (len - 1) as nat);
        assert(le_bytes(n, len).drop_first() =~= le_bytes(n / 256, (len - 1) as nat));
    }
}

/// Appends the `len` little-endian bytes of `n` to `out`.
pub fn push_le_bytes(out: &mut Vec<u8>, n: u128, len: usize)
    requires
        old(out)@.len() + len <= usize::MAX,
    ensures
        final(out)@ == old(out)@ + le_bytes(n as nat, len as nat),
{
    let mut cur: u128 = n;
    let mut i: usize = 0;
    proof {
        assert(out@ =~= old(out)@ + le_bytes(n as nat, 0));
        assert(pow256(0) == 1);
        assert(n as nat / 1 == n as nat);
    }
    while i < len
        invariant
            i <= len,
            out@ == old(out)@ + le_bytes(n as nat, i as nat),
            cur as nat == n as nat / pow256(i as nat),
            old(out)@.len() + len <= usize::MAX,
        decreases len - i,
    {
        proof {
            lemma_le_bytes_snoc(n as nat, i as nat);
            lemma_le_bytes_len(n as nat, i as nat);
            lemma_pow256_pos(i as nat);
            lemma_div_denominator(n as int, pow256(i as nat) as int, 256);
            assert(pow256(i as nat) * 256 == 256 * pow256(i as nat)) by (nonlinear_arith);
            assert(256 * pow256(i as nat) == pow256((i + 1) as nat));
        }
        out.push((cur % 256) as u8);
        cur = cur / 256;
        i = i + 1;
    }
}

/// Reads the value held little-endian by `bytes[start..start + len]`.
pub fn read_le_bytes(bytes: &[u8], start: usize, len: usize) -> (r: u128)
    requires
        start + len <= bytes@.len(),
        start + len <= usize::MAX,
        len <= 16,
    ensures
        r as nat == from_le(bytes@.subrange(start as int, start as int + len as int)),
        (r as nat) < pow256(len as nat),
{
    let mut acc: u128 = 0;
    let mut i: usize = len;
    proof {
        assert(bytes@.subrange(start as int + len as int, start as int + len as int) =~= Seq::<
            u8,
        >::empty());
    }
    while i > 0
        invariant
            i <= len,
            len <= 16,
            start + len <= bytes@.len(),
            start + len <= usize::MAX,
            acc as nat == from_le(
                bytes@.subrange(start as int + i as int, start as int + len as int),
            ),
            (acc as nat) < pow256((len - i) as nat),
        decreases i,
    {
        i = i - 1;
        proof {
            lemma_pow256_values();
            lemma_pow256_mono((len - i - 1) as nat, 15);
            assert(bytes@.subrange(
                start as int + i as int,
                start as int + len as int,
            ).drop_first() =~= bytes@.subrange(start as int + i + 1, start as int + len as int));
        }
        acc = acc * 256 + (bytes[start + i] as u128);
    }
    proof {
        lemma_pow256_mono((len - i) as nat, len as nat);
    }
    acc
}

} // verus!
