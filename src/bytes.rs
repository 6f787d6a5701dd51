//! Little-endian integers read out of byte buffers.
use vstd::prelude::*;

verus! {

/// The value of a little-endian byte string.
pub open spec fn le_nat(s: Seq<u8>) -> nat
    decreases s.len(),
{
    if s.len() == 0 {
        0
    } else {
        s[0] as nat + 256 * le_nat(s.drop_first())
    }
}

/// `256` raised to `n`.
pub open spec fn pow256(n: nat) -> nat
    decreases n,
{
    if n == 0 {
        1
    } else {
        256 * pow256((n - 1) as nat)
    }
}

/// The little-endian value of `len` bytes of `s` starting at `pos`.
pub open spec fn le_at(s: Seq<u8>, pos: int, len: int) -> nat {
    le_nat(s.subrange(pos, pos + len))
}

pub proof fn lemma_le_nat_bound(s: Seq<u8>)
    ensures
        le_nat(s) < pow256(s.len()),
    decreases s.len(),
{
    if s.len() > 0 {
        lemma_le_nat_bound(s.drop_first());
    }
}

pub proof fn lemma_pow256_mono(a: nat, b: nat)
    requires
        a <= b,
    ensures
        pow256(a) <= pow256(b),
    decreases b,
{
    if a < b {
        lemma_pow256_mono(a, (b - 1) as nat);
    }
}

proof fn lemma_le_step(s: Seq<u8>, a: int, b: int)
    requires
        0 <= a < b <= s.len(),
    ensures
        le_nat(s.subrange(a, b)) == s[a] as nat + 256 * le_nat(s.subrange(a + 1, b)),
{
    assert(s.subrange(a, b).drop_first() =~= s.subrange(a + 1, b));
}

/// Reads `n` bytes of `buf` at `pos` as a little-endian integer.
pub fn read_le(buf: &[u8], pos: usize, n: usize) -> (r: u128)
    requires
        n <= 16,
        pos + n <= buf@.len(),
    ensures
        r as nat == le_at(buf@, pos as int, n as int),
        (r as nat) < pow256(n as nat),
{
    let mut acc: u128 = 0;
    let mut i: usize = n;
    proof {
        assert(buf@.subrange(pos + n, pos + n) =~= Seq::<u8>::empty());
    }
    while i > 0
        invariant
            i <= n <= 16,
            pos + n <= buf.len(),
            acc as nat == le_nat(buf@.subrange(pos + i, pos + n)),
            (acc as nat) < pow256((n - i) as nat),
        decreases i,
    {
        proof {
            lemma_le_step(buf@, pos + i - 1, pos + n);
            lemma_pow256_mono((n - i + 1) as nat, 16);
            reveal_with_fuel(pow256, 17);
        }
        acc = acc * 256 + buf[pos + (i - 1)] as u128;
        i = i - 1;
    }
    acc
}

/// Reads four bytes of `buf` at `pos` as a little-endian `u32`.
pub fn read_u32_le(buf: &[u8], pos: usize) -> (r: u32)
    requires
        pos + 4 <= buf@.len(),
    ensures
        r as nat == le_at(buf@, pos as int, 4),
{
    let v = read_le(buf, pos, 4);
    proof {
        reveal_with_fuel(pow256, 5);
    }
    v as u32
}

} // verus!
