//! Little-endian integers read from byte sequences.

use vstd::prelude::*;

verus! {

/// The unsigned integer held little-endian in the `n` bytes of `s`
/// starting at `off`.
pub open spec fn le_int(s: Seq<u8>, off: int, n: nat) -> nat
    decreases n,
{
    if n == 0 {
        0
    } else {
        (s[off] + 256 * le_int(s, off + 1, (n - 1) as nat)) as nat
    }
}

/// 256 raised to `n`: one more than the largest value `n` bytes can hold.
pub open spec fn pow256(n: nat) -> int
    decreases n,
{
    if n == 0 {
        1
    } else {
        256 * pow256((n - 1) as nat)
    }
}

/// `pow256` is at least one everywhere.
pub proof fn lemma_pow256_pos(n: nat)
    ensures
        pow256(n) >= 1,
    decreases n,
{
    if n > 0 {
        lemma_pow256_pos((n - 1) as nat);
    }
}

/// `pow256` grows with its argument.
pub proof fn lemma_pow256_mono(a: nat, b: nat)
    requires
        a <= b,
    ensures
        pow256(a) <= pow256(b),
    decreases b,
{
    if a < b {
        lemma_pow256_mono(a, (b - 1) as nat);
        lemma_pow256_pos((b - 1) as nat);
    }
}

/// `le_int` reads only the bytes `s[off .. off + n]`: two sequences that
/// agree on those bytes give the same value.
pub proof fn lemma_le_int_subrange(s: Seq<u8>, off: int, t: Seq<u8>, toff: int, n: nat)
    requires
        0 <= off,
        off + n <= s.len(),
        0 <= toff,
        toff + n <= t.len(),
        s.subrange(off, off + n) == t.subrange(toff, toff + n),
    ensures
        le_int(s, off, n) == le_int(t, toff, n),
    decreases n,
{
    if n > 0 {
        assert(s[off] == s.subrange(off, off + n)[0]);
        assert(t[toff] == t.subrange(toff, toff + n)[0]);
        assert(s.subrange(off + 1, off + n) =~= s.subrange(off, off + n).subrange(
            1,
            n as int,
        ));
        assert(t.subrange(toff + 1, toff + n) =~= t.subrange(toff, toff + n).subrange(
            1,
            n as int,
        ));
        lemma_le_int_subrange(s, off + 1, t, toff + 1, (n - 1) as nat);
    }
}

/// The four-byte little-endian encoding of `n`.
pub open spec fn le4_bytes(n: int) -> Seq<u8> {
    seq![
        (n % 256) as u8,
        ((n / 256) % 256) as u8,
        ((n / 65536) % 256) as u8,
        ((n / 16777216) % 256) as u8,
    ]
}

/// Reading back the four bytes of `le4_bytes(n)` gives `n` again.
pub proof fn lemma_le4_bytes_roundtrip(n: int)
    requires
        0 <= n < 4294967296,
    ensures
        le_int(le4_bytes(n), 0, 4) == n,
{
    let s = le4_bytes(n);
    reveal_with_fuel(le_int, 5);
    let m = n as u32;
    assert((m % 256) + 256 * ((m / 256) % 256) + 65536 * ((m / 65536) % 256) + 16777216 * (m
        / 16777216) == m) by (bit_vector);
    assert(s[0] == m % 256 && s[1] == (m / 256) % 256 && s[2] == (m / 65536) % 256 && s[3] == m
        / 16777216) by {
        assert(m / 16777216 < 256) by (bit_vector);
    }
}

/// Reads the little-endian value of the four bytes of `data` at `off`.
pub fn read_le_u32(data: &Vec<u8>, off: usize) -> (r: u32)
    requires
        off + 4 <= data@.len(),
    ensures
        r == le_int(data@, off as int, 4),
{
    proof {
        reveal_with_fuel(le_int, 5);
    }
    let _n: usize = data.len();
    (data[off] as u32) + 256 * (data[off + 1] as u32) + 65536 * (data[off + 2] as u32) + 16777216
        * (data[off + 3] as u32)
}

/// Reads the little-endian value of the `width` bytes of `data` at `off`.
pub fn read_le_bytes(data: &Vec<u8>, off: usize, width: usize) -> (r: u32)
    requires
        1 <= width <= 4,
        off + width <= data@.len(),
    ensures
        r == le_int(data@, off as int, width as nat),
{
    proof {
        reveal_with_fuel(pow256, 5);
    }
    let n: usize = data.len();
    let mut acc: u32 = 0;
    let mut j: usize = width;
    while j > 0
        invariant
            j <= width <= 4,
            off + width <= n == data@.len(),
            acc == le_int(data@, off + j, (width - j) as nat),
            acc < pow256((width - j) as nat),
        decreases j,
    {
        j = j - 1;
        proof {
            reveal_with_fuel(pow256, 5);
            lemma_pow256_mono((width - j - 1) as nat, 3);
            lemma_pow256_mono((width - j) as nat, 4);
        }
        acc = (data[off + j] as u32) + 256 * acc;
    }
    acc
}

} // verus!
