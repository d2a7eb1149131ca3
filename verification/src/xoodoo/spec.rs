//! The mathematical model of Xoodoo: the state as a sequence of twelve
//! 32-bit lanes, lane `x` of plane `y` standing at index `4 * y + x`.
use vstd::prelude::*;

verus! {

/// Number of lanes in a state.
pub const LANES: usize = 12;

/// Number of bytes in a state.
pub const STATE_BYTES: usize = 48;

/// Number of rounds of the full permutation.
pub const ROUNDS: usize = 12;

/// Cyclic left rotation of a 32-bit lane by `n` positions.
pub open spec fn rotl(v: u32, n: u32) -> u32 {
    ((v << n) | (v >> ((32 - n) as u32))) as u32
}

/// `rotl` is a cyclic rotation: bit `i` of `rotl(v, n)` is bit `(i - n) mod 32`
/// of `v`.
pub proof fn lemma_rotl_bit(v: u32, n: u32, i: u32)
    requires
        0 < n < 32,
        i < 32,
    ensures
        (rotl(v, n) >> i) & 1 == (v >> ((i + 32 - n) % 32) as u32) & 1,
{
    assert((rotl(v, n) >> i) & 1 == (v >> ((i + 32 - n) % 32) as u32) & 1) by (bit_vector)
        requires
            0 < n < 32,
            i < 32,
    ;
}

/// The parity of column `x`: the xor of its lane in each of the three planes.
pub open spec fn column_parity(a: Seq<u32>, x: int) -> u32 {
    a[x] ^ a[x + 4] ^ a[x + 8]
}

/// What theta adds to every lane of column `x`: the parity of column `x - 1`
/// (modulo 4), rotated by 5 and by 14.
pub open spec fn theta_effect(a: Seq<u32>, x: int) -> u32 {
    let p = column_parity(a, (x + 3) % 4);
    rotl(p, 5) ^ rotl(p, 14)
}

/// Theta, the column parity mixer.
pub open spec fn theta(a: Seq<u32>) -> Seq<u32> {
    Seq::new(12, |i: int| a[i] ^ theta_effect(a, i % 4))
}

/// Rho-west: lane `x` of plane 1 takes lane `x - 1`, plane 2 is rotated by 11.
pub open spec fn rho_west(a: Seq<u32>) -> Seq<u32> {
    Seq::new(
        12,
        |i: int|
            if i < 4 {
                a[i]
            } else if i < 8 {
                a[4 + (i + 3) % 4]
            } else {
                rotl(a[i], 11)
            },
    )
}

/// Iota: the round constant is added to lane 0 of plane 0.
pub open spec fn iota(a: Seq<u32>, rc: u32) -> Seq<u32> {
    a.update(0, a[0] ^ rc)
}

/// Chi, the non-linear layer on the 3-bit columns:
/// each plane gets the complement of the next one and-ed with the one after.
pub open spec fn chi(a: Seq<u32>) -> Seq<u32> {
    Seq::new(12, |i: int| a[i] ^ (!a[(i + 4) % 12] & a[(i + 8) % 12]))
}

/// Rho-east: plane 1 is rotated by 1; lane `x` of plane 2 takes lane `x - 2`,
/// rotated by 8.
pub open spec fn rho_east(a: Seq<u32>) -> Seq<u32> {
    Seq::new(
        12,
        |i: int|
            if i < 4 {
                a[i]
            } else if i < 8 {
                rotl(a[i], 1)
            } else {
                rotl(a[8 + (i + 2) % 4], 8)
            },
    )
}

/// One round of Xoodoo with round constant `rc`.
pub open spec fn round(a: Seq<u32>, rc: u32) -> Seq<u32> {
    rho_east(chi(iota(rho_west(theta(a)), rc)))
}

/// The round constant of round `r` of the twelve-round permutation.
pub open spec fn round_constant(r: int) -> u32 {
    if r == 0 {
        0x058
    } else if r == 1 {
        0x038
    } else if r == 2 {
        0x3c0
    } else if r == 3 {
        0x0d0
    } else if r == 4 {
        0x120
    } else if r == 5 {
        0x014
    } else if r == 6 {
        0x060
    } else if r == 7 {
        0x02c
    } else if r == 8 {
        0x380
    } else if r == 9 {
        0x0f0
    } else if r == 10 {
        0x1a0
    } else {
        0x012
    }
}

/// The state after the first `n` rounds.
pub open spec fn rounds(a: Seq<u32>, n: nat) -> Seq<u32>
    decreases n,
{
    if n == 0 {
        a
    } else {
        round(rounds(a, (n - 1) as nat), round_constant(n - 1))
    }
}

/// The full twelve-round Xoodoo permutation on lanes.
pub open spec fn xoodoo(a: Seq<u32>) -> Seq<u32> {
    rounds(a, ROUNDS as nat)
}

/// The lane made of four bytes, least significant first.
pub open spec fn le_word(b0: u8, b1: u8, b2: u8, b3: u8) -> u32 {
    (b0 as u32) | ((b1 as u32) << 8u32) | ((b2 as u32) << 16u32) | ((b3 as u32) << 24u32)
}

/// Byte `k` (least significant first) of a lane.
pub open spec fn lane_byte(w: u32, k: int) -> u8 {
    (w >> ((8 * k) as u32)) as u8
}

/// The twelve lanes that 48 bytes hold in little-endian order.
pub open spec fn words_of_bytes(b: Seq<u8>) -> Seq<u32> {
    Seq::new(12, |i: int| le_word(b[4 * i], b[4 * i + 1], b[4 * i + 2], b[4 * i + 3]))
}

/// The 48 bytes that hold twelve lanes in little-endian order.
pub open spec fn bytes_of_words(w: Seq<u32>) -> Seq<u8> {
    Seq::new(48, |j: int| lane_byte(w[j / 4], j % 4))
}

/// The permutation as it acts on the 48-byte state.
pub open spec fn xoodoo_bytes(b: Seq<u8>) -> Seq<u8> {
    bytes_of_words(xoodoo(words_of_bytes(b)))
}

} // verus!
