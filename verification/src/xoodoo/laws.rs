//! What each part of the model does, stated lane by lane and byte by byte,
//! independently of how the model is written.
use super::spec::{
    bytes_of_words, chi, iota, lane_byte, le_word, rho_east, rho_west, rotl, round,
    round_constant, rounds, theta, words_of_bytes, xoodoo, xoodoo_bytes, ROUNDS,
};
use vstd::prelude::*;

verus! {

proof fn lemma_le_word_value(b0: u8, b1: u8, b2: u8, b3: u8)
    ensures
        le_word(b0, b1, b2, b3) == b0 + 256 * b1 + 65536 * b2 + 16777216 * b3,
{
    assert(((b0 as u32) | ((b1 as u32) << 8u32) | ((b2 as u32) << 16u32) | ((b3 as u32)
        << 24u32)) == b0 + 256 * b1 + 65536 * b2 + 16777216 * b3) by (bit_vector);
}

proof fn lemma_lane_byte_value(w: u32)
    ensures
        lane_byte(w, 0) == w % 256,
        lane_byte(w, 1) == (w / 256) % 256,
        lane_byte(w, 2) == (w / 65536) % 256,
        lane_byte(w, 3) == w / 16777216,
{
    assert({
        &&& (w >> 0u32) as u8 == w % 256
        &&& (w >> 8u32) as u8 == (w / 256) % 256
        &&& (w >> 16u32) as u8 == (w / 65536) % 256
        &&& (w >> 24u32) as u8 == w / 16777216
    }) by (bit_vector);
}

/// Lane `i` of a 48-byte state is the little-endian number held by bytes
/// `4i .. 4i + 4`, whatever the other bytes hold.
pub proof fn lemma_lanes_of_bytes(b: Seq<u8>)
    requires
        b.len() == 48,
    ensures
        words_of_bytes(b).len() == 12,
        forall|i: int|
            0 <= i < 12 ==> #[trigger] words_of_bytes(b)[i] == b[4 * i] + 256 * b[4 * i + 1] + 65536
                * b[4 * i + 2] + 16777216 * b[4 * i + 3],
{
    assert forall|i: int| 0 <= i < 12 implies #[trigger] words_of_bytes(b)[i] == b[4 * i] + 256
        * b[4 * i + 1] + 65536 * b[4 * i + 2] + 16777216 * b[4 * i + 3] by {
        lemma_le_word_value(b[4 * i], b[4 * i + 1], b[4 * i + 2], b[4 * i + 3]);
    }
}

/// Bytes `4i .. 4i + 4` of the state that holds twelve lanes are the base-256
/// digits of lane `i`, least significant first, whatever the other lanes hold.
pub proof fn lemma_bytes_of_lanes(w: Seq<u32>)
    requires
        w.len() == 12,
    ensures
        bytes_of_words(w).len() == 48,
        forall|i: int|
            #![trigger w[i]]
            0 <= i < 12 ==> {
                &&& bytes_of_words(w)[4 * i] == w[i] % 256
                &&& bytes_of_words(w)[4 * i + 1] == (w[i] / 256) % 256
                &&& bytes_of_words(w)[4 * i + 2] == (w[i] / 65536) % 256
                &&& bytes_of_words(w)[4 * i + 3] == w[i] / 16777216
            },
{
    assert forall|i: int|
        #![trigger w[i]]
        0 <= i < 12 implies {
            &&& bytes_of_words(w)[4 * i] == w[i] % 256
            &&& bytes_of_words(w)[4 * i + 1] == (w[i] / 256) % 256
            &&& bytes_of_words(w)[4 * i + 2] == (w[i] / 65536) % 256
            &&& bytes_of_words(w)[4 * i + 3] == w[i] / 16777216
        } by {
        assert((4 * i) / 4 == i && (4 * i) % 4 == 0);
        assert((4 * i + 1) / 4 == i && (4 * i + 1) % 4 == 1);
        assert((4 * i + 2) / 4 == i && (4 * i + 2) % 4 == 2);
        assert((4 * i + 3) / 4 == i && (4 * i + 3) % 4 == 3);
        lemma_lane_byte_value(w[i]);
    }
}

/// Theta adds to every lane of column `x` the parity of column `x - 1`
/// (the xor of its three lanes) rotated by 5 and by 14.
pub proof fn lemma_theta_lanes(a: Seq<u32>)
    requires
        a.len() == 12,
    ensures
        theta(a).len() == 12,
        forall|i: int|
            0 <= i < 12 ==> #[trigger] theta(a)[i] == a[i] ^ (rotl(
                a[(i + 3) % 4] ^ a[(i + 3) % 4 + 4] ^ a[(i + 3) % 4 + 8],
                5,
            ) ^ rotl(a[(i + 3) % 4] ^ a[(i + 3) % 4 + 4] ^ a[(i + 3) % 4 + 8], 14)),
{
    assert forall|i: int| 0 <= i < 12 implies #[trigger] theta(a)[i] == a[i] ^ (rotl(
        a[(i + 3) % 4] ^ a[(i + 3) % 4 + 4] ^ a[(i + 3) % 4 + 8],
        5,
    ) ^ rotl(a[(i + 3) % 4] ^ a[(i + 3) % 4 + 4] ^ a[(i + 3) % 4 + 8], 14)) by {
        assert((i % 4 + 3) % 4 == (i + 3) % 4);
    }
}

/// Rho-west keeps plane 0, moves lane `x` of plane 1 to lane `x + 1`, and
/// rotates every lane of plane 2 by 11.
pub proof fn lemma_rho_west_lanes(a: Seq<u32>)
    requires
        a.len() == 12,
    ensures
        rho_west(a).len() == 12,
        rho_west(a)[0] == a[0],
        rho_west(a)[1] == a[1],
        rho_west(a)[2] == a[2],
        rho_west(a)[3] == a[3],
        rho_west(a)[4] == a[7],
        rho_west(a)[5] == a[4],
        rho_west(a)[6] == a[5],
        rho_west(a)[7] == a[6],
        rho_west(a)[8] == rotl(a[8], 11),
        rho_west(a)[9] == rotl(a[9], 11),
        rho_west(a)[10] == rotl(a[10], 11),
        rho_west(a)[11] == rotl(a[11], 11),
{
}

/// Iota adds the round constant to lane 0 and leaves every other lane alone.
pub proof fn lemma_iota_lanes(a: Seq<u32>, rc: u32)
    requires
        a.len() == 12,
    ensures
        iota(a, rc).len() == 12,
        iota(a, rc)[0] == a[0] ^ rc,
        forall|k: int| 1 <= k < 12 ==> #[trigger] iota(a, rc)[k] == a[k],
{
}

/// Chi maps each column on its own: lane `y` of the column gets the
/// complement of lane `y + 1` and-ed with lane `y + 2` (planes modulo 3).
pub proof fn lemma_chi_lanes(a: Seq<u32>)
    requires
        a.len() == 12,
    ensures
        chi(a).len() == 12,
        forall|x: int|
            #![trigger a[x]]
            0 <= x < 4 ==> {
                &&& chi(a)[x] == a[x] ^ (!a[x + 4] & a[x + 8])
                &&& chi(a)[x + 4] == a[x + 4] ^ (!a[x + 8] & a[x])
                &&& chi(a)[x + 8] == a[x + 8] ^ (!a[x] & a[x + 4])
            },
{
    assert forall|x: int|
        #![trigger a[x]]
        0 <= x < 4 implies {
            &&& chi(a)[x] == a[x] ^ (!a[x + 4] & a[x + 8])
            &&& chi(a)[x + 4] == a[x + 4] ^ (!a[x + 8] & a[x])
            &&& chi(a)[x + 8] == a[x + 8] ^ (!a[x] & a[x + 4])
        } by {
        assert((x + 12) % 12 == x && (x + 16) % 12 == x + 4);
    }
}

/// Rho-east keeps plane 0, rotates every lane of plane 1 by 1, and moves lane
/// `x` of plane 2 to lane `x + 2`, rotated by 8.
pub proof fn lemma_rho_east_lanes(a: Seq<u32>)
    requires
        a.len() == 12,
    ensures
        rho_east(a).len() == 12,
        rho_east(a)[0] == a[0],
        rho_east(a)[1] == a[1],
        rho_east(a)[2] == a[2],
        rho_east(a)[3] == a[3],
        rho_east(a)[4] == rotl(a[4], 1),
        rho_east(a)[5] == rotl(a[5], 1),
        rho_east(a)[6] == rotl(a[6], 1),
        rho_east(a)[7] == rotl(a[7], 1),
        rho_east(a)[8] == rotl(a[10], 8),
        rho_east(a)[9] == rotl(a[11], 8),
        rho_east(a)[10] == rotl(a[8], 8),
        rho_east(a)[11] == rotl(a[9], 8),
{
}

/// A round is theta, rho-west, the round constant added to lane 0 alone,
/// chi and rho-east, in that order.
pub proof fn lemma_round_steps(a: Seq<u32>, rc: u32)
    requires
        a.len() == 12,
    ensures
        ({
            let s = rho_west(theta(a));
            round(a, rc) == rho_east(chi(s.update(0, s[0] ^ rc)))
        }),
{
}

/// The permutation runs the rounds in order, round `r` with the `r`-th of the
/// twelve constants 0x058, 0x038, 0x3c0, 0x0d0, 0x120, 0x014, 0x060, 0x02c,
/// 0x380, 0x0f0, 0x1a0, 0x012.
pub proof fn lemma_rounds_in_order(a: Seq<u32>, n: nat)
    ensures
        rounds(a, 0) == a,
        rounds(a, n + 1) == round(rounds(a, n), round_constant(n as int)),
        xoodoo(a) == rounds(a, 12),
        round_constant(0) == 0x058u32,
        round_constant(1) == 0x038u32,
        round_constant(2) == 0x3c0u32,
        round_constant(3) == 0x0d0u32,
        round_constant(4) == 0x120u32,
        round_constant(5) == 0x014u32,
        round_constant(6) == 0x060u32,
        round_constant(7) == 0x02cu32,
        round_constant(8) == 0x380u32,
        round_constant(9) == 0x0f0u32,
        round_constant(10) == 0x1a0u32,
        round_constant(11) == 0x012u32,
{
    assert(ROUNDS == 12);
}

/// The permutation of a 48-byte state: its twelve little-endian lanes go
/// through the twelve rounds, and the resulting lanes are written back in
/// little-endian order.
pub proof fn lemma_permutation_on_bytes(b: Seq<u8>)
    requires
        b.len() == 48,
    ensures
        xoodoo_bytes(b) == bytes_of_words(rounds(words_of_bytes(b), 12)),
{
    assert(ROUNDS == 12);
}

} // verus!
