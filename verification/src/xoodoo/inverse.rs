//! The inverse of the Xoodoo permutation, and the proof that `permute` is a
//! bijection on 48-byte states.
use super::spec::{
    bytes_of_words, chi, column_parity, iota, lane_byte, le_word, rho_east, rho_west, rotl,
    round, round_constant, rounds, theta, words_of_bytes, xoodoo, xoodoo_bytes,
    ROUNDS,
};
use vstd::prelude::*;

verus! {

// ---------------------------------------------------------------------------
// Inverting theta.
//
// With the column parities seen as a polynomial P in x (the column) and z (the
// bit), theta adds x * (z^5 + z^14) * P to every plane, so the parity of the
// result is (1 + x * (z^5 + z^14)) * P.  That factor is invertible modulo
// (x^4 - 1, z^32 - 1); `unmix0` .. `unmix3` are the terms of its inverse with
// x^0 .. x^3.
// ---------------------------------------------------------------------------

/// The parity of column `x` after theta, from the parities `p` of column `x`
/// and `q` of column `x - 1` (modulo 4).
pub open spec fn mix(p: u32, q: u32) -> u32 {
    p ^ rotl(q, 5) ^ rotl(q, 14)
}

/// The x^0 terms of the inverse of the parity map.
pub open spec fn unmix0(v: u32) -> u32 {
    v ^ rotl(v, 4) ^ rotl(v, 8) ^ rotl(v, 12) ^ rotl(v, 20)
}

/// The x^1 terms of the inverse of the parity map.
pub open spec fn unmix1(v: u32) -> u32 {
    rotl(v, 2) ^ rotl(v, 5) ^ rotl(v, 9) ^ rotl(v, 13) ^ rotl(v, 14) ^ rotl(v, 17) ^ rotl(v, 18)
        ^ rotl(v, 22) ^ rotl(v, 25) ^ rotl(v, 26)
}

/// The x^2 terms of the inverse of the parity map.
pub open spec fn unmix2(v: u32) -> u32 {
    v ^ rotl(v, 4) ^ rotl(v, 8) ^ rotl(v, 10) ^ rotl(v, 14) ^ rotl(v, 16) ^ rotl(v, 18) ^ rotl(v, 22)
        ^ rotl(v, 28) ^ rotl(v, 30)
}

/// The x^3 terms of the inverse of the parity map.
pub open spec fn unmix3(v: u32) -> u32 {
    v ^ rotl(v, 1) ^ rotl(v, 3) ^ rotl(v, 4) ^ rotl(v, 5) ^ rotl(v, 9) ^ rotl(v, 10) ^ rotl(v, 12)
        ^ rotl(v, 13) ^ rotl(v, 14) ^ rotl(v, 15) ^ rotl(v, 18) ^ rotl(v, 19) ^ rotl(v, 21)
        ^ rotl(v, 22) ^ rotl(v, 23) ^ rotl(v, 24) ^ rotl(v, 27) ^ rotl(v, 28) ^ rotl(v, 30)
}

/// The inverse parity map at column `x`, given the parities of columns `x`,
/// `x + 1`, `x + 2` and `x + 3` (modulo 4).
pub open spec fn unmix(p0: u32, p1: u32, p2: u32, p3: u32) -> u32 {
    unmix0(p0) ^ unmix1(p3) ^ unmix2(p2) ^ unmix3(p1)
}

/// The parity that column `x` had before theta, from the state after it.
pub open spec fn theta_inverse_parity(b: Seq<u32>, x: int) -> u32 {
    unmix(
        column_parity(b, x),
        column_parity(b, (x + 1) % 4),
        column_parity(b, (x + 2) % 4),
        column_parity(b, (x + 3) % 4),
    )
}

/// The inverse of theta.
pub open spec fn theta_inverse(b: Seq<u32>) -> Seq<u32> {
    Seq::new(
        12,
        |i: int|
            {
                let p = theta_inverse_parity(b, (i + 3) % 4);
                b[i] ^ rotl(p, 5) ^ rotl(p, 14)
            },
    )
}

/// The inverse of rho-west.
pub open spec fn rho_west_inverse(a: Seq<u32>) -> Seq<u32> {
    Seq::new(
        12,
        |i: int|
            if i < 4 {
                a[i]
            } else if i < 8 {
                a[4 + (i + 1) % 4]
            } else {
                rotl(a[i], 21)
            },
    )
}

/// The inverse of rho-east.
pub open spec fn rho_east_inverse(a: Seq<u32>) -> Seq<u32> {
    Seq::new(
        12,
        |i: int|
            if i < 4 {
                a[i]
            } else if i < 8 {
                rotl(a[i], 31)
            } else {
                rotl(a[8 + (i + 2) % 4], 24)
            },
    )
}

/// The inverse of one round; chi and iota are their own inverses.
pub open spec fn round_inverse(b: Seq<u32>, rc: u32) -> Seq<u32> {
    theta_inverse(rho_west_inverse(iota(chi(rho_east_inverse(b)), rc)))
}

/// Undoes the first `n` rounds, the last one first.
pub open spec fn rounds_inverse(b: Seq<u32>, n: nat) -> Seq<u32>
    decreases n,
{
    if n == 0 {
        b
    } else {
        rounds_inverse(round_inverse(b, round_constant(n - 1)), (n - 1) as nat)
    }
}

/// The inverse of the twelve-round permutation on lanes.
pub open spec fn xoodoo_inverse(b: Seq<u32>) -> Seq<u32> {
    rounds_inverse(b, ROUNDS as nat)
}

/// The inverse of the permutation on the 48-byte state.
pub open spec fn xoodoo_bytes_inverse(b: Seq<u8>) -> Seq<u8> {
    bytes_of_words(xoodoo_inverse(words_of_bytes(b)))
}

// ---------------------------------------------------------------------------
// Facts on single lanes, proved on bit vectors.
// ---------------------------------------------------------------------------

proof fn lemma_rotl_undo(v: u32, n: u32)
    requires
        0 < n < 32,
    ensures
        rotl(rotl(v, n), (32 - n) as u32) == v,
{
    assert(rotl(rotl(v, n), (32 - n) as u32) == v) by (bit_vector)
        requires
            0 < n < 32,
    ;
}

proof fn lemma_unmix_mix(p0: u32, p1: u32, p2: u32, p3: u32)
    ensures
        unmix(mix(p0, p3), mix(p1, p0), mix(p2, p1), mix(p3, p2)) == p0,
{
    assert(unmix(mix(p0, p3), mix(p1, p0), mix(p2, p1), mix(p3, p2)) == p0) by (bit_vector);
}

proof fn lemma_mix_unmix(p0: u32, p1: u32, p2: u32, p3: u32)
    ensures
        mix(unmix(p0, p1, p2, p3), unmix(p3, p0, p1, p2)) == p0,
{
    assert(mix(unmix(p0, p1, p2, p3), unmix(p3, p0, p1, p2)) == p0) by (bit_vector);
}

proof fn lemma_xor_twice(a: u32, r: u32, s: u32)
    ensures
        a ^ (r ^ s) ^ r ^ s == a,
        a ^ r ^ s ^ (r ^ s) == a,
        a ^ r ^ s ^ r ^ s == a,
{
    assert(a ^ (r ^ s) ^ r ^ s == a) by (bit_vector);
    assert(a ^ r ^ s ^ (r ^ s) == a) by (bit_vector);
    assert(a ^ r ^ s ^ r ^ s == a) by (bit_vector);
}

proof fn lemma_parity_shift(a0: u32, a1: u32, a2: u32, r: u32, s: u32)
    ensures
        (a0 ^ (r ^ s)) ^ (a1 ^ (r ^ s)) ^ (a2 ^ (r ^ s)) == a0 ^ a1 ^ a2 ^ r ^ s,
        (a0 ^ r ^ s) ^ (a1 ^ r ^ s) ^ (a2 ^ r ^ s) == a0 ^ a1 ^ a2 ^ r ^ s,
{
    assert((a0 ^ (r ^ s)) ^ (a1 ^ (r ^ s)) ^ (a2 ^ (r ^ s)) == a0 ^ a1 ^ a2 ^ r ^ s)
        by (bit_vector);
    assert((a0 ^ r ^ s) ^ (a1 ^ r ^ s) ^ (a2 ^ r ^ s) == a0 ^ a1 ^ a2 ^ r ^ s) by (bit_vector);
}

proof fn lemma_chi_column(a0: u32, a1: u32, a2: u32)
    ensures
        ({
            let b0 = a0 ^ (!a1 & a2);
            let b1 = a1 ^ (!a2 & a0);
            let b2 = a2 ^ (!a0 & a1);
            &&& b0 ^ (!b1 & b2) == a0
            &&& b1 ^ (!b2 & b0) == a1
            &&& b2 ^ (!b0 & b1) == a2
        }),
{
    assert({
        let b0 = a0 ^ (!a1 & a2);
        let b1 = a1 ^ (!a2 & a0);
        let b2 = a2 ^ (!a0 & a1);
        &&& b0 ^ (!b1 & b2) == a0
        &&& b1 ^ (!b2 & b0) == a1
        &&& b2 ^ (!b0 & b1) == a2
    }) by (bit_vector);
}

proof fn lemma_xor_self_inverse(a: u32, rc: u32)
    ensures
        a ^ rc ^ rc == a,
{
    assert(a ^ rc ^ rc == a) by (bit_vector);
}

proof fn lemma_lane_bytes(w: u32)
    ensures
        le_word(lane_byte(w, 0), lane_byte(w, 1), lane_byte(w, 2), lane_byte(w, 3)) == w,
{
    assert(((w >> 0u32) as u8 as u32) | (((w >> 8u32) as u8 as u32) << 8u32) | (((
    w >> 16u32) as u8 as u32) << 16u32) | (((w >> 24u32) as u8 as u32) << 24u32) == w)
        by (bit_vector);
}

proof fn lemma_word_bytes(b0: u8, b1: u8, b2: u8, b3: u8)
    ensures
        lane_byte(le_word(b0, b1, b2, b3), 0) == b0,
        lane_byte(le_word(b0, b1, b2, b3), 1) == b1,
        lane_byte(le_word(b0, b1, b2, b3), 2) == b2,
        lane_byte(le_word(b0, b1, b2, b3), 3) == b3,
{
    let w = le_word(b0, b1, b2, b3);
    assert({
        &&& (w >> 0u32) as u8 == b0
        &&& (w >> 8u32) as u8 == b1
        &&& (w >> 16u32) as u8 == b2
        &&& (w >> 24u32) as u8 == b3
    }) by (bit_vector)
        requires
            w == (b0 as u32) | ((b1 as u32) << 8u32) | ((b2 as u32) << 16u32) | ((b3 as u32)
                << 24u32),
    ;
}

// ---------------------------------------------------------------------------
// Each step undone.
// ---------------------------------------------------------------------------

proof fn lemma_theta_parity(a: Seq<u32>, x: int)
    requires
        a.len() == 12,
        0 <= x < 4,
    ensures
        column_parity(theta(a), x) == mix(column_parity(a, x), column_parity(a, (x + 3) % 4)),
{
    let q = column_parity(a, (x + 3) % 4);
    assert((x + 4) % 4 == x && (x + 8) % 4 == x);
    lemma_parity_shift(a[x], a[x + 4], a[x + 8], rotl(q, 5), rotl(q, 14));
}

proof fn lemma_theta_inverse_parity(a: Seq<u32>, x: int)
    requires
        a.len() == 12,
        0 <= x < 4,
    ensures
        theta_inverse_parity(theta(a), x) == column_parity(a, x),
{
    let x1 = (x + 1) % 4;
    let x2 = (x + 2) % 4;
    let x3 = (x + 3) % 4;
    lemma_theta_parity(a, x);
    lemma_theta_parity(a, x1);
    lemma_theta_parity(a, x2);
    lemma_theta_parity(a, x3);
    assert((x1 + 3) % 4 == x);
    assert((x2 + 3) % 4 == x1);
    assert((x3 + 3) % 4 == x2);
    lemma_unmix_mix(
        column_parity(a, x),
        column_parity(a, x1),
        column_parity(a, x2),
        column_parity(a, x3),
    );
}

proof fn lemma_theta_inverse_theta(a: Seq<u32>)
    requires
        a.len() == 12,
    ensures
        theta_inverse(theta(a)) == a,
{
    let b = theta(a);
    assert forall|i: int| 0 <= i < 12 implies #[trigger] theta_inverse(b)[i] == a[i] by {
        let x = (i + 3) % 4;
        assert((i % 4 + 3) % 4 == x);
        lemma_theta_inverse_parity(a, x);
        let q = column_parity(a, x);
        lemma_xor_twice(a[i], rotl(q, 5), rotl(q, 14));
    }
    assert(theta_inverse(b) =~= a);
}

proof fn lemma_theta_theta_inverse(b: Seq<u32>)
    requires
        b.len() == 12,
    ensures
        theta(theta_inverse(b)) == b,
{
    let c = theta_inverse(b);
    assert forall|x: int| 0 <= x < 4 implies #[trigger] column_parity(c, x)
        == theta_inverse_parity(b, x) by {
        let pb = column_parity(b, x);
        let q = theta_inverse_parity(b, (x + 3) % 4);
        assert((x + 4) % 4 == x && (x + 8) % 4 == x);
        assert(((x + 3) % 4 + 1) % 4 == x);
        assert(((x + 3) % 4 + 2) % 4 == (x + 1) % 4);
        assert(((x + 3) % 4 + 3) % 4 == (x + 2) % 4);
        lemma_parity_shift(b[x], b[x + 4], b[x + 8], rotl(q, 5), rotl(q, 14));
        lemma_mix_unmix(
            column_parity(b, x),
            column_parity(b, (x + 1) % 4),
            column_parity(b, (x + 2) % 4),
            column_parity(b, (x + 3) % 4),
        );
        lemma_xor_twice(theta_inverse_parity(b, x), rotl(q, 5), rotl(q, 14));
    }
    assert forall|i: int| 0 <= i < 12 implies #[trigger] theta(c)[i] == b[i] by {
        let x = (i + 3) % 4;
        assert((i % 4 + 3) % 4 == x);
        let q = theta_inverse_parity(b, x);
        assert(column_parity(c, x) == q);
        lemma_xor_twice(b[i], rotl(q, 5), rotl(q, 14));
    }
    assert(theta(c) =~= b);
}

proof fn lemma_rho_west_inverse(a: Seq<u32>)
    requires
        a.len() == 12,
    ensures
        rho_west_inverse(rho_west(a)) == a,
        rho_west(rho_west_inverse(a)) == a,
{
    assert forall|i: int|
        #![trigger rho_west_inverse(rho_west(a))[i]]
        #![trigger rho_west(rho_west_inverse(a))[i]]
        0 <= i < 12 implies rho_west_inverse(rho_west(a))[i] == a[i] && rho_west(rho_west_inverse(a))[i]
            == a[i] by {
        if 4 <= i < 8 {
            assert(4 + (4 + (i + 1) % 4 + 3) % 4 == i);
            assert(4 + (4 + (i + 3) % 4 + 1) % 4 == i);
        } else if 8 <= i {
            lemma_rotl_undo(a[i], 11);
            lemma_rotl_undo(a[i], 21);
        }
    }
    assert(rho_west_inverse(rho_west(a)) =~= a);
    assert(rho_west(rho_west_inverse(a)) =~= a);
}

proof fn lemma_rho_east_inverse(a: Seq<u32>)
    requires
        a.len() == 12,
    ensures
        rho_east_inverse(rho_east(a)) == a,
        rho_east(rho_east_inverse(a)) == a,
{
    assert forall|i: int|
        #![trigger rho_east_inverse(rho_east(a))[i]]
        #![trigger rho_east(rho_east_inverse(a))[i]]
        0 <= i < 12 implies rho_east_inverse(rho_east(a))[i] == a[i] && rho_east(rho_east_inverse(a))[i]
            == a[i] by {
        if i < 4 {
        } else if i < 8 {
            lemma_rotl_undo(a[i], 1);
            lemma_rotl_undo(a[i], 31);
        } else {
            assert(8 + (8 + (i + 2) % 4 + 2) % 4 == i);
            lemma_rotl_undo(a[i], 8);
            lemma_rotl_undo(a[i], 24);
        }
    }
    assert(rho_east_inverse(rho_east(a)) =~= a);
    assert(rho_east(rho_east_inverse(a)) =~= a);
}

proof fn lemma_chi_involution(a: Seq<u32>)
    requires
        a.len() == 12,
    ensures
        chi(chi(a)) == a,
{
    assert forall|i: int| 0 <= i < 12 implies #[trigger] chi(chi(a))[i] == a[i] by {
        let x = i % 4;
        lemma_chi_column(a[x], a[x + 4], a[x + 8]);
        assert((x + 12) % 12 == x && (x + 16) % 12 == x + 4);
    }
    assert(chi(chi(a)) =~= a);
}

proof fn lemma_iota_involution(a: Seq<u32>, rc: u32)
    requires
        a.len() == 12,
    ensures
        iota(iota(a, rc), rc) == a,
{
    lemma_xor_self_inverse(a[0], rc);
    assert(iota(iota(a, rc), rc) =~= a);
}

proof fn lemma_round_inverse_round(a: Seq<u32>, rc: u32)
    requires
        a.len() == 12,
    ensures
        round_inverse(round(a, rc), rc) == a,
{
    let t = theta(a);
    let w = rho_west(t);
    let i = iota(w, rc);
    let c = chi(i);
    lemma_rho_east_inverse(c);
    assert(rho_east_inverse(rho_east(c)) == c);
    lemma_chi_involution(i);
    assert(chi(c) == i);
    lemma_iota_involution(w, rc);
    assert(iota(i, rc) == w);
    lemma_rho_west_inverse(t);
    assert(rho_west_inverse(w) == t);
    lemma_theta_inverse_theta(a);
}

proof fn lemma_round_round_inverse(a: Seq<u32>, rc: u32)
    requires
        a.len() == 12,
    ensures
        round(round_inverse(a, rc), rc) == a,
{
    let e = rho_east_inverse(a);
    let c = chi(e);
    let i = iota(c, rc);
    let w = rho_west_inverse(i);
    lemma_theta_theta_inverse(w);
    assert(theta(theta_inverse(w)) == w);
    lemma_rho_west_inverse(i);
    assert(rho_west(w) == i);
    lemma_iota_involution(c, rc);
    assert(iota(i, rc) == c);
    lemma_chi_involution(e);
    assert(chi(c) == e);
    lemma_rho_east_inverse(a);
}

/// A round and its inverse undo each other.
proof fn lemma_round_inverse(a: Seq<u32>, rc: u32)
    requires
        a.len() == 12,
    ensures
        round_inverse(round(a, rc), rc) == a,
        round(round_inverse(a, rc), rc) == a,
{
    lemma_round_inverse_round(a, rc);
    lemma_round_round_inverse(a, rc);
}

proof fn lemma_rounds_len(a: Seq<u32>, n: nat)
    requires
        a.len() == 12,
    ensures
        rounds(a, n).len() == 12,
        rounds_inverse(a, n).len() == 12,
    decreases n,
{
    if n > 0 {
        lemma_rounds_len(a, (n - 1) as nat);
        lemma_rounds_len(round_inverse(a, round_constant(n - 1)), (n - 1) as nat);
    }
}

proof fn lemma_rounds_inverse(a: Seq<u32>, n: nat)
    requires
        a.len() == 12,
    ensures
        rounds_inverse(rounds(a, n), n) == a,
        rounds(rounds_inverse(a, n), n) == a,
    decreases n,
{
    if n > 0 {
        let rc = round_constant(n - 1);
        lemma_rounds_len(a, (n - 1) as nat);
        lemma_rounds_inverse(a, (n - 1) as nat);
        lemma_round_inverse(rounds(a, (n - 1) as nat), rc);
        let b = round_inverse(a, rc);
        lemma_rounds_inverse(b, (n - 1) as nat);
        lemma_round_inverse(a, rc);
    }
}

proof fn lemma_words_bytes_roundtrip(w: Seq<u32>, b: Seq<u8>)
    requires
        w.len() == 12,
        b.len() == 48,
    ensures
        words_of_bytes(bytes_of_words(w)) == w,
        bytes_of_words(words_of_bytes(b)) == b,
{
    let bw = bytes_of_words(w);
    assert forall|i: int| 0 <= i < 12 implies #[trigger] words_of_bytes(bw)[i] == w[i] by {
        assert((4 * i) / 4 == i && (4 * i) % 4 == 0);
        assert((4 * i + 1) / 4 == i && (4 * i + 1) % 4 == 1);
        assert((4 * i + 2) / 4 == i && (4 * i + 2) % 4 == 2);
        assert((4 * i + 3) / 4 == i && (4 * i + 3) % 4 == 3);
        lemma_lane_bytes(w[i]);
    }
    assert(words_of_bytes(bw) =~= w);
    let wb = words_of_bytes(b);
    assert forall|j: int| 0 <= j < 48 implies #[trigger] bytes_of_words(wb)[j] == b[j] by {
        let i = j / 4;
        assert(4 * i <= j < 4 * i + 4);
        lemma_word_bytes(b[4 * i], b[4 * i + 1], b[4 * i + 2], b[4 * i + 3]);
    }
    assert(bytes_of_words(wb) =~= b);
}

/// `permute` is a permutation of the 48-byte states: `xoodoo_bytes_inverse`
/// undoes it, and it undoes `xoodoo_bytes_inverse`.
pub proof fn lemma_permute_bijective(b: Seq<u8>)
    requires
        b.len() == 48,
    ensures
        xoodoo_bytes_inverse(xoodoo_bytes(b)) == b,
        xoodoo_bytes(xoodoo_bytes_inverse(b)) == b,
{
    let w = words_of_bytes(b);
    lemma_rounds_len(w, ROUNDS as nat);
    lemma_rounds_inverse(w, ROUNDS as nat);
    lemma_words_bytes_roundtrip(xoodoo(w), b);
    lemma_words_bytes_roundtrip(xoodoo_inverse(w), b);
}

/// Two states that `permute` maps to the same state are the same state.
pub proof fn lemma_permute_injective(b1: Seq<u8>, b2: Seq<u8>)
    requires
        b1.len() == 48,
        b2.len() == 48,
        xoodoo_bytes(b1) == xoodoo_bytes(b2),
    ensures
        b1 == b2,
{
    lemma_permute_bijective(b1);
    lemma_permute_bijective(b2);
}

} // verus!
