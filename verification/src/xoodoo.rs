//! The Xoodoo permutation on its 48-byte state.
use vstd::prelude::*;

pub mod inverse;
pub mod laws;
pub mod round;
pub mod spec;

use laws::lemma_permutation_on_bytes;
use round::round_step;
use spec::{bytes_of_words, lane_byte, le_word, round_constant, rounds, words_of_bytes, xoodoo_bytes};

verus! {

/// The Xoodoo state: 48 bytes, read as twelve little-endian 32-bit lanes.
pub struct Xoodoo {
    st: [u8; 48],
}

impl View for Xoodoo {
    type V = Seq<u8>;

    closed spec fn view(&self) -> Seq<u8> {
        self.st@
    }
}

/// The round constants, first round first.
fn round_constants() -> (rc: [u32; 12])
    ensures
        forall|r: int| 0 <= r < 12 ==> rc@[r] == #[trigger] round_constant(r),
{
    let rc = [0x058, 0x038, 0x3c0, 0x0d0, 0x120, 0x014, 0x060, 0x02c, 0x380, 0x0f0, 0x1a0, 0x012];
    assert(rc@ =~= Seq::new(12, |r: int| round_constant(r)));
    rc
}

/// Reads twelve little-endian lanes out of 48 bytes.
fn load_lanes(st: &[u8; 48]) -> (w: [u32; 12])
    ensures
        w@ == words_of_bytes(st@),
{
    let mut w = [0u32; 12];
    for i in 0..12
        invariant
            forall|j: int|
                0 <= j < i ==> w@[j] == le_word(st@[4 * j], st@[4 * j + 1], st@[4 * j + 2], st@[4 * j + 3]),
    {
        let k = 4 * i;
        w[i] = (st[k] as u32) | ((st[k + 1] as u32) << 8u32) | ((st[k + 2] as u32) << 16u32) | ((
        st[k + 3] as u32) << 24u32);
    }
    assert(w@ =~= words_of_bytes(st@));
    w
}

/// Writes twelve lanes as 48 little-endian bytes.
fn store_lanes(w: &[u32; 12]) -> (st: [u8; 48])
    ensures
        st@ == bytes_of_words(w@),
{
    let mut st = [0u8; 48];
    for i in 0..12
        invariant
            forall|j: int| 0 <= j < 4 * i ==> st@[j] == lane_byte(w@[j / 4], j % 4),
    {
        let k = 4 * i;
        let lane = w[i];
        assert(lane >> 0u32 == lane) by (bit_vector);
        st[k] = w[i] as u8;
        st[k + 1] = (w[i] >> 8u32) as u8;
        st[k + 2] = (w[i] >> 16u32) as u8;
        st[k + 3] = (w[i] >> 24u32) as u8;
        assert((4 * i) / 4 == i && (4 * i) % 4 == 0);
        assert((4 * i + 1) / 4 == i && (4 * i + 1) % 4 == 1);
        assert((4 * i + 2) / 4 == i && (4 * i + 2) % 4 == 2);
        assert((4 * i + 3) / 4 == i && (4 * i + 3) % 4 == 3);
    }
    assert(st@ =~= bytes_of_words(w@));
    st
}

impl Xoodoo {
    /// The all-zero state.
    pub fn new() -> (x: Xoodoo)
        ensures
            x@ == Seq::new(48, |i: int| 0u8),
    {
        let x = Xoodoo { st: [0u8; 48] };
        assert(x@ =~= Seq::new(48, |i: int| 0u8));
        x
    }

    /// The state that holds `bytes`.
    pub fn from_bytes(bytes: [u8; 48]) -> (x: Xoodoo)
        ensures
            x@ == bytes@,
    {
        Xoodoo { st: bytes }
    }

    /// The 48 bytes of the state.
    pub fn bytes(&self) -> (b: [u8; 48])
        ensures
            b@ == self@,
    {
        self.st
    }

    /// Permutes the 12-word state: applies the twelve rounds of Xoodoo to the
    /// lanes that the state holds in little-endian order.
    pub fn permute(&mut self)
        ensures
            final(self)@ == xoodoo_bytes(old(self)@),
            final(self)@ == bytes_of_words(rounds(words_of_bytes(old(self)@), 12)),
    {
        proof {
            lemma_permutation_on_bytes(self.st@);
        }
        let ghost start = words_of_bytes(self.st@);
        let rc = round_constants();
        let mut a = load_lanes(&self.st);
        for r in 0..12
            invariant
                a@ == rounds(start, r as nat),
                forall|k: int| 0 <= k < 12 ==> rc@[k] == #[trigger] round_constant(k),
        {
            a = round_step(&a, rc[r]);
        }
        self.st = store_lanes(&a);
    }
}

} // verus!
