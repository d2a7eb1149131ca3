//! The steps of one Xoodoo round on twelve lanes, each proved equal to its
//! model in `spec`.
use super::laws::{lemma_chi_lanes, lemma_round_steps, lemma_theta_lanes};
use super::spec::{chi, iota, lemma_rotl_bit, rho_east, rho_west, rotl, round, theta};
use vstd::prelude::*;

verus! {

/// Cyclic left rotation of a lane.
pub fn rotl_lane(v: u32, n: u32) -> (r: u32)
    requires
        0 < n < 32,
    ensures
        r == rotl(v, n),
        forall|i: u32| i < 32 ==> (#[trigger] (r >> i) & 1) == (v >> ((i + 32 - n) % 32) as u32) & 1,
{
    let r = (v << n) | (v >> (32 - n));
    assert forall|i: u32| i < 32 implies (#[trigger] (r >> i) & 1) == (v >> ((i + 32 - n)
        % 32) as u32) & 1 by {
        lemma_rotl_bit(v, n, i);
    }
    r
}

/// Theta on twelve lanes.
pub fn theta_step(a: &[u32; 12]) -> (b: [u32; 12])
    ensures
        b@ == theta(a@),
        forall|i: int|
            0 <= i < 12 ==> #[trigger] b[i] == a[i] ^ (rotl(
                a[(i + 3) % 4] ^ a[(i + 3) % 4 + 4] ^ a[(i + 3) % 4 + 8],
                5,
            ) ^ rotl(a[(i + 3) % 4] ^ a[(i + 3) % 4 + 4] ^ a[(i + 3) % 4 + 8], 14)),
{
    proof {
        lemma_theta_lanes(a@);
    }
    let p0 = a[0] ^ a[4] ^ a[8];
    let p1 = a[1] ^ a[5] ^ a[9];
    let p2 = a[2] ^ a[6] ^ a[10];
    let p3 = a[3] ^ a[7] ^ a[11];
    let e0 = rotl_lane(p3, 5) ^ rotl_lane(p3, 14);
    let e1 = rotl_lane(p0, 5) ^ rotl_lane(p0, 14);
    let e2 = rotl_lane(p1, 5) ^ rotl_lane(p1, 14);
    let e3 = rotl_lane(p2, 5) ^ rotl_lane(p2, 14);
    let b = [
        a[0] ^ e0,
        a[1] ^ e1,
        a[2] ^ e2,
        a[3] ^ e3,
        a[4] ^ e0,
        a[5] ^ e1,
        a[6] ^ e2,
        a[7] ^ e3,
        a[8] ^ e0,
        a[9] ^ e1,
        a[10] ^ e2,
        a[11] ^ e3,
    ];
    assert(b@ =~= theta(a@));
    b
}

/// Rho-west and iota on twelve lanes.
pub fn rho_west_iota_step(a: &[u32; 12], rc: u32) -> (b: [u32; 12])
    ensures
        b@ == iota(rho_west(a@), rc),
        b[0] == a[0] ^ rc,
        b[1] == a[1],
        b[2] == a[2],
        b[3] == a[3],
        b[4] == a[7],
        b[5] == a[4],
        b[6] == a[5],
        b[7] == a[6],
        b[8] == rotl(a[8], 11),
        b[9] == rotl(a[9], 11),
        b[10] == rotl(a[10], 11),
        b[11] == rotl(a[11], 11),
{
    let b = [
        a[0] ^ rc,
        a[1],
        a[2],
        a[3],
        a[7],
        a[4],
        a[5],
        a[6],
        rotl_lane(a[8], 11),
        rotl_lane(a[9], 11),
        rotl_lane(a[10], 11),
        rotl_lane(a[11], 11),
    ];
    assert(b@ =~= iota(rho_west(a@), rc));
    b
}

/// Chi on twelve lanes.
pub fn chi_step(a: &[u32; 12]) -> (b: [u32; 12])
    ensures
        b@ == chi(a@),
        forall|x: int|
            #![trigger a[x]]
            0 <= x < 4 ==> {
                &&& b[x] == a[x] ^ (!a[x + 4] & a[x + 8])
                &&& b[x + 4] == a[x + 4] ^ (!a[x + 8] & a[x])
                &&& b[x + 8] == a[x + 8] ^ (!a[x] & a[x + 4])
            },
{
    proof {
        lemma_chi_lanes(a@);
    }
    let b = [
        a[0] ^ (!a[4] & a[8]),
        a[1] ^ (!a[5] & a[9]),
        a[2] ^ (!a[6] & a[10]),
        a[3] ^ (!a[7] & a[11]),
        a[4] ^ (!a[8] & a[0]),
        a[5] ^ (!a[9] & a[1]),
        a[6] ^ (!a[10] & a[2]),
        a[7] ^ (!a[11] & a[3]),
        a[8] ^ (!a[0] & a[4]),
        a[9] ^ (!a[1] & a[5]),
        a[10] ^ (!a[2] & a[6]),
        a[11] ^ (!a[3] & a[7]),
    ];
    assert(b@ =~= chi(a@));
    b
}

/// Rho-east on twelve lanes.
pub fn rho_east_step(a: &[u32; 12]) -> (b: [u32; 12])
    ensures
        b@ == rho_east(a@),
        b[0] == a[0],
        b[1] == a[1],
        b[2] == a[2],
        b[3] == a[3],
        b[4] == rotl(a[4], 1),
        b[5] == rotl(a[5], 1),
        b[6] == rotl(a[6], 1),
        b[7] == rotl(a[7], 1),
        b[8] == rotl(a[10], 8),
        b[9] == rotl(a[11], 8),
        b[10] == rotl(a[8], 8),
        b[11] == rotl(a[9], 8),
{
    let b = [
        a[0],
        a[1],
        a[2],
        a[3],
        rotl_lane(a[4], 1),
        rotl_lane(a[5], 1),
        rotl_lane(a[6], 1),
        rotl_lane(a[7], 1),
        rotl_lane(a[10], 8),
        rotl_lane(a[11], 8),
        rotl_lane(a[8], 8),
        rotl_lane(a[9], 8),
    ];
    assert(b@ =~= rho_east(a@));
    b
}

/// One full round with round constant `rc`.
pub fn round_step(a: &[u32; 12], rc: u32) -> (b: [u32; 12])
    ensures
        b@ == round(a@, rc),
        ({
            let s = rho_west(theta(a@));
            b@ == rho_east(chi(s.update(0, s[0] ^ rc)))
        }),
{
    proof {
        lemma_round_steps(a@, rc);
    }
    let t = theta_step(a);
    let w = rho_west_iota_step(&t, rc);
    let c = chi_step(&w);
    rho_east_step(&c)
}

} // verus!
