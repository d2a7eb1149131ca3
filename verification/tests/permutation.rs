use micro_xoodyak::xoodoo::round::{
    chi_step, rho_east_step, rho_west_iota_step, rotl_lane, round_step, theta_step,
};
use micro_xoodyak::Xoodoo;

const LANES_IN: [u32; 12] = [
    0x9e3779b9, 0x3d6ff273, 0xd8a46f29, 0x7bdee5e7, 0x13116499, 0xb049df53, 0x55825209, 0xf6bccacf,
    0x87fb4f89, 0x2723c833, 0xc66830f9, 0x6192bfa7,
];

fn hex(s: &str) -> [u8; 48] {
    let mut out = [0u8; 48];
    for i in 0..48 {
        out[i] = u8::from_str_radix(&s[2 * i..2 * i + 2], 16).unwrap();
    }
    out
}

fn lanes_to_bytes(w: &[u32; 12]) -> [u8; 48] {
    let mut out = [0u8; 48];
    for i in 0..12 {
        out[4 * i..4 * i + 4].copy_from_slice(&w[i].to_le_bytes());
    }
    out
}

fn permuted(bytes: [u8; 48]) -> [u8; 48] {
    let mut x = Xoodoo::from_bytes(bytes);
    x.permute();
    x.bytes()
}

#[test]
fn new_state_is_zero() {
    assert_eq!(Xoodoo::new().bytes(), [0u8; 48]);
}

#[test]
fn from_bytes_then_bytes_gives_them_back() {
    let mut b = [0u8; 48];
    for i in 0..48 {
        b[i] = (3 * i + 1) as u8;
    }
    assert_eq!(Xoodoo::from_bytes(b).bytes(), b);
}

#[test]
fn rotation_of_a_lane() {
    assert_eq!(rotl_lane(0x8000_0001, 1), 0x0000_0003);
    assert_eq!(rotl_lane(0x1234_5678, 8), 0x3456_7812);
    assert_eq!(rotl_lane(0x1234_5678, 31), 0x1234_5678u32.rotate_left(31));
    for n in 1..32 {
        assert_eq!(rotl_lane(0xdead_beef, n), 0xdead_beefu32.rotate_left(n));
    }
}

#[test]
fn theta_on_known_lanes() {
    assert_eq!(
        theta_step(&LANES_IN),
        [
            0x24069378, 0x326fe5e5, 0xe15c27dd, 0x91690c1d, 0xa9208e58, 0xbf49c8c5, 0x6c7a1afd,
            0x1c0b2335, 0x3dcaa548, 0x2823dfa5, 0xff90780d, 0x8b25565d
        ]
    );
}

#[test]
fn rho_west_and_iota_on_known_lanes() {
    assert_eq!(
        rho_west_iota_step(&LANES_IN, 0x058),
        [
            0x9e3779e1, 0x3d6ff273, 0xd8a46f29, 0x7bdee5e7, 0xf6bccacf, 0x13116499, 0xb049df53,
            0x55825209, 0xda7c4c3f, 0x1e419939, 0x4187ce33, 0x95fd3b0c
        ]
    );
}

#[test]
fn chi_on_known_lanes() {
    assert_eq!(
        chi_step(&LANES_IN),
        [
            0x1add72b9, 0x3a4df253, 0x5acc4fd9, 0x7adcd0c7, 0x0b1554a9, 0xa805ed13, 0x4d061d09,
            0xecf08a8f, 0x86fb4b89, 0xa723c533, 0xc36a20f9, 0xe5b2b5af
        ]
    );
}

#[test]
fn chi_twice_is_identity() {
    assert_eq!(chi_step(&chi_step(&LANES_IN)), LANES_IN);
}

#[test]
fn rho_east_on_known_lanes() {
    assert_eq!(
        rho_east_step(&LANES_IN),
        [
            0x9e3779b9, 0x3d6ff273, 0xd8a46f29, 0x7bdee5e7, 0x2622c932, 0x6093bea7, 0xab04a412,
            0xed79959f, 0x6830f9c6, 0x92bfa761, 0xfb4f8987, 0x23c83327
        ]
    );
}

#[test]
fn one_round_on_known_lanes() {
    assert_eq!(
        round_step(&LANES_IN, 0x058),
        [
            0x6526d3ea, 0x24b2c4e4, 0xe1dc00e5, 0x93e9e81d, 0x781f626a, 0x124495f9, 0xbeab9189,
            0xfa6635f3, 0xc1a7fc9d, 0xa0feb946, 0x2361fb4d, 0xfd235997
        ]
    );
}

#[test]
fn permute_zero_state() {
    let expected: [u8; 48] = [
        141, 216, 213, 137, 191, 252, 99, 169, 25, 45, 35, 27, 20, 160, 165, 255, 6, 129, 177, 54,
        254, 193, 199, 175, 190, 124, 229, 174, 189, 64, 117, 167, 112, 232, 134, 46, 201, 183,
        245, 254, 242, 173, 79, 139, 98, 64, 79, 94,
    ];
    assert_eq!(permuted([0u8; 48]), expected);
}

#[test]
fn permute_counting_bytes() {
    let mut b = [0u8; 48];
    for i in 0..48 {
        b[i] = i as u8;
    }
    assert_eq!(
        permuted(b),
        hex("7633aeb55dccbf60d4a6dfd7506d06bfb2ac97ae970d8ad31385117bb775a741b3b1540bb53be96f3b2b8fafa676a3b6")
    );
    assert_eq!(
        permuted(permuted(b)),
        hex("c7e393a6cf34cc83be0166ce6ef9f19f7442a68cca03db68765e7aa1534146a64e028275801fea7634c37da82e3ab8bd")
    );
}

#[test]
fn permute_known_lanes() {
    let expected: [u32; 12] = [
        0x026c7361, 0x1e229c93, 0xe063ac03, 0x0b41e2d3, 0xb0901943, 0x110d0e58, 0xc418ab95,
        0x395d6cb3, 0x0b14faa1, 0x3fe9d6db, 0xdbfa27a9, 0xc4a28bd3,
    ];
    assert_eq!(permuted(lanes_to_bytes(&LANES_IN)), lanes_to_bytes(&expected));
}

#[test]
fn permute_separates_states_one_bit_apart() {
    let mut a = [0u8; 48];
    for i in 0..48 {
        a[i] = i as u8;
    }
    let mut b = a;
    b[47] ^= 0x80;
    assert_ne!(permuted(a), permuted(b));
    assert_eq!(
        permuted(b),
        hex("649e6785002e8aca48c64b3ba0fd85292b63fc6096a9d35bd711dda60472fb240370dd6a137dad633e10e081e5843bbe")
    );
}

/// The Xoodyak hash mode of the Cyclist construction, written around the
/// library's permutation, checked against the published answer for the
/// empty message.
fn xoodyak_hash(msg: &[u8], out_len: usize) -> Vec<u8> {
    const RATE: usize = 16;
    let mut st = Xoodoo::new();
    let mut blocks: Vec<&[u8]> = msg.chunks(RATE).collect();
    if blocks.is_empty() {
        blocks.push(&[]);
    }
    let mut first = true;
    for blk in blocks {
        let mut b = st.bytes();
        if !first {
            st.permute();
            b = st.bytes();
        }
        for (i, c) in blk.iter().enumerate() {
            b[i] ^= c;
        }
        b[blk.len()] ^= 0x01;
        if first {
            b[47] ^= 0x01;
        }
        st = Xoodoo::from_bytes(b);
        first = false;
    }
    let mut out = Vec::new();
    let mut first_squeeze = true;
    while out.len() < out_len {
        if !first_squeeze {
            let mut b = st.bytes();
            b[0] ^= 0x01;
            st = Xoodoo::from_bytes(b);
        }
        st.permute();
        let n = RATE.min(out_len - out.len());
        out.extend_from_slice(&st.bytes()[..n]);
        first_squeeze = false;
    }
    out
}

#[test]
fn xoodyak_hash_of_empty_message() {
    let digest = xoodyak_hash(b"", 32);
    let expected = [
        0xEA, 0x15, 0x2F, 0x2B, 0x47, 0xBC, 0xE2, 0x4E, 0xFB, 0x66, 0xC4, 0x79, 0xD4, 0xAD, 0xF1,
        0x7B, 0xD3, 0x24, 0xD8, 0x06, 0xE8, 0x5F, 0xF7, 0x5E, 0xE3, 0x69, 0xEE, 0x50, 0xDC, 0x8F,
        0x8B, 0xD1,
    ];
    assert_eq!(digest, expected.to_vec());
}
