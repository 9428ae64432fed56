use evm_signer::u256::{add_mod, mul_mod, pow_mod, U256};

fn u256_from(v: u64) -> U256 {
    U256::from_u64(v)
}

fn secp_p_bytes() -> [u8; 32] {
    let mut p = [0xffu8; 32];
    p[27] = 0xfe;
    p[28] = 0xff;
    p[29] = 0xff;
    p[30] = 0xfc;
    p[31] = 0x2f;
    p
}

#[test]
fn small_modular_arithmetic() {
    let m = u256_from(97);
    assert_eq!(add_mod(u256_from(50), u256_from(60), m), u256_from(13));
    assert_eq!(add_mod(u256_from(0), u256_from(0), m), u256_from(0));
    assert_eq!(mul_mod(u256_from(50), u256_from(60), m), u256_from(3000 % 97));
    assert_eq!(pow_mod(u256_from(5), u256_from(3), m), u256_from(125 % 97));
    assert_eq!(pow_mod(u256_from(2), u256_from(10), u256_from(1000)), u256_from(24));
    assert_eq!(pow_mod(u256_from(7), u256_from(0), u256_from(13)), u256_from(1));
}

#[test]
fn wide_multiplication_never_truncates() {
    // Cross-check against a double-width reference: a 512-bit product
    // reduced afterwards, the shape a truncating implementation gets wrong.
    let p = U256::from_be_bytes(&secp_p_bytes());
    let mut a_bytes = [0u8; 32];
    a_bytes[0] = 0x80; // 2^255
    let mut cases: Vec<([u8; 32], [u8; 32])> = Vec::new();
    let mut b_bytes = [0u8; 32];
    b_bytes[31] = 3;
    cases.push((a_bytes, b_bytes));
    let mut c = [0x5au8; 32];
    c[0] = 0x7f;
    cases.push((c, [0xa5u8; 32]));
    for (ab, bb) in cases {
        // Inputs must be reduced below p first.
        let ar = primitive_types::U256::from_big_endian(&ab)
            % primitive_types::U256::from_big_endian(&secp_p_bytes());
        let br = primitive_types::U256::from_big_endian(&bb)
            % primitive_types::U256::from_big_endian(&secp_p_bytes());
        let wide = ar.full_mul(br);
        let reduced = wide
            % primitive_types::U512::from_big_endian(&{
                let mut w = [0u8; 64];
                w[32..].copy_from_slice(&secp_p_bytes());
                w
            });
        let mut expect64 = [0u8; 64];
        reduced.to_big_endian(&mut expect64);
        let mut ar_bytes = [0u8; 32];
        ar.to_big_endian(&mut ar_bytes);
        let mut br_bytes = [0u8; 32];
        br.to_big_endian(&mut br_bytes);
        let ours = mul_mod(
            U256::from_be_bytes(&ar_bytes),
            U256::from_be_bytes(&br_bytes),
            p,
        );
        assert_eq!(&ours.to_be_bytes()[..], &expect64[32..]);
    }
}

#[test]
fn byte_round_trips_and_comparisons() {
    let p = U256::from_be_bytes(&secp_p_bytes());
    assert_eq!(p.to_be_bytes(), secp_p_bytes().to_vec());
    let one = u256_from(1);
    assert!(one.lt(&p));
    assert!(!p.lt(&one));
    assert!(!p.lt(&p));
    assert!(p.equals(&p));
    assert!(!p.equals(&one));
    assert!(p.is_odd());
    assert!(one.is_odd());
    assert!(!u256_from(6).is_odd());
    let (sum, carry) = p.overflowing_add(&one);
    assert!(!carry);
    let (diff, borrow) = sum.overflowing_sub(&one);
    assert!(!borrow);
    assert_eq!(diff, p);
    let (_, wrapped) = U256 {
        w0: u64::MAX,
        w1: u64::MAX,
        w2: u64::MAX,
        w3: u64::MAX,
    }
    .overflowing_add(&one);
    assert!(wrapped);
}
