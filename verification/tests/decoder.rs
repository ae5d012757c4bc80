use groth16_bridge::scalar::{modulus_limbs, neg_pow256_offset_limbs, Scalar};
use groth16_bridge::witness::{decode_block, encode_block, witness_assignments};
use groth16_bridge::ProveError;
use num_bigint::BigUint;
use num_traits::One;

/// The order of the BN254 scalar field, in decimal.
fn field_order() -> BigUint {
    BigUint::parse_bytes(
        b"21888242871839275222246405745257275088548364400416034343698204186575808495617",
        10,
    )
    .unwrap()
}

/// Eight little-endian 32-bit limbs of a value below 2^256.
fn limbs_of(v: &BigUint) -> Vec<u32> {
    let mut d = v.to_u32_digits();
    assert!(d.len() <= 8);
    d.resize(8, 0);
    d
}

/// One 32-byte block in the wire format: limbs most-significant first,
/// each limb little-endian.
fn block_of(v: &BigUint) -> Vec<u8> {
    let limbs = limbs_of(v);
    let mut out = Vec::new();
    for k in 0..8 {
        out.extend_from_slice(&limbs[7 - k].to_le_bytes());
    }
    out
}

#[test]
fn modulus_limbs_match_decimal_order() {
    assert_eq!(modulus_limbs(), limbs_of(&field_order()));
}

#[test]
fn offset_limbs_are_six_r_minus_pow256() {
    let expected = field_order() * 6u32 - (BigUint::one() << 256);
    assert_eq!(neg_pow256_offset_limbs(), limbs_of(&expected));
}

#[test]
fn decode_small_nonnegative() {
    let block = block_of(&BigUint::from(5u32));
    let elems = witness_assignments(&block).unwrap();
    assert_eq!(elems.len(), 1);
    assert_eq!(elems[0].to_limbs(), limbs_of(&BigUint::from(5u32)));
}

#[test]
fn decode_implicit_one() {
    let block = block_of(&BigUint::one());
    let elems = witness_assignments(&block).unwrap();
    assert_eq!(elems.len(), 1);
    assert_eq!(elems[0].to_limbs(), limbs_of(&BigUint::one()));
}

#[test]
fn decode_pow_128_probes_middle_limbs() {
    let v = BigUint::one() << 128;
    let block = block_of(&v);
    // the single set limb sits at stream positions 12..16
    assert_eq!(&block[12..16], &[1, 0, 0, 0]);
    assert!(block[..12].iter().all(|&b| b == 0));
    assert!(block[16..].iter().all(|&b| b == 0));
    let elems = witness_assignments(&block).unwrap();
    assert_eq!(elems[0].to_limbs(), limbs_of(&v));
}

#[test]
fn decode_all_ones_block_is_minus_one() {
    let block = vec![0xffu8; 32];
    let elems = witness_assignments(&block).unwrap();
    let expected = field_order() - BigUint::one();
    assert_eq!(elems[0].to_limbs(), limbs_of(&expected));
}

#[test]
fn decode_negative_five() {
    let v = (BigUint::one() << 256) - BigUint::from(5u32);
    let block = block_of(&v);
    let elems = witness_assignments(&block).unwrap();
    let expected = field_order() - BigUint::from(5u32);
    assert_eq!(elems[0].to_limbs(), limbs_of(&expected));
}

#[test]
fn decode_negative_order_is_zero() {
    let v = (BigUint::one() << 256) - field_order();
    let block = block_of(&v);
    let elems = witness_assignments(&block).unwrap();
    assert_eq!(elems[0].to_limbs(), vec![0u32; 8]);
}

#[test]
fn decode_large_unsigned_reduces_mod_order() {
    // 2^254 has no sign bit set, so it is read as the non-negative
    // 2^254 and reduced modulo r.
    let v = BigUint::one() << 254;
    let block = block_of(&v);
    let elems = witness_assignments(&block).unwrap();
    let expected = v % field_order();
    assert_eq!(elems[0].to_limbs(), limbs_of(&expected));
}

#[test]
fn decode_order_minus_one_stays_canonical() {
    let v = field_order() - BigUint::one();
    let block = block_of(&v);
    let elems = witness_assignments(&block).unwrap();
    assert_eq!(elems[0].to_limbs(), limbs_of(&v));
}

#[test]
fn decode_order_itself_reduces_to_zero() {
    let block = block_of(&field_order());
    let elems = witness_assignments(&block).unwrap();
    assert_eq!(elems[0].to_limbs(), vec![0u32; 8]);
}

#[test]
fn empty_stream_decodes_to_no_elements() {
    let elems = witness_assignments(&[]).unwrap();
    assert_eq!(elems.len(), 0);
}

#[test]
fn two_blocks_decode_to_two_elements_in_order() {
    let mut bytes = block_of(&BigUint::from(7u32));
    bytes.extend_from_slice(&block_of(&BigUint::from(15u32)));
    let elems = witness_assignments(&bytes).unwrap();
    assert_eq!(elems.len(), 2);
    assert_eq!(elems[0].to_limbs(), limbs_of(&BigUint::from(7u32)));
    assert_eq!(elems[1].to_limbs(), limbs_of(&BigUint::from(15u32)));
}

#[test]
fn misaligned_stream_is_rejected() {
    let bytes = vec![0u8; 33];
    assert_eq!(witness_assignments(&bytes).unwrap_err(), ProveError::MalformedWitness);
    let bytes = vec![0u8; 31];
    assert_eq!(witness_assignments(&bytes).unwrap_err(), ProveError::MalformedWitness);
}

#[test]
fn encode_then_decode_recovers_element() {
    let mut limbs = limbs_of(&BigUint::from(123456789u64));
    limbs[3] = 0xdead_beef;
    let s = Scalar::from_limbs_mod_order(limbs);
    let block = encode_block(&s);
    assert_eq!(block.len(), 32);
    let back = decode_block(&block, 0);
    assert_eq!(back.to_limbs(), s.to_limbs());
}

#[test]
fn encode_matches_wire_format() {
    let v = BigUint::from(42u32);
    let s = Scalar::from_limbs_mod_order(limbs_of(&v));
    assert_eq!(encode_block(&s), block_of(&v));
}
