use ark_ec::AffineRepr;
use ark_serialize::CanonicalSerialize;
use groth16_bridge::export::{export_strings, ProofCoords};
use groth16_bridge::prover::format_proof_uncompressed;

#[test]
fn export_strings_follow_the_abi_order() {
    let coords = ProofCoords {
        a_x: "10".to_string(),
        a_y: "11".to_string(),
        b_x_c0: "20".to_string(),
        b_x_c1: "21".to_string(),
        b_y_c0: "30".to_string(),
        b_y_c1: "31".to_string(),
        c_x: "40".to_string(),
        c_y: "41".to_string(),
    };
    let v = export_strings(coords);
    assert_eq!(v, vec!["10", "11", "21", "20", "31", "30", "40", "41"]);
}

#[test]
fn generator_proof_formats_to_known_decimals() {
    let proof = ark_groth16::Proof::<ark_bn254::Bn254> {
        a: ark_bn254::G1Affine::generator(),
        b: ark_bn254::G2Affine::generator(),
        c: ark_bn254::G1Affine::generator(),
    };
    let mut bytes = Vec::new();
    proof.serialize_uncompressed(&mut bytes).unwrap();
    let v = format_proof_uncompressed(&bytes).unwrap();
    assert_eq!(v.len(), 8);
    // A = C = the G1 generator (1, 2); B = the G2 generator, whose Fq2
    // coordinates are exported second component first.
    assert_eq!(v[0], "1");
    assert_eq!(v[1], "2");
    assert_eq!(
        v[2],
        "11559732032986387107991004021392285783925812861821192530917403151452391805634"
    );
    assert_eq!(
        v[3],
        "10857046999023057135944570762232829481370756359578518086990519993285655852781"
    );
    assert_eq!(
        v[4],
        "4082367875863433681332203403145435568316851327593401208105741076214120093531"
    );
    assert_eq!(
        v[5],
        "8495653923123431417604973247489272438418190587263600148770280649306958101930"
    );
    assert_eq!(v[6], "1");
    assert_eq!(v[7], "2");
}

#[test]
fn formatted_strings_are_decimal_numerals() {
    let proof = ark_groth16::Proof::<ark_bn254::Bn254> {
        a: ark_bn254::G1Affine::generator(),
        b: ark_bn254::G2Affine::generator(),
        c: ark_bn254::G1Affine::generator(),
    };
    let mut bytes = Vec::new();
    proof.serialize_uncompressed(&mut bytes).unwrap();
    let v = format_proof_uncompressed(&bytes).unwrap();
    for s in &v {
        assert!(!s.is_empty());
        assert!(s.chars().all(|c| c.is_ascii_digit()));
        assert!(s.len() == 1 || !s.starts_with('0'));
        assert!(!s.as_bytes().contains(&0u8));
    }
}

#[test]
fn garbage_proof_bytes_are_rejected() {
    assert!(format_proof_uncompressed(&[1, 2, 3]).is_none());
}
