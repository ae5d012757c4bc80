use groth16_bridge::prover::prove;
use groth16_bridge::ProveError;

#[test]
fn empty_key_is_malformed() {
    assert_eq!(prove(&[], &[]).unwrap_err(), ProveError::MalformedKey);
}

#[test]
fn key_without_magic_is_malformed() {
    let witness = vec![0u8; 32];
    assert_eq!(prove(&witness, b"nope").unwrap_err(), ProveError::MalformedKey);
    assert_eq!(prove(&witness, &[0u8; 64]).unwrap_err(), ProveError::MalformedKey);
}

#[test]
fn truncated_key_with_magic_is_malformed() {
    // carries the magic, so the parser itself runs and reports the
    // truncation
    let witness = vec![0u8; 32];
    assert_eq!(prove(&witness, b"zkey").unwrap_err(), ProveError::MalformedKey);
    assert_eq!(prove(&witness, b"zkey\x01\x00\x00\x00").unwrap_err(), ProveError::MalformedKey);
}

#[test]
fn key_with_magic_and_empty_section_table_is_malformed() {
    // magic, version 1, zero sections: a complete table with every
    // section missing is caught by the framing check
    let mut zkey = b"zkey".to_vec();
    zkey.extend_from_slice(&1u32.to_le_bytes());
    zkey.extend_from_slice(&0u32.to_le_bytes());
    let witness = vec![0u8; 32];
    assert_eq!(prove(&witness, &zkey).unwrap_err(), ProveError::MalformedKey);
}

#[test]
fn key_with_magic_and_partial_section_table_is_malformed() {
    // one declared section of id 1 only
    let mut zkey = b"zkey".to_vec();
    zkey.extend_from_slice(&1u32.to_le_bytes());
    zkey.extend_from_slice(&1u32.to_le_bytes());
    zkey.extend_from_slice(&1u32.to_le_bytes());
    zkey.extend_from_slice(&0u64.to_le_bytes());
    let witness = vec![0u8; 32];
    assert_eq!(prove(&witness, &zkey).unwrap_err(), ProveError::MalformedKey);
}

#[test]
fn key_error_wins_over_witness_error() {
    // the key is parsed before the witness, so its error surfaces
    let misaligned = vec![0u8; 33];
    assert_eq!(prove(&misaligned, &[]).unwrap_err(), ProveError::MalformedKey);
}
