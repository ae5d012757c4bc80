//! End-to-end proving against a small multiplication circuit: a proving
//! key is generated with arkworks and serialized into the zkey layout
//! the parser reads, so the whole facade runs for real.

use ark_ec::AffineRepr;
use ark_ff::{BigInteger, PrimeField};
use ark_groth16::Groth16;
use ark_relations::gr1cs::{
    ConstraintSynthesizer, ConstraintSystem, ConstraintSystemRef, SynthesisError,
    R1CS_PREDICATE_LABEL,
};
use groth16_bridge::prover::prove;
use groth16_bridge::ProveError;
use num_bigint::BigUint;
use num_traits::One;

type Fr = ark_bn254::Fr;
type Fq = ark_bn254::Fq;

/// One constraint: a * b = c, with c the sole public input.
#[derive(Clone)]
struct MulCircuit {
    a: u64,
    b: u64,
}

impl ConstraintSynthesizer<Fr> for MulCircuit {
    fn generate_constraints(self, cs: ConstraintSystemRef<Fr>) -> Result<(), SynthesisError> {
        let c_val = Fr::from(self.a) * Fr::from(self.b);
        let c = cs.new_input_variable(|| Ok(c_val))?;
        let a = cs.new_witness_variable(|| Ok(Fr::from(self.a)))?;
        let b = cs.new_witness_variable(|| Ok(Fr::from(self.b)))?;
        cs.enforce_r1cs_constraint(|| a.into(), || b.into(), || c.into())?;
        Ok(())
    }
}

fn fr_order() -> BigUint {
    BigUint::parse_bytes(
        b"21888242871839275222246405745257275088548364400416034343698204186575808495617",
        10,
    )
    .unwrap()
}

/// 32 little-endian bytes of a value below 2^256.
fn le32(v: &BigUint) -> Vec<u8> {
    let mut b = v.to_bytes_le();
    assert!(b.len() <= 32);
    b.resize(32, 0);
    b
}

/// A scalar coefficient as the zkey stores it: the parser divides by
/// R^2, so the writer multiplies by it.
fn fr_zkey_bytes(v: &Fr) -> Vec<u8> {
    let r = fr_order();
    let big_r = (BigUint::one() << 256) % &r;
    let val: BigUint = v.into_bigint().into();
    le32(&(val * &big_r % &r * &big_r % &r))
}

/// The raw Montgomery limbs of a base-field element, as the zkey stores
/// curve coordinates.
fn fq_mont_bytes(x: &Fq) -> Vec<u8> {
    x.0.to_bytes_le()
}

fn g1_bytes(p: &ark_bn254::G1Affine) -> Vec<u8> {
    if p.is_zero() {
        return vec![0u8; 64];
    }
    let mut out = fq_mont_bytes(&p.x);
    out.extend_from_slice(&fq_mont_bytes(&p.y));
    out
}

fn g2_bytes(p: &ark_bn254::G2Affine) -> Vec<u8> {
    if p.is_zero() {
        return vec![0u8; 128];
    }
    let mut out = fq_mont_bytes(&p.x.c0);
    out.extend_from_slice(&fq_mont_bytes(&p.x.c1));
    out.extend_from_slice(&fq_mont_bytes(&p.y.c0));
    out.extend_from_slice(&fq_mont_bytes(&p.y.c1));
    out
}

fn push_section(out: &mut Vec<u8>, id: u32, payload: &[u8]) {
    out.extend_from_slice(&id.to_le_bytes());
    out.extend_from_slice(&(payload.len() as u64).to_le_bytes());
    out.extend_from_slice(payload);
}

/// Serialize a proving key and its constraint matrices into the zkey
/// section layout the parser reads.
fn write_zkey<C: ConstraintSynthesizer<Fr>>(
    pk: &ark_groth16::ProvingKey<ark_bn254::Bn254>,
    circuit: C,
) -> Vec<u8> {
    let cs = ConstraintSystem::<Fr>::new_ref();
    circuit.generate_constraints(cs.clone()).unwrap();
    cs.finalize();
    let all_matrices = cs.to_matrices().unwrap();
    let ms = &all_matrices[R1CS_PREDICATE_LABEL];
    let n_vars: u32 = (cs.num_instance_variables() + cs.num_witness_variables()) as u32;
    let n_public: u32 = (cs.num_instance_variables() - 1) as u32;
    let num_constraints = cs.num_constraints();
    let domain_size: u32 = pk.h_query.len() as u32;
    assert!(num_constraints as u32 + n_public < domain_size);

    // header
    let mut header = Vec::new();
    header.extend_from_slice(&32u32.to_le_bytes());
    let fq_mod: BigUint = Fq::MODULUS.into();
    header.extend_from_slice(&le32(&fq_mod));
    header.extend_from_slice(&32u32.to_le_bytes());
    header.extend_from_slice(&le32(&fr_order()));
    header.extend_from_slice(&n_vars.to_le_bytes());
    header.extend_from_slice(&n_public.to_le_bytes());
    header.extend_from_slice(&domain_size.to_le_bytes());
    header.extend_from_slice(&g1_bytes(&pk.vk.alpha_g1));
    header.extend_from_slice(&g1_bytes(&pk.beta_g1));
    header.extend_from_slice(&g2_bytes(&pk.vk.beta_g2));
    header.extend_from_slice(&g2_bytes(&pk.vk.gamma_g2));
    header.extend_from_slice(&g1_bytes(&pk.delta_g1));
    header.extend_from_slice(&g2_bytes(&pk.vk.delta_g2));

    // IC: one point per public input, plus one
    let mut ic = Vec::new();
    for p in &pk.vk.gamma_abc_g1 {
        ic.extend_from_slice(&g1_bytes(p));
    }

    // coefficients of the A and B matrices, plus one marker record at
    // row num_constraints + n_public: the parser derives the constraint
    // count from the largest row index and drops the rows above it
    let mut records: Vec<(u32, u32, u32, Fr)> = Vec::new();
    for (m_idx, m) in [&ms[0], &ms[1]].iter().enumerate() {
        for (row, entries) in m.iter().enumerate() {
            for (coeff, signal) in entries {
                records.push((m_idx as u32, row as u32, *signal as u32, *coeff));
            }
        }
    }
    records.push((0, num_constraints as u32 + n_public, 0, Fr::from(0u64)));
    let mut coeffs = Vec::new();
    coeffs.extend_from_slice(&(records.len() as u32).to_le_bytes());
    for (m, row, signal, coeff) in &records {
        coeffs.extend_from_slice(&m.to_le_bytes());
        coeffs.extend_from_slice(&row.to_le_bytes());
        coeffs.extend_from_slice(&signal.to_le_bytes());
        coeffs.extend_from_slice(&fr_zkey_bytes(coeff));
    }

    let g1_vec = |points: &[ark_bn254::G1Affine]| -> Vec<u8> {
        let mut out = Vec::new();
        for p in points {
            out.extend_from_slice(&g1_bytes(p));
        }
        out
    };
    let mut b_g2 = Vec::new();
    for p in &pk.b_g2_query {
        b_g2.extend_from_slice(&g2_bytes(p));
    }

    assert_eq!(pk.a_query.len() as u32, n_vars);
    assert_eq!(pk.b_g1_query.len() as u32, n_vars);
    assert_eq!(pk.b_g2_query.len() as u32, n_vars);
    assert_eq!(pk.l_query.len() as u32, n_vars - n_public - 1);

    let mut zkey = Vec::new();
    zkey.extend_from_slice(b"zkey");
    zkey.extend_from_slice(&1u32.to_le_bytes());
    zkey.extend_from_slice(&8u32.to_le_bytes());
    push_section(&mut zkey, 2, &header);
    push_section(&mut zkey, 3, &ic);
    push_section(&mut zkey, 4, &coeffs);
    push_section(&mut zkey, 5, &g1_vec(&pk.a_query));
    push_section(&mut zkey, 6, &g1_vec(&pk.b_g1_query));
    push_section(&mut zkey, 7, &b_g2);
    push_section(&mut zkey, 8, &g1_vec(&pk.l_query));
    push_section(&mut zkey, 9, &g1_vec(&pk.h_query));
    zkey
}

/// One 32-byte witness block in the wire format.
fn block_of(v: u64) -> Vec<u8> {
    let le = le32(&BigUint::from(v));
    let mut out = Vec::new();
    for k in 0..8 {
        let i = 7 - k;
        out.extend_from_slice(&le[4 * i..4 * i + 4]);
    }
    out
}

fn witness_bytes(vals: &[u64]) -> Vec<u8> {
    let mut out = Vec::new();
    for &v in vals {
        out.extend_from_slice(&block_of(v));
    }
    out
}

fn test_zkey() -> Vec<u8> {
    let circuit = MulCircuit { a: 3, b: 5 };
    let mut rng = ark_std::rand::thread_rng();
    let pk = Groth16::<ark_bn254::Bn254, ark_circom::CircomReduction>::
        generate_random_parameters_with_reduction(circuit.clone(), &mut rng)
    .unwrap();
    write_zkey(&pk, circuit)
}

#[test]
fn multiplication_circuit_proves_and_self_verifies() {
    let zkey = test_zkey();
    // full assignment [1, c, a, b] with public c = 15
    let witness = witness_bytes(&[1, 15, 3, 5]);
    let out = prove(&witness, &zkey).expect("proving should succeed");
    assert_eq!(out.len(), 8);
    for s in &out {
        assert!(!s.is_empty());
        assert!(s.chars().all(|c| c.is_ascii_digit()));
    }
}

#[test]
fn inconsistent_witness_is_a_prover_failure() {
    let zkey = test_zkey();
    // 2 * 9 is not 15: the self-verification rejects the proof
    let witness = witness_bytes(&[1, 15, 2, 9]);
    let err = prove(&witness, &zkey).unwrap_err();
    assert!(err == ProveError::ProverFailure || err == ProveError::SelfVerificationFailure);
}

#[test]
fn empty_witness_surfaces_a_prover_error() {
    let zkey = test_zkey();
    assert_eq!(prove(&[], &zkey).unwrap_err(), ProveError::ProverFailure);
}

#[test]
fn key_with_invalid_curve_point_is_malformed() {
    let zkey = test_zkey();
    let witness = witness_bytes(&[1, 15, 3, 5]);
    // flip one bit of the x coordinate of the header's first G1 point:
    // section 2's payload starts at byte 24, its points at offset 84
    let mut bad = zkey.clone();
    bad[24 + 84] ^= 1;
    assert_eq!(prove(&witness, &bad).unwrap_err(), ProveError::MalformedKey);
    // likewise for the first public-input commitment: section 3's
    // payload follows the 660-byte header payload and a 12-byte
    // section header
    let mut bad = zkey.clone();
    bad[24 + 660 + 12] ^= 1;
    assert_eq!(prove(&witness, &bad).unwrap_err(), ProveError::MalformedKey);
}

/// `out = 7`: one constraint `c * 1 = 7`, witness `[1, 7]`.
#[derive(Clone)]
struct IdentityCircuit;

impl ConstraintSynthesizer<Fr> for IdentityCircuit {
    fn generate_constraints(self, cs: ConstraintSystemRef<Fr>) -> Result<(), SynthesisError> {
        let c = cs.new_input_variable(|| Ok(Fr::from(7u64)))?;
        let one = ark_relations::utils::variable::Variable::one();
        cs.enforce_r1cs_constraint(
            || c.into(),
            || one.into(),
            || ark_relations::utils::linear_combination::LinearCombination(
                vec![(Fr::from(7u64), one)],
            ),
        )?;
        Ok(())
    }
}

#[test]
fn identity_circuit_public_seven() {
    let mut rng = ark_std::rand::thread_rng();
    let pk = Groth16::<ark_bn254::Bn254, ark_circom::CircomReduction>::
        generate_random_parameters_with_reduction(IdentityCircuit, &mut rng)
    .unwrap();
    let zkey = write_zkey(&pk, IdentityCircuit);
    let witness = witness_bytes(&[1, 7]);
    let out = prove(&witness, &zkey).expect("proving should succeed");
    assert_eq!(out.len(), 8);
    // re-run verification outside the library against the same key and
    // public input [7]
    let proof = proof_from_strings(&out);
    let pvk = ark_groth16::prepare_verifying_key(&pk.vk);
    let accepted = ark_groth16::Groth16::<ark_bn254::Bn254>::verify_proof(
        &pvk,
        &proof,
        &[Fr::from(7u64)],
    )
    .unwrap();
    assert!(accepted);
}

/// Rebuild a proof from the eight exported decimal strings, undoing the
/// Fq2 component swap on B.
fn proof_from_strings(v: &[String]) -> ark_groth16::Proof<ark_bn254::Bn254> {
    let fq = |s: &String| -> Fq { Fq::from(BigUint::parse_bytes(s.as_bytes(), 10).unwrap()) };
    let a = ark_bn254::G1Affine::new_unchecked(fq(&v[0]), fq(&v[1]));
    let b = ark_bn254::G2Affine::new_unchecked(
        ark_bn254::Fq2::new(fq(&v[3]), fq(&v[2])),
        ark_bn254::Fq2::new(fq(&v[5]), fq(&v[4])),
    );
    let c = ark_bn254::G1Affine::new_unchecked(fq(&v[6]), fq(&v[7]));
    ark_groth16::Proof { a, b, c }
}

#[test]
fn tampered_export_string_is_rejected_off_box() {
    let circuit = MulCircuit { a: 3, b: 5 };
    let mut rng = ark_std::rand::thread_rng();
    let pk = Groth16::<ark_bn254::Bn254, ark_circom::CircomReduction>::
        generate_random_parameters_with_reduction(circuit.clone(), &mut rng)
    .unwrap();
    let zkey = write_zkey(&pk, circuit);
    let witness = witness_bytes(&[1, 15, 3, 5]);
    let out = prove(&witness, &zkey).expect("proving should succeed");
    let pvk = ark_groth16::prepare_verifying_key(&pk.vk);
    let verify = |v: &[String]| -> bool {
        let proof = proof_from_strings(v);
        if !proof.a.is_on_curve() || !proof.b.is_on_curve() || !proof.c.is_on_curve() {
            return false;
        }
        ark_groth16::Groth16::<ark_bn254::Bn254>::verify_proof(&pvk, &proof, &[Fr::from(15u64)])
            .unwrap_or(false)
    };
    assert!(verify(&out));
    for i in 0..8 {
        let mut tampered = out.clone();
        let mut bytes = tampered[i].clone().into_bytes();
        let last = bytes.len() - 1;
        bytes[last] = b'0' + ((bytes[last] - b'0' + 1) % 10);
        tampered[i] = String::from_utf8(bytes).unwrap();
        assert!(!verify(&tampered), "tampering coordinate {i} must be caught");
    }
}

#[test]
fn witness_shorter_than_the_keys_variables_is_a_prover_failure() {
    // the key has four variables; two blocks cover the public input but
    // not the private ones
    let zkey = test_zkey();
    let witness = witness_bytes(&[1, 15]);
    assert_eq!(prove(&witness, &zkey).unwrap_err(), ProveError::ProverFailure);
}

#[test]
fn two_calls_blind_independently() {
    let zkey = test_zkey();
    let witness = witness_bytes(&[1, 15, 3, 5]);
    let first = prove(&witness, &zkey).expect("first call");
    let second = prove(&witness, &zkey).expect("second call");
    // fresh blinding scalars make the exported coordinates differ
    assert_ne!(first, second);
}
