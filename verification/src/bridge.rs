//! Trusted declarations for the arkworks crates.
//!
//! Everything in this module is believed, not proved: each item's
//! contract is checked by eye against the source of the crate it names.
//! The bodies only call the outside function and convert values one for
//! one; no logic of this library lives here.  The arkworks types carry
//! trait bounds the verifier cannot declare, so each value is held
//! opaquely in a struct of this module.

use crate::export::ProofCoords;
use crate::scalar::fr_order;
use crate::witness::le_bytes_val;
use crate::zkey_check::{zkey_framing_ok, zkey_n_public, zkey_n_vars, zkey_points_ok};
use ark_crypto_primitives::snark::SNARK;
use ark_ff::PrimeField;
use ark_serialize::CanonicalDeserialize;
use ark_std::UniformRand;
use ark_std::Zero;
use vstd::prelude::*;

verus! {

/// The error type of the zkey parser.
#[verifier::external_type_specification]
#[verifier::external_body]
pub struct ExSerializationError(ark_serialize::SerializationError);

/// The error type of the Groth16 prover and verifier.
#[verifier::external_type_specification]
#[verifier::external_body]
pub struct ExSynthesisError(ark_relations::gr1cs::SynthesisError);

/// A parsed proving key with its constraint matrices, as
/// `ark_circom::read_zkey` returns them.  Opaque to the verifier.
#[verifier::external_body]
pub struct ZkeyData {
    pk: ark_groth16::ProvingKey<ark_bn254::Bn254>,
    matrices: ark_circom::index::NPIndex<ark_bn254::Fr>,
}

/// One element of the BN254 scalar field, held for the prover.  Opaque
/// to the verifier.
#[verifier::external_body]
pub struct FrElement {
    inner: ark_bn254::Fr,
}

/// A vector of scalar field elements: the full assignment handed to the
/// prover, or the public inputs handed to the verifier.  Opaque to the
/// verifier; its contents are named by [`fr_vec_vals`].
#[verifier::external_body]
pub struct FrVec {
    inner: Vec<ark_bn254::Fr>,
}

/// The canonical values (integers in `[0, r)`) of the elements an
/// [`FrVec`] holds, in order.
pub uninterp spec fn fr_vec_vals(v: FrVec) -> Seq<nat>;

/// The bytes a [`ZkeyData`] was parsed from.  Every value of the type
/// comes out of [`parse_zkey`], whose contract pins this to its input.
pub uninterp spec fn zkey_src(zk: ZkeyData) -> Seq<u8>;

/// Whether the zkey parser accepts a buffer.  The parse reads the bytes
/// alone, so its outcome is a function of them.
pub uninterp spec fn zkey_parses(z: Seq<u8>) -> bool;

/// The constraint count a successful parse derives from the buffer's
/// coefficient records (the largest row index less the public-input
/// count).
pub uninterp spec fn zkey_n_constraints(z: Seq<u8>) -> nat;

/// Whether the Groth16 prover returns a proof for a parsed key, the two
/// counts, and an assignment with the given canonical values.  The
/// prover's only fallible step is the witness map, which never reads the
/// blinding scalars, so the outcome is a function of these arguments.
pub uninterp spec fn prover_accepts(
    z: Seq<u8>,
    num_inputs: nat,
    num_constraints: nat,
    assignment: Seq<nat>,
) -> bool;

/// Whether a buffer is the uncompressed serialization of a valid proof:
/// deserialization reads the bytes alone.
pub uninterp spec fn proof_decodes(b: Seq<u8>) -> bool;

/// The verdict of the zkey parser's G1 point read on one 64-byte block:
/// accepted exactly when the block is the all-zero identity encoding or
/// a point that passes the on-curve and subgroup asserts of the
/// constructor the parser calls.  The verdict reads the bytes alone.
pub uninterp spec fn g1_block_ok(b: Seq<u8>) -> bool;

/// The verdict of the zkey parser's G2 point read on one 128-byte block.
pub uninterp spec fn g2_block_ok(b: Seq<u8>) -> bool;

/// A Groth16 proof `(A, B, C)`.  Opaque to the verifier.
#[verifier::external_body]
pub struct BnProof {
    inner: ark_groth16::Proof<ark_bn254::Bn254>,
}

/// A processed (prepared) verification key.  Opaque to the verifier.
#[verifier::external_body]
pub struct PreparedKey {
    inner: ark_groth16::PreparedVerifyingKey<ark_bn254::Bn254>,
}

/// A handle to the thread-local random number generator.  Opaque to the
/// verifier.
#[verifier::external_body]
pub struct RngHandle {
    inner: ark_std::rand::rngs::ThreadRng,
}

/// Relies on `Fq::new_unchecked`, `Affine::new_unchecked`,
/// `is_on_curve` and `is_in_correct_subgroup_assuming_on_curve` of the
/// arkworks curve crates: the same reads and the same checks the zkey
/// parser's G1 point read makes, but as a boolean verdict instead of the
/// asserting constructor.
#[verifier::external_body]
pub(crate) fn check_g1_block(b: &[u8]) -> (r: bool)
    requires
        b@.len() == 64,
    ensures
        r == g1_block_ok(b@),
{
    let mut rd = b;
    let xb = ark_ff::BigInteger256::deserialize_uncompressed(&mut rd).unwrap();
    let yb = ark_ff::BigInteger256::deserialize_uncompressed(&mut rd).unwrap();
    let x = ark_bn254::Fq::new_unchecked(xb);
    let y = ark_bn254::Fq::new_unchecked(yb);
    if x.is_zero() && y.is_zero() {
        return true;
    }
    let p = ark_bn254::G1Affine::new_unchecked(x, y);
    p.is_on_curve() && p.is_in_correct_subgroup_assuming_on_curve()
}

/// Relies on the same arkworks items as [`check_g1_block`], over the
/// quadratic extension field: the verdict of the parser's G2 point read.
#[verifier::external_body]
pub(crate) fn check_g2_block(b: &[u8]) -> (r: bool)
    requires
        b@.len() == 128,
    ensures
        r == g2_block_ok(b@),
{
    let mut rd = b;
    let x0 = ark_bn254::Fq::new_unchecked(ark_ff::BigInteger256::deserialize_uncompressed(&mut rd).unwrap());
    let x1 = ark_bn254::Fq::new_unchecked(ark_ff::BigInteger256::deserialize_uncompressed(&mut rd).unwrap());
    let y0 = ark_bn254::Fq::new_unchecked(ark_ff::BigInteger256::deserialize_uncompressed(&mut rd).unwrap());
    let y1 = ark_bn254::Fq::new_unchecked(ark_ff::BigInteger256::deserialize_uncompressed(&mut rd).unwrap());
    let x = ark_bn254::Fq2::new(x0, x1);
    let y = ark_bn254::Fq2::new(y0, y1);
    if x.is_zero() && y.is_zero() {
        return true;
    }
    let p = ark_bn254::G2Affine::new_unchecked(x, y);
    p.is_on_curve() && p.is_in_correct_subgroup_assuming_on_curve()
}

/// Relies on `ark_circom::read_zkey`: parses a SnarkJS proving-key file
/// into the proving key and the constraint matrices, or reports a
/// serialization error.  The preconditions keep out the inputs on which
/// the parser's own code aborts instead of erroring: the magic check
/// covers its UTF-8 unwrap; the framing check covers its section
/// lookups, its count subtractions and its matrix indexing; and the
/// point check covers the asserting affine constructors it calls on
/// every point block it can read whole.
#[verifier::external_body]
pub fn parse_zkey(zkey_bytes: &[u8]) -> (res: Result<ZkeyData, ark_serialize::SerializationError>)
    requires
        crate::prover::zkey_magic_ok(zkey_bytes@),
        zkey_framing_ok(zkey_bytes@),
        zkey_points_ok(zkey_bytes@),
    ensures
        res is Ok <==> zkey_parses(zkey_bytes@),
        res matches Ok(zk) ==> zkey_src(zk) == zkey_bytes@,
{
    let mut cursor = std::io::Cursor::new(zkey_bytes);
    match ark_circom::read_zkey(&mut cursor) {
        Ok((pk, matrices)) => Ok(ZkeyData { pk, matrices }),
        Err(e) => Err(e),
    }
}

/// Relies on the public field `num_instance_variables` of
/// `ark_circom::index::NPIndex`: the parser sets it to the header's
/// public-input count plus one.
#[verifier::external_body]
pub fn num_instance_vars(z: &ZkeyData) -> (r: usize)
    ensures
        r == zkey_n_public(zkey_src(*z)) + 1,
{
    z.matrices.num_instance_variables
}

/// Relies on the public field `num_witness_variables` of
/// `ark_circom::index::NPIndex`: the parser sets it to the header's
/// variable count less its public-input count.
#[verifier::external_body]
pub fn num_witness_vars(z: &ZkeyData) -> (r: usize)
    ensures
        r + zkey_n_public(zkey_src(*z)) == zkey_n_vars(zkey_src(*z)),
{
    z.matrices.num_witness_variables
}

/// Relies on the public field `num_constraints` of
/// `ark_circom::index::NPIndex`: the parser derives it as the largest
/// 32-bit constraint-row index less the public-input count, so it is
/// below `2^32`.
#[verifier::external_body]
pub fn num_constraints_of(z: &ZkeyData) -> (r: usize)
    ensures
        r == zkey_n_constraints(zkey_src(*z)),
        r < 0x1_0000_0000,
{
    z.matrices.num_constraints
}

/// Relies on `ark_std::rand::thread_rng`: a fresh handle to the
/// thread-local generator seeded from host entropy.
#[verifier::external_body]
pub fn fresh_rng() -> RngHandle {
    RngHandle { inner: ark_std::rand::thread_rng() }
}

/// Relies on `ark_std::UniformRand::rand`: a field element drawn
/// uniformly at random.  Nothing can be promised of the value, and two
/// calls need not agree.
#[verifier::external_body]
pub fn sample_fr(rng: &mut RngHandle) -> FrElement {
    FrElement { inner: ark_bn254::Fr::rand(&mut rng.inner) }
}

/// Relies on `Vec::new`.
#[verifier::external_body]
pub fn fr_vec_new() -> (v: FrVec)
    ensures
        fr_vec_vals(v) == Seq::<nat>::empty(),
{
    FrVec { inner: Vec::new() }
}

/// Relies on `ark_ff::PrimeField::from_le_bytes_mod_order` and
/// `Vec::push`: appends the field element whose canonical value is the
/// little-endian integer of the 32 bytes, reduced modulo `r`.
#[verifier::external_body]
pub fn fr_vec_push_le_bytes(v: &mut FrVec, bytes: &[u8])
    requires
        bytes@.len() == 32,
    ensures
        fr_vec_vals(*final(v)) == fr_vec_vals(*old(v)).push(le_bytes_val(bytes@) % fr_order()),
{
    v.inner.push(ark_bn254::Fr::from_le_bytes_mod_order(bytes));
}

/// Relies on
/// `Groth16::<Bn254, CircomReduction>::create_proof_with_reduction_and_matrices`:
/// produces a proof blinded by `r` and `s`, or a synthesis error.  The
/// preconditions keep out the prover's panics: the assignment bound at
/// `num_inputs` mirrors its slicing; the count sum bound keeps the
/// witness map's domain sizing, which adds the two counts, from
/// overflowing; a well-framed, accepted key has all record signals below
/// the variable count and at least one variable, so an assignment of the
/// key's variable count keeps every constraint evaluation and query
/// lookup in range.  Success depends only on the witness map, which
/// never reads `r` or `s`.
#[verifier::external_body]
pub fn groth16_prove(
    zk: &ZkeyData,
    r: FrElement,
    s: FrElement,
    num_inputs: usize,
    num_constraints: usize,
    assignment: &FrVec,
) -> (res: Result<BnProof, ark_relations::gr1cs::SynthesisError>)
    requires
        1 <= num_inputs <= fr_vec_vals(*assignment).len(),
        num_inputs + num_constraints <= usize::MAX,
        zkey_framing_ok(zkey_src(*zk)),
        zkey_parses(zkey_src(*zk)),
        fr_vec_vals(*assignment).len() >= zkey_n_vars(zkey_src(*zk)),
    ensures
        res is Ok <==> prover_accepts(
            zkey_src(*zk),
            num_inputs as nat,
            num_constraints as nat,
            fr_vec_vals(*assignment),
        ),
{
    let mats = [zk.matrices.a.clone(), zk.matrices.b.clone(), zk.matrices.c.clone()];
    match ark_groth16::Groth16::<ark_bn254::Bn254, ark_circom::CircomReduction>::create_proof_with_reduction_and_matrices(
        &zk.pk, r.inner, s.inner, &mats, num_inputs, num_constraints, assignment.inner.as_slice(),
    ) {
        Ok(proof) => Ok(BnProof { inner: proof }),
        Err(e) => Err(e),
    }
}

/// Relies on `Groth16::<Bn254>::process_vk` (the `SNARK` trait):
/// precomputes the pairing data of the verification key inside the
/// proving key.  Its body wraps `prepare_verifying_key` in `Ok`, so it
/// never fails.
#[verifier::external_body]
pub fn process_vk(zk: &ZkeyData) -> (res: Result<
    PreparedKey,
    ark_relations::gr1cs::SynthesisError,
>)
    ensures
        res is Ok,
{
    match ark_groth16::Groth16::<ark_bn254::Bn254>::process_vk(&zk.pk.vk) {
        Ok(pvk) => Ok(PreparedKey { inner: pvk }),
        Err(e) => Err(e),
    }
}

/// Relies on `Groth16::<Bn254>::verify_with_processed_vk` (the `SNARK`
/// trait): whether the proof verifies against the key and the public
/// inputs.
#[verifier::external_body]
pub fn verify_with_processed_vk(pvk: &PreparedKey, public_inputs: &FrVec, proof: &BnProof) -> (res:
    Result<bool, ark_relations::gr1cs::SynthesisError>) {
    ark_groth16::Groth16::<ark_bn254::Bn254>::verify_with_processed_vk(
        &pvk.inner,
        public_inputs.inner.as_slice(),
        &proof.inner,
    )
}

/// Relies on `ark_serialize::CanonicalDeserialize`: reads a proof from
/// its uncompressed serialization, validating the points, or reports a
/// serialization error.
#[verifier::external_body]
pub fn proof_from_uncompressed(bytes: &[u8]) -> (res: Result<
    BnProof,
    ark_serialize::SerializationError,
>)
    ensures
        res is Ok <==> proof_decodes(bytes@),
{
    match ark_groth16::Proof::<ark_bn254::Bn254>::deserialize_uncompressed(bytes) {
        Ok(proof) => Ok(BnProof { inner: proof }),
        Err(e) => Err(e),
    }
}

/// Relies on `ark_circom::ethereum::Proof::from` and the `Display` of
/// `ethers_core::types::U256`: the affine coordinates of the proof as
/// decimal numerals, each at least one digit, digits only, and with no
/// leading zero (the `uint` crate's `Display` writes exactly that).
#[verifier::external_body]
pub fn proof_coords(proof: &BnProof) -> (res: ProofCoords)
    ensures
        res.wf(),
{
    let p = ark_circom::ethereum::Proof::from(proof.inner.clone());
    ProofCoords {
        a_x: p.a.x.to_string(),
        a_y: p.a.y.to_string(),
        b_x_c0: p.b.x[0].to_string(),
        b_x_c1: p.b.x[1].to_string(),
        b_y_c0: p.b.y[0].to_string(),
        b_y_c1: p.b.y[1].to_string(),
        c_x: p.c.x.to_string(),
        c_y: p.c.y.to_string(),
    }
}

} // verus!
