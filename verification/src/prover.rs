//! The prover facade: from two byte buffers to eight decimal strings.
//!
//! The facade parses the proving key, decodes the witness, draws two
//! fresh blinding scalars, invokes the Groth16 prover, verifies the
//! fresh proof against its own key as a sanity check, and lays the
//! proof's coordinates out in the export order.

use crate::bridge::{
    fr_vec_new, fr_vec_push_le_bytes, fr_vec_vals, fresh_rng, groth16_prove, num_constraints_of,
    num_instance_vars, num_witness_vars, parse_zkey, process_vk, proof_coords, proof_decodes,
    proof_from_uncompressed, prover_accepts, sample_fr, verify_with_processed_vk, zkey_n_constraints,
    zkey_parses, zkey_src,
};
use crate::export::{dec_str_wf, export_order, export_strings};
use crate::limbs::n_limbs;
use crate::scalar::{fr_order, Scalar};
use crate::witness::{le_bytes_val, lemma_le_bytes_of_limbs, limb_byte, witness_assignments, witness_vals};
use crate::zkey_check::{
    check_zkey_structure, zkey_framing_ok, zkey_n_public, zkey_n_vars, zkey_points_ok,
};
use crate::ProveError;
use vstd::arithmetic::div_mod::{lemma_fundamental_div_mod, lemma_small_mod};
use vstd::prelude::*;

verus! {

/// The four magic bytes every proving-key file opens with: "zkey".
pub open spec fn zkey_magic_ok(z: Seq<u8>) -> bool {
    &&& z.len() >= 4
    &&& z[0] == 0x7au8
    &&& z[1] == 0x6bu8
    &&& z[2] == 0x65u8
    &&& z[3] == 0x79u8
}

/// A proving-key buffer the parser is allowed to see and accepts: the
/// magic, the verified framing, the verified point check, and the
/// parser's own verdict.
pub open spec fn zkey_ok(z: Seq<u8>) -> bool {
    &&& zkey_magic_ok(z)
    &&& zkey_framing_ok(z)
    &&& zkey_points_ok(z)
    &&& zkey_parses(z)
}

/// Whether the key's two prover counts can be summed on the host: the
/// witness map sizes its evaluation domain from the sum of the
/// public-input count (plus one) and the constraint count.
pub open spec fn zkey_counts_fit(z: Seq<u8>) -> bool {
    zkey_n_public(z) + 1 + zkey_n_constraints(z) <= usize::MAX
}

/// Whether a decoded witness of `n_elems` elements is long enough for
/// the key: it must cover the public inputs and every variable the
/// key's records may name.
pub open spec fn witness_fits_key(z: Seq<u8>, n_elems: nat) -> bool {
    &&& zkey_n_public(z) + 1 <= n_elems
    &&& n_elems >= zkey_n_vars(z)
}

/// Check the proving-key magic, the one part of the file this library
/// reads before the framing walk.
fn check_zkey_magic(z: &[u8]) -> (ok: bool)
    ensures
        ok == zkey_magic_ok(z@),
{
    if z.len() < 4 {
        return false;
    }
    z[0] == 0x7au8 && z[1] == 0x6bu8 && z[2] == 0x65u8 && z[3] == 0x79u8
}

/// The 32 bytes of a canonical scalar, little-endian: byte `4*i + j` is
/// byte `j` of limb `i`, so the bytes are worth the scalar's value.
pub fn scalar_le_bytes(s: &Scalar) -> (out: Vec<u8>)
    requires
        s.wf(),
    ensures
        out@.len() == 32,
        le_bytes_val(out@) == s.val(),
{
    proof {
        s.lemma_wf();
    }
    let limbs = s.to_limbs();
    let mut out: Vec<u8> = Vec::new();
    let mut i: usize = 0;
    while i < 8
        invariant
            limbs@ == s.limbs_view(),
            limbs@.len() == n_limbs(),
            i <= 8,
            out@.len() == 4 * i,
            forall|k: int, j: int|
                0 <= k < i && 0 <= j < 4 ==> out@[4 * k + j] == #[trigger] limb_byte(limbs@[k], j),
        decreases 8 - i,
    {
        let l = limbs[i];
        out.push((l % 256) as u8);
        out.push(((l / 256) % 256) as u8);
        out.push(((l / 65536) % 256) as u8);
        out.push(((l / 16777216) % 256) as u8);
        i = i + 1;
    }
    proof {
        lemma_le_bytes_of_limbs(out@, limbs@);
    }
    out
}

/// Produce a Groth16 proof over BN254 from a serialized witness and a
/// serialized proving key, exported as eight decimal strings in the
/// order `A.x, A.y, B.x[1], B.x[0], B.y[1], B.y[0], C.x, C.y`.
///
/// The key is handled first, so a malformed key is reported even when
/// the witness is also malformed.  `MalformedKey` is returned exactly
/// when the key fails the magic, the framing walk, the point check, or
/// the parser; `MalformedWitness` exactly when the key went through and
/// the witness is not a whole number of 32-byte blocks; `ProverFailure`
/// exactly when a decoded witness is too short for the key's variable
/// counts, the key's counts cannot be summed on the host, or the prover
/// rejects the input.  When key, witness and prover all go through, the
/// call returns the eight strings unless the self-verification step
/// rejects the fresh proof, which well-formed inputs never produce.
pub fn prove(witness_bytes: &[u8], zkey_bytes: &[u8]) -> (res: Result<Vec<String>, ProveError>)
    ensures
        res matches Ok(v) ==> {
            &&& v@.len() == 8
            &&& forall|i: int| 0 <= i < 8 ==> dec_str_wf((#[trigger] v@[i])@)
            &&& witness_bytes@.len() % 32 == 0
            &&& witness_bytes@.len() >= 32
        },
        res == Result::<Vec<String>, ProveError>::Err(ProveError::MalformedKey) <==> !zkey_ok(
            zkey_bytes@,
        ),
        res == Result::<Vec<String>, ProveError>::Err(ProveError::MalformedWitness) <==> zkey_ok(
            zkey_bytes@,
        ) && witness_bytes@.len() % 32 != 0,
        res == Result::<Vec<String>, ProveError>::Err(ProveError::ProverFailure) <==> zkey_ok(
            zkey_bytes@,
        ) && witness_bytes@.len() % 32 == 0 && (!witness_fits_key(
            zkey_bytes@,
            witness_bytes@.len() / 32,
        ) || !zkey_counts_fit(zkey_bytes@) || !prover_accepts(
            zkey_bytes@,
            zkey_n_public(zkey_bytes@) + 1,
            zkey_n_constraints(zkey_bytes@),
            witness_vals(witness_bytes@),
        )),
        (res is Ok || res == Result::<Vec<String>, ProveError>::Err(
            ProveError::SelfVerificationFailure,
        )) <==> zkey_ok(zkey_bytes@) && witness_bytes@.len() % 32 == 0 && witness_fits_key(
            zkey_bytes@,
            witness_bytes@.len() / 32,
        ) && zkey_counts_fit(zkey_bytes@) && prover_accepts(
            zkey_bytes@,
            zkey_n_public(zkey_bytes@) + 1,
            zkey_n_constraints(zkey_bytes@),
            witness_vals(witness_bytes@),
        ),
{
    if !check_zkey_magic(zkey_bytes) {
        return Err(ProveError::MalformedKey);
    }
    if !check_zkey_structure(zkey_bytes) {
        return Err(ProveError::MalformedKey);
    }
    let zk = match parse_zkey(zkey_bytes) {
        Ok(x) => x,
        Err(_) => {
            return Err(ProveError::MalformedKey);
        },
    };
    let ghost z = zkey_bytes@;
    proof {
        assert(zkey_src(zk) == z);
    }
    let num_inputs = num_instance_vars(&zk);
    let num_witness = num_witness_vars(&zk);
    let num_constraints = num_constraints_of(&zk);
    let scalars = match witness_assignments(witness_bytes) {
        Ok(v) => v,
        Err(e) => {
            return Err(e);
        },
    };
    // the decoded witness must cover the public inputs and every
    // variable the key's coefficient records may name
    if num_inputs > scalars.len() {
        proof {
            assert(!witness_fits_key(z, witness_vals(witness_bytes@).len()));
        }
        return Err(ProveError::ProverFailure);
    }
    if scalars.len() - (num_inputs - 1) < num_witness {
        proof {
            assert(scalars@.len() < zkey_n_vars(z));
            assert(!witness_fits_key(z, witness_vals(witness_bytes@).len()));
        }
        return Err(ProveError::ProverFailure);
    }
    proof {
        assert(witness_fits_key(z, witness_vals(witness_bytes@).len()));
    }
    // the witness map adds the two counts to size its evaluation domain
    if num_constraints > usize::MAX - num_inputs {
        proof {
            assert(!zkey_counts_fit(z));
        }
        return Err(ProveError::ProverFailure);
    }
    // Convert the decoded elements one for one; positions
    // `1 .. num_inputs` are the public inputs (position 0 is the
    // constant 1 and is excluded).
    let mut assignment = fr_vec_new();
    let mut public_inputs = fr_vec_new();
    let mut i: usize = 0;
    while i < scalars.len()
        invariant
            1 <= num_inputs <= scalars@.len(),
            i <= scalars@.len(),
            forall|k: int| 0 <= k < scalars@.len() ==> (#[trigger] scalars@[k]).wf(),
            fr_vec_vals(assignment).len() == i,
            forall|k: int|
                0 <= k < i ==> fr_vec_vals(assignment)[k] == (#[trigger] scalars@[k]).val(),
            fr_vec_vals(public_inputs).len() == (if i <= 1 {
                0int
            } else if i <= num_inputs {
                i - 1
            } else {
                num_inputs - 1
            }),
            forall|k: int|
                0 <= k < fr_vec_vals(public_inputs).len() ==> #[trigger] fr_vec_vals(
                    public_inputs,
                )[k] == scalars@[k + 1].val(),
        decreases scalars@.len() - i,
    {
        proof {
            scalars@[i as int].lemma_wf();
            lemma_small_mod(scalars@[i as int].val(), fr_order());
        }
        let bytes = scalar_le_bytes(&scalars[i]);
        fr_vec_push_le_bytes(&mut assignment, bytes.as_slice());
        if 1 <= i && i < num_inputs {
            let bytes2 = scalar_le_bytes(&scalars[i]);
            fr_vec_push_le_bytes(&mut public_inputs, bytes2.as_slice());
        }
        i = i + 1;
    }
    proof {
        // the verifier sees exactly the decoded elements at positions
        // 1 .. num_inputs
        assert(fr_vec_vals(public_inputs).len() == num_inputs - 1);
        // the full assignment carries exactly the decoded values
        assert forall|k: int|
            0 <= k < fr_vec_vals(assignment).len() implies #[trigger] fr_vec_vals(assignment)[k]
            == witness_vals(witness_bytes@)[k] by {
            assert(fr_vec_vals(assignment)[k] == scalars@[k].val());
            assert(scalars@[k].val() == witness_vals(witness_bytes@)[k]);
        }
        assert(fr_vec_vals(assignment) =~= witness_vals(witness_bytes@));
        assert(scalars@.len() >= zkey_n_vars(z));
    }
    let mut rng = fresh_rng();
    let r_rand = sample_fr(&mut rng);
    let s_rand = sample_fr(&mut rng);
    let proof = match groth16_prove(&zk, r_rand, s_rand, num_inputs, num_constraints, &assignment) {
        Ok(p) => p,
        Err(_) => {
            return Err(ProveError::ProverFailure);
        },
    };
    // Self-verify: a freshly produced proof that does not verify against
    // its own key signals corrupted inputs and must not be exported.
    let pvk = match process_vk(&zk) {
        Ok(p) => p,
        Err(_) => {
            return Err(ProveError::SelfVerificationFailure);
        },
    };
    let verified = match verify_with_processed_vk(&pvk, &public_inputs, &proof) {
        Ok(b) => b,
        Err(_) => {
            return Err(ProveError::SelfVerificationFailure);
        },
    };
    if !verified {
        return Err(ProveError::SelfVerificationFailure);
    }
    let coords = proof_coords(&proof);
    proof {
        lemma_fundamental_div_mod(witness_bytes@.len() as int, 32);
    }
    Ok(export_strings(coords))
}

/// Read a proof from its uncompressed arkworks serialization and lay its
/// coordinates out in the export order: `A.x, A.y, B.x[1], B.x[0],
/// B.y[1], B.y[0], C.x, C.y`, each a well-formed decimal numeral.
/// `None` exactly when the bytes are not the serialization of a valid
/// proof.
pub fn format_proof_uncompressed(proof_bytes: &[u8]) -> (res: Option<Vec<String>>)
    ensures
        res is Some <==> proof_decodes(proof_bytes@),
        res matches Some(v) ==> {
            &&& v@.len() == 8
            &&& forall|i: int| 0 <= i < 8 ==> dec_str_wf((#[trigger] v@[i])@)
        },
{
    let proof = match proof_from_uncompressed(proof_bytes) {
        Ok(p) => p,
        Err(_) => {
            return None;
        },
    };
    let coords = proof_coords(&proof);
    proof {
        assert(forall|i: int| 0 <= i < 8 ==> dec_str_wf(#[trigger] export_order(&coords)[i]));
    }
    Some(export_strings(coords))
}

} // verus!
