//! Canonical scalar field elements of BN254.
//!
//! A [`Scalar`] is an integer in `[0, r)`, where `r` is the order of the
//! BN254 scalar field, held as eight little-endian 32-bit limbs.

use crate::limbs::{
    add_limbs, le_limbs_val, lemma_le_limbs_val_bound, lemma_limb_weights, n_limbs, sub_limbs,
};
use vstd::arithmetic::div_mod::{lemma_mod_multiples_vanish, lemma_small_mod};
use vstd::arithmetic::power2::pow2;
use vstd::prelude::*;

verus! {

/// The order `r` of the BN254 scalar field.
pub open spec fn fr_order() -> nat {
    0x30644e72e131a029b85045b68181585d2833e84879b9709143e1f593f0000001nat
}

/// Unfold the value of an eight-limb sequence into its weighted sum.
pub proof fn lemma_le_limbs_val8(s: Seq<u32>)
    requires
        s.len() == n_limbs(),
    ensures
        le_limbs_val(s) == s[0] + (s[1] as nat) * pow2(32) + (s[2] as nat) * pow2(64) + (
        s[3] as nat) * pow2(96) + (s[4] as nat) * pow2(128) + (s[5] as nat) * pow2(160) + (
        s[6] as nat) * pow2(192) + (s[7] as nat) * pow2(224),
{
    let s7 = s.drop_last();
    let s6 = s7.drop_last();
    let s5 = s6.drop_last();
    let s4 = s5.drop_last();
    let s3 = s4.drop_last();
    let s2 = s3.drop_last();
    let s1 = s2.drop_last();
    let s0 = s1.drop_last();
    assert(s0 =~= Seq::<u32>::empty());
    assert(le_limbs_val(s0) == 0);
    assert(le_limbs_val(s1) == le_limbs_val(s0) + (s1.last() as nat) * pow2(0));
    assert(le_limbs_val(s2) == le_limbs_val(s1) + (s2.last() as nat) * pow2(32));
    assert(le_limbs_val(s3) == le_limbs_val(s2) + (s3.last() as nat) * pow2(64));
    assert(le_limbs_val(s4) == le_limbs_val(s3) + (s4.last() as nat) * pow2(96));
    assert(le_limbs_val(s5) == le_limbs_val(s4) + (s5.last() as nat) * pow2(128));
    assert(le_limbs_val(s6) == le_limbs_val(s5) + (s6.last() as nat) * pow2(160));
    assert(le_limbs_val(s7) == le_limbs_val(s6) + (s7.last() as nat) * pow2(192));
    assert(le_limbs_val(s) == le_limbs_val(s7) + (s.last() as nat) * pow2(224));
    assert(s1.last() == s[0] && s2.last() == s[1] && s3.last() == s[2] && s4.last() == s[3]
        && s5.last() == s[4] && s6.last() == s[5] && s7.last() == s[6] && s.last() == s[7]);
    assert(pow2(0) == 1) by {
        lemma_limb_weights();
    }
    assert((s[0] as nat) * 1 == s[0]);
}

/// The modulus `r` as limbs.
pub fn modulus_limbs() -> (res: Vec<u32>)
    ensures
        res@.len() == n_limbs(),
        le_limbs_val(res@) == fr_order(),
{
    let v: Vec<u32> = vec![
        0xf0000001,
        0x43e1f593,
        0x79b97091,
        0x2833e848,
        0x8181585d,
        0xb85045b6,
        0xe131a029,
        0x30644e72,
    ];
    proof {
        lemma_le_limbs_val8(v@);
        lemma_limb_weights();
    }
    v
}

/// `(6*r - 2^256)`, the canonical representative of `-2^256` modulo `r`.
/// Adding it replaces a subtraction of `2^256` in modular arithmetic.
pub open spec fn neg_pow256_offset() -> nat {
    (6 * fr_order() - pow2(256)) as nat
}

/// The offset `6*r - 2^256` as limbs.
pub fn neg_pow256_offset_limbs() -> (res: Vec<u32>)
    ensures
        res@.len() == n_limbs(),
        le_limbs_val(res@) == neg_pow256_offset(),
{
    let v: Vec<u32> = vec![
        0xa0000006,
        0x974bc177,
        0xda58a367,
        0xf13771b2,
        0x0908122e,
        0x51e1a247,
        0x4729c0fa,
        0x2259d6b1,
    ];
    proof {
        lemma_le_limbs_val8(v@);
        lemma_limb_weights();
    }
    v
}

/// `5r <= 2^256 < 6r`, so the offset lies in `(0, r)`.
pub proof fn lemma_order_bounds()
    ensures
        pow2(255) < pow2(256),
        5 * fr_order() <= pow2(256) < 6 * fr_order(),
        0 < neg_pow256_offset() < fr_order(),
        fr_order() < pow2(255),
        2 * fr_order() < pow2(256),
{
    lemma_limb_weights();
    vstd::arithmetic::power2::lemma_pow2_adds(255, 1);
    vstd::arithmetic::power2::lemma2_to64();
}

/// Reduce a 256-bit value modulo `r` by conditional subtraction.
/// Six rounds suffice because `2^256 < 6r`.
pub fn reduce_mod_order(v: Vec<u32>) -> (res: Vec<u32>)
    requires
        v@.len() == n_limbs(),
    ensures
        res@.len() == n_limbs(),
        le_limbs_val(res@) == le_limbs_val(v@) % fr_order(),
        le_limbs_val(res@) < fr_order(),
{
    let m = modulus_limbs();
    let mut cur = v;
    let mut i: usize = 0;
    proof {
        lemma_le_limbs_val_bound(cur@);
        lemma_order_bounds();
        assert(32 * n_limbs() == 256);
    }
    while i < 6
        invariant
            i <= 6,
            cur@.len() == n_limbs(),
            m@.len() == n_limbs(),
            le_limbs_val(m@) == fr_order(),
            le_limbs_val(cur@) % fr_order() == le_limbs_val(v@) % fr_order(),
            le_limbs_val(cur@) < (6 - i) * fr_order() || le_limbs_val(cur@) < fr_order(),
        decreases 6 - i,
    {
        let (d, borrow) = sub_limbs(&cur, &m);
        proof {
            lemma_order_bounds();
        }
        if !borrow {
            proof {
                // d holds cur - r, which keeps the residue class
                lemma_mod_multiples_vanish(-1, le_limbs_val(cur@) as int, fr_order() as int);
                assert(fr_order() * -1 + le_limbs_val(cur@) == le_limbs_val(cur@) - fr_order());
                assert((6 - i) * fr_order() - fr_order() == (6 - (i + 1)) * fr_order())
                    by (nonlinear_arith);
            }
            cur = d;
        } else {
            proof {
                assert((6 - i) * fr_order() >= (6 - (i + 1)) * fr_order()) by (nonlinear_arith)
                    requires
                        i < 6,
                        fr_order() > 0,
                ;
            }
        }
        i = i + 1;
    }
    proof {
        assert(le_limbs_val(cur@) < fr_order());
        lemma_small_mod(le_limbs_val(cur@), fr_order());
    }
    cur
}

/// A canonical element of the BN254 scalar field: an integer in `[0, r)`
/// held as eight little-endian 32-bit limbs.
#[derive(Debug, Clone)]
pub struct Scalar {
    limbs: Vec<u32>,
}

impl Scalar {
    /// Well-formedness: eight limbs worth less than the field order.
    pub closed spec fn wf(&self) -> bool {
        &&& self.limbs@.len() == n_limbs()
        &&& le_limbs_val(self.limbs@) < fr_order()
    }

    /// The integer the element stands for.
    pub closed spec fn val(&self) -> nat {
        le_limbs_val(self.limbs@)
    }

    /// View of the limbs.
    pub closed spec fn limbs_view(&self) -> Seq<u32> {
        self.limbs@
    }

    /// What well-formedness gives: eight limbs, a canonical value, and
    /// the value being exactly the limbs' worth.
    pub proof fn lemma_wf(&self)
        requires
            self.wf(),
        ensures
            self.limbs_view().len() == n_limbs(),
            self.val() == le_limbs_val(self.limbs_view()),
            self.val() < fr_order(),
    {
    }

    /// Build an element from limbs already known to be canonical.
    pub fn from_reduced_limbs(limbs: Vec<u32>) -> (res: Scalar)
        requires
            limbs@.len() == n_limbs(),
            le_limbs_val(limbs@) < fr_order(),
        ensures
            res.wf(),
            res.val() == le_limbs_val(limbs@),
            res.limbs_view() == limbs@,
    {
        Scalar { limbs }
    }

    /// Build an element from any eight limbs, reducing modulo `r`.
    pub fn from_limbs_mod_order(limbs: Vec<u32>) -> (res: Scalar)
        requires
            limbs@.len() == n_limbs(),
        ensures
            res.wf(),
            res.val() == le_limbs_val(limbs@) % fr_order(),
    {
        let ghost v0 = limbs@;
        let reduced = reduce_mod_order(limbs);
        Scalar { limbs: reduced }
    }

    /// The limbs, for callers outside the proof world.
    pub fn to_limbs(&self) -> (res: Vec<u32>)
        ensures
            res@ == self.limbs_view(),
    {
        let mut out: Vec<u32> = Vec::new();
        let mut i: usize = 0;
        while i < self.limbs.len()
            invariant
                i <= self.limbs@.len(),
                out@ == self.limbs@.take(i as int),
            decreases self.limbs@.len() - i,
        {
            out.push(self.limbs[i]);
            proof {
                assert(out@ =~= self.limbs@.take(i + 1));
            }
            i = i + 1;
        }
        proof {
            assert(self.limbs@.take(self.limbs@.len() as int) =~= self.limbs@);
        }
        out
    }
}

} // verus!
