//! Fixed-width multi-limb arithmetic for 256-bit values.
//!
//! A value is held as eight 32-bit limbs in little-endian limb order:
//! the limb at index `i` carries weight `2^(32*i)`.  This is enough for
//! every quantity the witness decoder handles, so no arbitrary-precision
//! integer type is needed.

use vstd::arithmetic::power2::{lemma2_to64, lemma_pow2_adds, lemma_pow2_pos, pow2};
use vstd::prelude::*;

verus! {

/// Number of 32-bit limbs in one 256-bit value.
pub open spec fn n_limbs() -> nat {
    8
}

/// Value of a little-endian sequence of 32-bit limbs:
/// the limb at index `i` carries weight `2^(32*i)`.
pub open spec fn le_limbs_val(s: Seq<u32>) -> nat
    decreases s.len(),
{
    if s.len() == 0 {
        0
    } else {
        le_limbs_val(s.drop_last()) + (s.last() as nat) * pow2(32 * (s.len() - 1) as nat)
    }
}

/// The powers of two that weight each of the eight limbs, as literals.
pub proof fn lemma_limb_weights()
    ensures
        pow2(0) == 1,
        pow2(32) == 0x1_0000_0000,
        pow2(64) == 0x1_0000_0000_0000_0000,
        pow2(96) == 0x1_0000_0000_0000_0000_0000_0000,
        pow2(128) == 0x1_0000_0000_0000_0000_0000_0000_0000_0000,
        pow2(160) == 0x1_0000_0000_0000_0000_0000_0000_0000_0000_0000_0000,
        pow2(192) == 0x1_0000_0000_0000_0000_0000_0000_0000_0000_0000_0000_0000_0000,
        pow2(224) == 0x1_0000_0000_0000_0000_0000_0000_0000_0000_0000_0000_0000_0000_0000_0000,
        pow2(256)
            == 0x1_0000_0000_0000_0000_0000_0000_0000_0000_0000_0000_0000_0000_0000_0000_0000_0000,
{
    lemma2_to64();
    lemma_pow2_adds(64, 32);
    lemma_pow2_adds(96, 32);
    lemma_pow2_adds(128, 32);
    lemma_pow2_adds(160, 32);
    lemma_pow2_adds(192, 32);
    lemma_pow2_adds(224, 32);
}

/// A limb sequence one limb longer is worth the old value plus the new
/// limb at the next weight.
proof fn lemma_le_limbs_val_push(s: Seq<u32>, x: u32)
    ensures
        le_limbs_val(s.push(x)) == le_limbs_val(s) + x * pow2(32 * s.len()),
{
    assert(s.push(x).drop_last() =~= s);
    assert(s.push(x).last() == x);
}

/// The value of a limb sequence is below `2^(32*len)`.
pub proof fn lemma_le_limbs_val_bound(s: Seq<u32>)
    ensures
        le_limbs_val(s) < pow2(32 * s.len()),
    decreases s.len(),
{
    if s.len() == 0 {
        lemma2_to64();
    } else {
        let n = (s.len() - 1) as nat;
        let w = pow2(32 * n);
        lemma_le_limbs_val_bound(s.drop_last());
        lemma_pow2_adds(32 * n, 32);
        lemma2_to64();
        lemma_pow2_pos(32 * n);
        assert(s.last() * w <= 0xffff_ffff * w) by (nonlinear_arith)
            requires
                s.last() <= 0xffff_ffffu32,
                w > 0,
        ;
        assert(0xffff_ffff * w == 0x1_0000_0000 * w - w) by (nonlinear_arith);
        assert(0x1_0000_0000 * w == w * pow2(32)) by (nonlinear_arith)
            requires
                pow2(32) == 0x1_0000_0000,
        ;
        assert(32 * s.len() == 32 * n + 32);
    }
}

/// Subtraction with borrow: `diff` satisfies
/// `val(a) - val(b) == val(diff) - borrow * 2^256`, and the borrow flag
/// is set exactly when `val(a) < val(b)`.
pub fn sub_limbs(a: &Vec<u32>, b: &Vec<u32>) -> (res: (Vec<u32>, bool))
    requires
        a@.len() == n_limbs(),
        b@.len() == n_limbs(),
    ensures
        res.0@.len() == n_limbs(),
        le_limbs_val(res.0@) == le_limbs_val(a@) - le_limbs_val(b@) + (if res.1 {
            pow2(256)
        } else {
            0
        }),
        res.1 <==> le_limbs_val(a@) < le_limbs_val(b@),
{
    let mut out: Vec<u32> = Vec::new();
    let mut borrow: bool = false;
    let mut i: usize = 0;
    proof {
        assert(a@.take(0) =~= Seq::<u32>::empty());
        assert(b@.take(0) =~= Seq::<u32>::empty());
        lemma2_to64();
    }
    while i < 8
        invariant
            a@.len() == 8,
            b@.len() == 8,
            out@.len() == i,
            i <= 8,
            le_limbs_val(out@) == le_limbs_val(a@.take(i as int)) - le_limbs_val(
                b@.take(i as int),
            ) + (if borrow {
                pow2(32 * i as nat)
            } else {
                0
            }),
        decreases 8 - i,
    {
        let bin: u64 = if borrow {
            1
        } else {
            0
        };
        let t: u64 = 0x1_0000_0000u64 + (a[i] as u64) - (b[i] as u64) - bin;
        let limb: u32 = (t % 0x1_0000_0000u64) as u32;
        let new_borrow: bool = t < 0x1_0000_0000u64;
        proof {
            let ai = a@[i as int];
            let bi = b@[i as int];
            let w = pow2(32 * i as nat);
            lemma_pow2_pos(32 * i as nat);
            lemma_pow2_adds(32 * i as nat, 32);
            lemma2_to64();
            // the new limb together with the outgoing borrow captures
            // the per-limb difference exactly
            assert(limb == ai - bi - bin + (if new_borrow {
                0x1_0000_0000int
            } else {
                0
            }));
            lemma_le_limbs_val_push(out@, limb);
            assert(a@.take(i + 1).drop_last() =~= a@.take(i as int));
            assert(b@.take(i + 1).drop_last() =~= b@.take(i as int));
            assert(le_limbs_val(a@.take(i + 1)) == le_limbs_val(a@.take(i as int)) + ai * w);
            assert(le_limbs_val(b@.take(i + 1)) == le_limbs_val(b@.take(i as int)) + bi * w);
            // regroup the weighted terms
            let brw: int = if new_borrow {
                0x1_0000_0000int
            } else {
                0
            };
            assert((ai - bi - bin + brw) * w == ai * w - bi * w - bin * w + brw * w)
                by (nonlinear_arith);
            assert(0x1_0000_0000 * w == w * pow2(32)) by (nonlinear_arith)
                requires
                    pow2(32) == 0x1_0000_0000,
            ;
            assert(bin * w == (if borrow {
                w as int
            } else {
                0
            })) by (nonlinear_arith)
                requires
                    bin == (if borrow {
                        1u64
                    } else {
                        0u64
                    }),
            ;
        }
        out.push(limb);
        borrow = new_borrow;
        i = i + 1;
    }
    proof {
        assert(a@.take(8) =~= a@);
        assert(b@.take(8) =~= b@);
        lemma_le_limbs_val_bound(a@);
        lemma_le_limbs_val_bound(b@);
        lemma_le_limbs_val_bound(out@);
        assert(32 * 8nat == 256);
    }
    (out, borrow)
}

/// Addition: requires the mathematical sum to fit in 256 bits and
/// returns limbs worth exactly `val(a) + val(b)`.
pub fn add_limbs(a: &Vec<u32>, b: &Vec<u32>) -> (res: Vec<u32>)
    requires
        a@.len() == n_limbs(),
        b@.len() == n_limbs(),
        le_limbs_val(a@) + le_limbs_val(b@) < pow2(256),
    ensures
        res@.len() == n_limbs(),
        le_limbs_val(res@) == le_limbs_val(a@) + le_limbs_val(b@),
{
    let mut out: Vec<u32> = Vec::new();
    let mut carry: bool = false;
    let mut i: usize = 0;
    proof {
        assert(a@.take(0) =~= Seq::<u32>::empty());
        assert(b@.take(0) =~= Seq::<u32>::empty());
        lemma2_to64();
    }
    while i < 8
        invariant
            a@.len() == 8,
            b@.len() == 8,
            out@.len() == i,
            i <= 8,
            le_limbs_val(out@) + (if carry {
                pow2(32 * i as nat)
            } else {
                0
            }) == le_limbs_val(a@.take(i as int)) + le_limbs_val(b@.take(i as int)),
        decreases 8 - i,
    {
        let cin: u64 = if carry {
            1
        } else {
            0
        };
        let t: u64 = (a[i] as u64) + (b[i] as u64) + cin;
        let limb: u32 = (t % 0x1_0000_0000u64) as u32;
        let new_carry: bool = t >= 0x1_0000_0000u64;
        proof {
            let ai = a@[i as int];
            let bi = b@[i as int];
            let w = pow2(32 * i as nat);
            lemma_pow2_pos(32 * i as nat);
            lemma_pow2_adds(32 * i as nat, 32);
            lemma2_to64();
            let cout: int = if new_carry {
                0x1_0000_0000int
            } else {
                0
            };
            assert(limb + cout == ai + bi + cin);
            lemma_le_limbs_val_push(out@, limb);
            assert(a@.take(i + 1).drop_last() =~= a@.take(i as int));
            assert(b@.take(i + 1).drop_last() =~= b@.take(i as int));
            assert(le_limbs_val(a@.take(i + 1)) == le_limbs_val(a@.take(i as int)) + ai * w);
            assert(le_limbs_val(b@.take(i + 1)) == le_limbs_val(b@.take(i as int)) + bi * w);
            assert((ai + bi + cin - cout) * w == ai * w + bi * w + cin * w - cout * w)
                by (nonlinear_arith);
            assert(0x1_0000_0000 * w == w * pow2(32)) by (nonlinear_arith)
                requires
                    pow2(32) == 0x1_0000_0000,
            ;
            assert(cin * w == (if carry {
                w as int
            } else {
                0
            })) by (nonlinear_arith)
                requires
                    cin == (if carry {
                        1u64
                    } else {
                        0u64
                    }),
            ;
        }
        out.push(limb);
        carry = new_carry;
        i = i + 1;
    }
    proof {
        assert(a@.take(8) =~= a@);
        assert(b@.take(8) =~= b@);
        assert(32 * 8nat == 256);
        if carry {
            lemma_pow2_pos(256);
        }
    }
    out
}

} // verus!
