//! The witness decoder and its inverse encoder.
//!
//! The circuit compiler emits one 32-byte block per witness element.
//! A block is eight 32-bit limbs: limbs appear on the wire in big-endian
//! limb order (the limb at stream position 0 is the most significant),
//! while each limb is little-endian in its four bytes.  The block's
//! integer is read as a signed 256-bit quantity in two's complement, and
//! is then normalized into the canonical range `[0, r)` of the BN254
//! scalar field.

use crate::limbs::{add_limbs, le_limbs_val, lemma_le_limbs_val_bound, n_limbs};
use crate::scalar::{
    fr_order, lemma_order_bounds, neg_pow256_offset, neg_pow256_offset_limbs, reduce_mod_order,
    Scalar,
};
use crate::ProveError;
use vstd::arithmetic::div_mod::{
    lemma_div_denominator, lemma_fundamental_div_mod, lemma_fundamental_div_mod_converse,
    lemma_mod_multiples_vanish, lemma_small_mod,
};
use vstd::arithmetic::power2::{lemma2_to64, lemma_pow2_adds, pow2};
use vstd::prelude::*;

verus! {

/// Value of four bytes read little-endian.
pub open spec fn le4_val(b: Seq<u8>) -> nat
    recommends
        b.len() == 4,
{
    (b[0] as nat) + 256 * (b[1] as nat) + 65536 * (b[2] as nat) + 16777216 * (b[3] as nat)
}

/// The eight limbs of one 32-byte block, in little-endian limb order.
/// The limb of weight `2^(32*i)` sits at stream offset `28 - 4*i`.
pub open spec fn block_limbs_spec(b: Seq<u8>) -> Seq<u32>
    recommends
        b.len() == 32,
{
    Seq::new(8, |i: int| le4_val(b.subrange(28 - 4 * i, 32 - 4 * i)) as u32)
}

/// The block's integer read as unsigned.
pub open spec fn block_unsigned(b: Seq<u8>) -> nat
    recommends
        b.len() == 32,
{
    le_limbs_val(block_limbs_spec(b))
}

/// The block's integer read as a signed 256-bit two's-complement value.
pub open spec fn block_signed(b: Seq<u8>) -> int
    recommends
        b.len() == 32,
{
    if block_unsigned(b) >= pow2(255) {
        block_unsigned(b) - pow2(256)
    } else {
        block_unsigned(b) as int
    }
}

/// The canonical field element a block decodes to: the signed value
/// normalized into `[0, r)`.
pub open spec fn block_elem(b: Seq<u8>) -> nat
    recommends
        b.len() == 32,
{
    (block_signed(b) % (fr_order() as int)) as nat
}

/// The elements a whole witness stream decodes to: one per 32-byte block.
pub open spec fn witness_vals(bytes: Seq<u8>) -> Seq<nat> {
    Seq::new(bytes.len() / 32, |j: int| block_elem(bytes.subrange(32 * j, 32 * j + 32)))
}

/// The sign of the 256-bit value shows in its top limb.
proof fn lemma_top_limb_sign(s: Seq<u32>)
    requires
        s.len() == n_limbs(),
    ensures
        (le_limbs_val(s) >= pow2(255)) <==> (s[7] >= 0x8000_0000u32),
{
    let low = s.drop_last();
    let w = pow2(224);
    assert(le_limbs_val(s) == le_limbs_val(low) + (s[7] as nat) * w);
    lemma_le_limbs_val_bound(low);
    assert(32 * low.len() == 224);
    lemma_pow2_adds(224, 31);
    lemma2_to64();
    assert(pow2(255) == w * 0x8000_0000);
    if s[7] >= 0x8000_0000u32 {
        assert((s[7] as nat) * w >= 0x8000_0000 * w) by (nonlinear_arith)
            requires
                s[7] >= 0x8000_0000u32,
                w > 0,
        ;
        assert(0x8000_0000 * w == w * 0x8000_0000) by (nonlinear_arith);
    } else {
        assert((s[7] as nat) * w <= 0x7fff_ffff * w) by (nonlinear_arith)
            requires
                s[7] <= 0x7fff_ffffu32,
                w > 0,
        ;
        assert(0x7fff_ffff * w + w == w * 0x8000_0000) by (nonlinear_arith);
    }
}

/// Read the four little-endian bytes starting at `off` as one 32-bit
/// value.
pub(crate) fn read_le4(bytes: &[u8], off: usize) -> (r: u32)
    requires
        off + 4 <= bytes@.len(),
    ensures
        r == le4_val(bytes@.subrange(off as int, off + 4)),
{
    let b0 = bytes[off] as u32;
    let b1 = bytes[off + 1] as u32;
    let b2 = bytes[off + 2] as u32;
    let b3 = bytes[off + 3] as u32;
    b0 + 256 * b1 + 65536 * b2 + 16777216 * b3
}

/// Decode the 32-byte block starting at `off` into its canonical field
/// element: read eight limbs, interpret the 256-bit value as signed, and
/// reduce modulo `r`.
pub fn decode_block(bytes: &[u8], off: usize) -> (res: Scalar)
    requires
        off + 32 <= bytes@.len(),
    ensures
        res.wf(),
        res.val() == block_elem(bytes@.subrange(off as int, off + 32)),
{
    let ghost blk = bytes@.subrange(off as int, off + 32);
    let blen = bytes.len();
    let mut limbs: Vec<u32> = Vec::new();
    let mut i: usize = 0;
    while i < 8
        invariant
            off + 32 <= blen == bytes@.len(),
            blk == bytes@.subrange(off as int, off + 32),
            i <= 8,
            limbs@.len() == i,
            forall|k: int| 0 <= k < i ==> limbs@[k] == block_limbs_spec(blk)[k],
        decreases 8 - i,
    {
        let limb = read_le4(bytes, off + (28 - 4 * i));
        proof {
            assert(bytes@.subrange(off + 28 - 4 * i, off + 32 - 4 * i) =~= blk.subrange(
                28 - 4 * i as int,
                32 - 4 * i as int,
            ));
        }
        limbs.push(limb);
        i = i + 1;
    }
    proof {
        assert(limbs@ =~= block_limbs_spec(blk));
        lemma_top_limb_sign(limbs@);
        lemma_order_bounds();
    }
    let negative = limbs[7] >= 0x8000_0000u32;
    let ghost u = le_limbs_val(limbs@);
    let m = reduce_mod_order(limbs);
    if negative {
        let c = neg_pow256_offset_limbs();
        proof {
            lemma_order_bounds();
        }
        let s = add_limbs(&m, &c);
        let red = reduce_mod_order(s);
        proof {
            let r = fr_order() as int;
            let x = u - pow2(256);
            lemma_fundamental_div_mod(u as int, r);
            // m + offset differs from the signed value by a multiple of r
            lemma_mod_multiples_vanish(6 - ((u as int) / r), x, r);
            assert(r * (6 - ((u as int) / r)) == 6 * r - r * ((u as int) / r))
                by (nonlinear_arith);
            assert(le_limbs_val(s@) == (u % fr_order()) + neg_pow256_offset());
            assert(le_limbs_val(s@) as int == r * (6 - ((u as int) / r)) + x);
            assert((le_limbs_val(s@) as int) % r == x % r);
        }
        Scalar::from_reduced_limbs(red)
    } else {
        proof {
            assert(block_signed(blk) == u);
        }
        Scalar::from_reduced_limbs(m)
    }
}

/// Decode a whole witness stream: one element per 32-byte block, in
/// stream order.  A stream whose length is not a multiple of 32 bytes is
/// malformed and rejected; the empty stream decodes to no elements.
pub fn witness_assignments(bytes: &[u8]) -> (res: Result<Vec<Scalar>, ProveError>)
    ensures
        res is Ok <==> bytes@.len() % 32 == 0,
        res matches Err(e) ==> e == ProveError::MalformedWitness,
        res matches Ok(v) ==> {
            &&& v@.len() == witness_vals(bytes@).len()
            &&& v@.len() == bytes@.len() / 32
            &&& forall|j: int|
                0 <= j < v@.len() ==> (#[trigger] v@[j]).wf() && v@[j].val() == witness_vals(
                    bytes@,
                )[j]
        },
{
    if bytes.len() % 32 != 0 {
        return Err(ProveError::MalformedWitness);
    }
    let blen = bytes.len();
    let n = blen / 32;
    proof {
        lemma_fundamental_div_mod(blen as int, 32);
    }
    let mut out: Vec<Scalar> = Vec::new();
    let mut j: usize = 0;
    while j < n
        invariant
            blen == bytes@.len(),
            bytes@.len() == 32 * n,
            j <= n,
            out@.len() == j,
            forall|k: int|
                0 <= k < j ==> (#[trigger] out@[k]).wf() && out@[k].val() == block_elem(
                    bytes@.subrange(32 * k, 32 * k + 32),
                ),
        decreases n - j,
    {
        proof {
            assert(32 * j + 32 <= 32 * n) by (nonlinear_arith)
                requires
                    j < n,
            ;
        }
        let e = decode_block(bytes, 32 * j);
        out.push(e);
        j = j + 1;
    }
    Ok(out)
}

/// A block whose signed reading is a non-negative `x` below `r` decodes
/// to the element `x` itself.
pub proof fn lemma_decode_nonnegative(b: Seq<u8>, x: int)
    requires
        b.len() == 32,
        block_signed(b) == x,
        0 <= x < fr_order(),
    ensures
        block_elem(b) == x,
{
    lemma_small_mod(x as nat, fr_order());
}

/// A block whose signed reading is `-y` with `0 < y <= r` decodes to the
/// element `r - y`.
pub proof fn lemma_decode_negative(b: Seq<u8>, y: int)
    requires
        b.len() == 32,
        block_signed(b) == -y,
        0 < y <= fr_order(),
    ensures
        block_elem(b) == fr_order() - y,
{
    let r = fr_order() as int;
    lemma_mod_multiples_vanish(1, -y, r);
    assert(r * 1 + (-y) == r - y);
    lemma_small_mod((r - y) as nat, fr_order());
}

/// A stream of `32*k` bytes decodes to exactly `k` elements; the empty
/// stream decodes to none.
pub proof fn lemma_witness_count(bytes: Seq<u8>)
    ensures
        witness_vals(bytes).len() == bytes.len() / 32,
        bytes.len() == 0 ==> witness_vals(bytes).len() == 0,
{
}

/// Byte `j` (little-endian) of a 32-bit limb.
pub open spec fn limb_byte(l: u32, j: int) -> u8
    recommends
        0 <= j < 4,
{
    if j == 0 {
        (l % 256) as u8
    } else if j == 1 {
        ((l / 256) % 256) as u8
    } else if j == 2 {
        ((l / 65536) % 256) as u8
    } else {
        ((l / 16777216) % 256) as u8
    }
}

/// The 32-byte block that encodes eight limbs: the wire format the
/// circuit compiler uses, limbs most-significant first, bytes of each
/// limb little-endian.
pub open spec fn encode_block_spec(limbs: Seq<u32>) -> Seq<u8>
    recommends
        limbs.len() == 8,
{
    Seq::new(32, |p: int| limb_byte(limbs[7 - p / 4], p % 4))
}

/// Reading the four little-endian bytes of a limb gives the limb back.
proof fn lemma_limb_bytes_recompose(l: u32)
    ensures
        le4_val(seq![limb_byte(l, 0), limb_byte(l, 1), limb_byte(l, 2), limb_byte(l, 3)]) == l,
{
    let n = l as int;
    lemma_fundamental_div_mod(n, 256);
    lemma_fundamental_div_mod(n / 256, 256);
    lemma_fundamental_div_mod(n / 65536, 256);
    lemma_div_denominator(n, 256, 256);
    lemma_div_denominator(n, 65536, 256);
    assert(n / 16777216 < 256);
    lemma_small_mod((n / 16777216) as nat, 256);
    let b = seq![limb_byte(l, 0), limb_byte(l, 1), limb_byte(l, 2), limb_byte(l, 3)];
    assert(b[0] == n % 256 && b[1] == (n / 256) % 256 && b[2] == (n / 65536) % 256 && b[3] == n
        / 16777216);
}

/// Decoding the block that encodes eight limbs gives the limbs back.
proof fn lemma_encode_limbs_round_trip(limbs: Seq<u32>)
    requires
        limbs.len() == n_limbs(),
    ensures
        block_limbs_spec(encode_block_spec(limbs)) =~= limbs,
        block_unsigned(encode_block_spec(limbs)) == le_limbs_val(limbs),
{
    let b = encode_block_spec(limbs);
    assert forall|i: int| 0 <= i < 8 implies block_limbs_spec(b)[i] == limbs[i] by {
        let l = limbs[i];
        let sub = b.subrange(28 - 4 * i, 32 - 4 * i);
        assert forall|j: int| 0 <= j < 4 implies sub[j] == limb_byte(l, j) by {
            let p = 28 - 4 * i + j;
            lemma_fundamental_div_mod_converse(p, 4, 7 - i, j);
            assert(sub[j] == b[p]);
        }
        assert(sub =~= seq![limb_byte(l, 0), limb_byte(l, 1), limb_byte(l, 2), limb_byte(l, 3)]);
        lemma_limb_bytes_recompose(l);
    }
    assert(block_limbs_spec(b) =~= limbs);
}

/// Round trip: the block that encodes a canonical field element decodes
/// to that element.
pub proof fn lemma_encode_then_decode(s: Scalar)
    requires
        s.wf(),
    ensures
        block_elem(encode_block_spec(s.limbs_view())) == s.val(),
{
    s.lemma_wf();
    let b = encode_block_spec(s.limbs_view());
    lemma_encode_limbs_round_trip(s.limbs_view());
    lemma_order_bounds();
    assert(block_signed(b) == s.val());
    lemma_small_mod(s.val(), fr_order());
}

/// Value of a byte sequence read little-endian: the byte at index `i`
/// carries weight `2^(8*i)`.
pub open spec fn le_bytes_val(s: Seq<u8>) -> nat
    decreases s.len(),
{
    if s.len() == 0 {
        0
    } else {
        le_bytes_val(s.drop_last()) + (s.last() as nat) * pow2(8 * (s.len() - 1) as nat)
    }
}

/// A prefix of `4*k` little-endian bytes laid out limb by limb is worth
/// the same as the first `k` limbs.
proof fn lemma_le_bytes_of_limbs_prefix(bytes: Seq<u8>, limbs: Seq<u32>, k: int)
    requires
        limbs.len() == 8,
        bytes.len() == 32,
        0 <= k <= 8,
        forall|i: int, j: int|
            0 <= i < 8 && 0 <= j < 4 ==> bytes[4 * i + j] == #[trigger] limb_byte(limbs[i], j),
    ensures
        le_bytes_val(bytes.take(4 * k)) == le_limbs_val(limbs.take(k)),
    decreases k,
{
    if k == 0 {
        assert(bytes.take(0) =~= Seq::<u8>::empty());
        assert(limbs.take(0) =~= Seq::<u32>::empty());
    } else {
        lemma_le_bytes_of_limbs_prefix(bytes, limbs, k - 1);
        let l = limbs[k - 1];
        let w = pow2(8 * (4 * (k - 1)) as nat);
        let b0 = bytes[4 * (k - 1)];
        let b1 = bytes[4 * (k - 1) + 1];
        let b2 = bytes[4 * (k - 1) + 2];
        let b3 = bytes[4 * (k - 1) + 3];
        assert(bytes.take(4 * k).drop_last() =~= bytes.take(4 * k - 1));
        assert(bytes.take(4 * k - 1).drop_last() =~= bytes.take(4 * k - 2));
        assert(bytes.take(4 * k - 2).drop_last() =~= bytes.take(4 * k - 3));
        assert(bytes.take(4 * k - 3).drop_last() =~= bytes.take(4 * k - 4));
        assert(limbs.take(k).drop_last() =~= limbs.take(k - 1));
        assert(bytes.take(4 * k).last() == b3);
        assert(bytes.take(4 * k - 1).last() == b2);
        assert(bytes.take(4 * k - 2).last() == b1);
        assert(bytes.take(4 * k - 3).last() == b0);
        assert(le_bytes_val(bytes.take(4 * k)) == le_bytes_val(bytes.take(4 * k - 1)) + (
        b3 as nat) * pow2((8 * (4 * k - 1)) as nat));
        assert(le_bytes_val(bytes.take(4 * k - 1)) == le_bytes_val(bytes.take(4 * k - 2)) + (
        b2 as nat) * pow2((8 * (4 * k - 2)) as nat));
        assert(le_bytes_val(bytes.take(4 * k - 2)) == le_bytes_val(bytes.take(4 * k - 3)) + (
        b1 as nat) * pow2((8 * (4 * k - 3)) as nat));
        assert(le_bytes_val(bytes.take(4 * k - 3)) == le_bytes_val(bytes.take(4 * k - 4)) + (
        b0 as nat) * pow2((8 * (4 * k - 4)) as nat));
        assert(le_bytes_val(bytes.take(4 * k)) == le_bytes_val(bytes.take(4 * k - 4)) + (
        b0 as nat) * pow2((8 * (4 * k - 4)) as nat) + (b1 as nat) * pow2((8 * (4 * k - 3)) as nat)
            + (b2 as nat) * pow2((8 * (4 * k - 2)) as nat) + (b3 as nat) * pow2(
            (8 * (4 * k - 1)) as nat,
        ));
        lemma2_to64();
        lemma_pow2_adds((8 * (4 * k - 4)) as nat, 8);
        lemma_pow2_adds((8 * (4 * k - 4)) as nat, 16);
        lemma_pow2_adds((8 * (4 * k - 4)) as nat, 24);
        assert(pow2((8 * (4 * k - 3)) as nat) == w * 256);
        assert(pow2((8 * (4 * k - 2)) as nat) == w * 65536);
        assert(pow2((8 * (4 * k - 1)) as nat) == w * 16777216);
        lemma_limb_bytes_recompose(l);
        assert(le4_val(seq![limb_byte(l, 0), limb_byte(l, 1), limb_byte(l, 2), limb_byte(l, 3)])
            == (b0 as nat) + 256 * (b1 as nat) + 65536 * (b2 as nat) + 16777216 * (b3 as nat));
        assert((b0 as nat) * w + (b1 as nat) * (w * 256) + (b2 as nat) * (w * 65536) + (b3 as nat)
            * (w * 16777216) == ((b0 as nat) + 256 * (b1 as nat) + 65536 * (b2 as nat) + 16777216
            * (b3 as nat)) * w) by (nonlinear_arith);
        assert((l as nat) * w == ((b0 as nat) + 256 * (b1 as nat) + 65536 * (b2 as nat) + 16777216
            * (b3 as nat)) * w) by (nonlinear_arith)
            requires
                (l as nat) == (b0 as nat) + 256 * (b1 as nat) + 65536 * (b2 as nat) + 16777216 * (
                b3 as nat),
        ;
        assert(8 * (4 * (k - 1)) == 32 * (k - 1));
        assert(le_limbs_val(limbs.take(k)) == le_limbs_val(limbs.take(k - 1)) + (l as nat) * pow2(
            (32 * (k - 1)) as nat,
        ));
    }
}

/// Thirty-two little-endian bytes laid out limb by limb are worth the
/// same as the eight limbs.
pub proof fn lemma_le_bytes_of_limbs(bytes: Seq<u8>, limbs: Seq<u32>)
    requires
        limbs.len() == 8,
        bytes.len() == 32,
        forall|i: int, j: int|
            0 <= i < 8 && 0 <= j < 4 ==> bytes[4 * i + j] == #[trigger] limb_byte(limbs[i], j),
    ensures
        le_bytes_val(bytes) == le_limbs_val(limbs),
{
    lemma_le_bytes_of_limbs_prefix(bytes, limbs, 8);
    assert(bytes.take(32) =~= bytes);
    assert(limbs.take(8) =~= limbs);
}

/// Encode a canonical field element as one 32-byte block in the wire
/// format the decoder reads.
pub fn encode_block(s: &Scalar) -> (out: Vec<u8>)
    requires
        s.wf(),
    ensures
        out@ == encode_block_spec(s.limbs_view()),
        out@.len() == 32,
        block_elem(out@) == s.val(),
{
    proof {
        s.lemma_wf();
    }
    let limbs = s.to_limbs();
    let mut out: Vec<u8> = Vec::new();
    let mut k: usize = 0;
    while k < 8
        invariant
            limbs@ == s.limbs_view(),
            limbs@.len() == 8,
            k <= 8,
            out@.len() == 4 * k,
            forall|p: int| 0 <= p < 4 * k ==> out@[p] == encode_block_spec(limbs@)[p],
        decreases 8 - k,
    {
        let l = limbs[7 - k];
        out.push((l % 256) as u8);
        out.push(((l / 256) % 256) as u8);
        out.push(((l / 65536) % 256) as u8);
        out.push(((l / 16777216) % 256) as u8);
        proof {
            assert forall|p: int| 4 * k <= p < 4 * k + 4 implies out@[p] == encode_block_spec(
                limbs@,
            )[p] by {
                let j = p - 4 * k;
                lemma_fundamental_div_mod_converse(p, 4, k as int, j);
                assert(out@[p] == limb_byte(limbs@[7 - k], j));
            }
        }
        k = k + 1;
    }
    proof {
        assert(out@ =~= encode_block_spec(limbs@));
        lemma_encode_then_decode(*s);
    }
    out
}

} // verus!
