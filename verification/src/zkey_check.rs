//! Structural validation for proving-key files.
//!
//! The zkey parser trusts its input: on a buffer with the right magic it
//! unwraps the lookup of each section id, sizes its matrices from the
//! header, indexes them with file-supplied record fields, and constructs
//! every curve point with an asserting constructor, so a malformed
//! buffer can abort the process inside the parser.  This module walks
//! the same structure in verified code first: the section table exactly
//! as the parser reads it, the variable counts of the header, the
//! coefficient records, and every whole point block, whose verdict comes
//! from the same non-asserting curve checks the constructor makes.  A
//! buffer that passes here can still be rejected by the parser, but the
//! aborts are ruled out before the parser ever runs.

use crate::bridge::{check_g1_block, check_g2_block, g1_block_ok, g2_block_ok};
use crate::witness::{le4_val, read_le4};
use vstd::prelude::*;
use vstd::slice::slice_subrange;

verus! {

/// A section's declared length, as the parser turns it into a seek:
/// eight little-endian bytes read at `pos + 4`, then cast to a signed
/// 64-bit offset.
pub open spec fn section_seek(z: Seq<u8>, pos: int) -> int {
    let raw = le4_val(z.subrange(pos + 4, pos + 8)) + 0x1_0000_0000 * le4_val(
        z.subrange(pos + 8, pos + 12),
    );
    if raw >= 0x8000_0000_0000_0000 {
        raw - 0x1_0000_0000_0000_0000
    } else {
        raw as int
    }
}

/// The section table as the parser's binary-file walk reads it:
/// `count` entries of id and payload position, each followed by a seek
/// over the declared length.  `None` means a read or seek fails, on
/// which the parser returns an error before touching any section.
pub open spec fn table_entries(z: Seq<u8>, pos: int, count: nat) -> Option<Seq<(u32, int)>>
    decreases count,
{
    if count == 0 {
        Option::Some(Seq::empty())
    } else if pos + 12 > z.len() {
        Option::None
    } else {
        let id = le4_val(z.subrange(pos, pos + 4)) as u32;
        let next = pos + 12 + section_seek(z, pos);
        if next < 0 {
            Option::None
        } else {
            match table_entries(z, next, (count - 1) as nat) {
                Option::None => Option::None,
                Option::Some(rest) => Option::Some(seq![(id, pos + 12)].add(rest)),
            }
        }
    }
}

/// The payload position of the first entry with the given id: the entry
/// the parser's section lookup hands out.
pub open spec fn first_payload_pos(entries: Seq<(u32, int)>, id: u32) -> Option<int>
    decreases entries.len(),
{
    if entries.len() == 0 {
        Option::None
    } else if entries[0].0 == id {
        Option::Some(entries[0].1)
    } else {
        first_payload_pos(entries.drop_first(), id)
    }
}

/// The whole table of a buffer: magic, version and section count are the
/// first twelve bytes; a shorter buffer fails the parser's first reads.
pub open spec fn zkey_table(z: Seq<u8>) -> Option<Seq<(u32, int)>> {
    if z.len() < 12 {
        Option::None
    } else {
        table_entries(z, 12, le4_val(z.subrange(8, 12)))
    }
}

/// Payload position of the first section with the given id, defined when
/// the table parses and the id is present.
pub open spec fn zkey_section_pos(z: Seq<u8>, id: u32) -> int {
    match zkey_table(z) {
        Option::Some(entries) => match first_payload_pos(entries, id) {
            Option::Some(p) => p,
            Option::None => 0,
        },
        Option::None => 0,
    }
}

/// The header's variable count, at a fixed offset in section 2.
pub open spec fn zkey_n_vars(z: Seq<u8>) -> nat {
    le4_val(z.subrange(zkey_section_pos(z, 2) + 72, zkey_section_pos(z, 2) + 76))
}

/// The header's public-input count, at a fixed offset in section 2.
pub open spec fn zkey_n_public(z: Seq<u8>) -> nat {
    le4_val(z.subrange(zkey_section_pos(z, 2) + 76, zkey_section_pos(z, 2) + 80))
}

/// The header's domain size, at a fixed offset in section 2.
pub open spec fn zkey_domain_size(z: Seq<u8>) -> nat {
    le4_val(z.subrange(zkey_section_pos(z, 2) + 80, zkey_section_pos(z, 2) + 84))
}

/// The coefficient records of section 4, as the parser reads them: each
/// names a matrix (at most 1), a constraint row (below the domain size)
/// and a signal (below the variable count); the parser indexes its
/// matrices with the first two and the prover indexes the assignment
/// with the third.  A record cut off by the end of the buffer makes the
/// parser error out cleanly, so the walk stops there.  When every record
/// is read, the largest row index must reach the public-input count,
/// which the parser subtracts from it.
pub open spec fn records_ok(
    z: Seq<u8>,
    pos: int,
    count: nat,
    n_public: nat,
    domain: nat,
    n_vars: nat,
    max_row: nat,
) -> bool
    decreases count,
{
    if count == 0 {
        max_row >= n_public
    } else if pos + 44 > z.len() {
        true
    } else {
        let m = le4_val(z.subrange(pos, pos + 4));
        let row = le4_val(z.subrange(pos + 4, pos + 8));
        let signal = le4_val(z.subrange(pos + 8, pos + 12));
        &&& m <= 1
        &&& row < domain
        &&& signal < n_vars
        &&& records_ok(
            z,
            pos + 44,
            (count - 1) as nat,
            n_public,
            domain,
            n_vars,
            if row > max_row {
                row
            } else {
                max_row
            },
        )
    }
}

/// Section 4's records, starting after its record count.
pub open spec fn zkey_coeffs_ok(z: Seq<u8>, n_public: nat, domain: nat, n_vars: nat) -> bool {
    let s4 = zkey_section_pos(z, 4);
    if s4 + 4 > z.len() {
        true
    } else {
        records_ok(z, s4 + 4, le4_val(z.subrange(s4, s4 + 4)), n_public, domain, n_vars, 0)
    }
}

/// The `i`-th 64-byte G1 block of a point section at `pos`.
pub open spec fn g1_point_block(z: Seq<u8>, pos: int, i: int) -> Seq<u8> {
    z.subrange(pos + 64 * i, pos + 64 * (i + 1))
}

/// The `i`-th 128-byte G2 block of a point section at `pos`.
pub open spec fn g2_point_block(z: Seq<u8>, pos: int, i: int) -> Seq<u8> {
    z.subrange(pos + 128 * i, pos + 128 * (i + 1))
}

/// Whether every whole G1 block of a `count`-point section at `pos`
/// passes the parser's point read.  The parser reads the blocks in
/// order, so a block cut off by the end of the buffer makes it error out
/// cleanly before constructing that point or any later one: such blocks
/// carry no obligation.
pub open spec fn g1_vec_ok(z: Seq<u8>, pos: int, count: nat) -> bool {
    forall|i: int|
        0 <= i < count && pos + 64 * (i + 1) <= z.len() ==> g1_block_ok(
            #[trigger] g1_point_block(z, pos, i),
        )
}

/// Whether every whole G2 block of a `count`-point section at `pos`
/// passes the parser's point read.
pub open spec fn g2_vec_ok(z: Seq<u8>, pos: int, count: nat) -> bool {
    forall|i: int|
        0 <= i < count && pos + 128 * (i + 1) <= z.len() ==> g2_block_ok(
            #[trigger] g2_point_block(z, pos, i),
        )
}

/// The six verifying-key points of the header section, at the fixed
/// offsets after the counts, in the order the parser constructs them:
/// two G1 points, two G2 points, one G1 point, one G2 point.  Each is
/// conditioned on lying whole inside the buffer, as in the sections.
pub open spec fn zkey_header_points_ok(z: Seq<u8>, s2: int) -> bool {
    &&& (s2 + 148 <= z.len() ==> g1_block_ok(z.subrange(s2 + 84, s2 + 148)))
    &&& (s2 + 212 <= z.len() ==> g1_block_ok(z.subrange(s2 + 148, s2 + 212)))
    &&& (s2 + 340 <= z.len() ==> g2_block_ok(z.subrange(s2 + 212, s2 + 340)))
    &&& (s2 + 468 <= z.len() ==> g2_block_ok(z.subrange(s2 + 340, s2 + 468)))
    &&& (s2 + 532 <= z.len() ==> g1_block_ok(z.subrange(s2 + 468, s2 + 532)))
    &&& (s2 + 660 <= z.len() ==> g2_block_ok(z.subrange(s2 + 532, s2 + 660)))
}

/// Every curve point the parser constructs must pass its asserting
/// checks: the six verifying-key points of the header, the public-input
/// commitments, and the five query sections, with the counts the parser
/// takes from the header.  Where the table, a section or the header
/// cannot be read, the parser errors out before any point, so nothing is
/// demanded.
pub open spec fn zkey_points_ok(z: Seq<u8>) -> bool {
    match zkey_table(z) {
        Option::None => true,
        Option::Some(entries) => {
            if !(forall|id: u32|
                2 <= id <= 9 ==> #[trigger] first_payload_pos(entries, id) is Some) {
                true
            } else {
                let s2 = zkey_section_pos(z, 2);
                if s2 + 84 > z.len() {
                    true
                } else {
                    let n_vars = zkey_n_vars(z);
                    let n_public = zkey_n_public(z);
                    &&& zkey_header_points_ok(z, s2)
                    &&& g1_vec_ok(z, zkey_section_pos(z, 3), n_public + 1)
                    &&& g1_vec_ok(z, zkey_section_pos(z, 5), n_vars)
                    &&& g1_vec_ok(z, zkey_section_pos(z, 6), n_vars)
                    &&& g2_vec_ok(z, zkey_section_pos(z, 7), n_vars)
                    &&& (n_public + 1 <= n_vars ==> g1_vec_ok(
                        z,
                        zkey_section_pos(z, 8),
                        (n_vars - n_public - 1) as nat,
                    ))
                    &&& g1_vec_ok(z, zkey_section_pos(z, 9), zkey_domain_size(z))
                }
            }
        },
    }
}

/// The framing a buffer must have before the parser may run on it:
/// either the section-table walk fails (the parser then errors out
/// before using any section), or sections 2 through 9 are all present,
/// and — when the header is readable — the variable counts are
/// consistent and every coefficient record is in range.
pub open spec fn zkey_framing_ok(z: Seq<u8>) -> bool {
    match zkey_table(z) {
        Option::None => true,
        Option::Some(entries) => {
            &&& (forall|id: u32|
                2 <= id <= 9 ==> #[trigger] first_payload_pos(entries, id) is Some)
            &&& {
                let s2 = zkey_section_pos(z, 2);
                if s2 + 84 > z.len() {
                    true
                } else {
                    &&& zkey_n_public(z) + 1 <= zkey_n_vars(z)
                    &&& zkey_coeffs_ok(z, zkey_n_public(z), zkey_domain_size(z), zkey_n_vars(z))
                }
            }
        },
    }
}

/// Appending an entry leaves earlier first-match positions in place and
/// can only supply a missing one.
proof fn lemma_first_pos_push(entries: Seq<(u32, int)>, e: (u32, int), id: u32)
    ensures
        first_payload_pos(entries.push(e), id) == (if first_payload_pos(entries, id) is Some {
            first_payload_pos(entries, id)
        } else if e.0 == id {
            Option::Some(e.1)
        } else {
            Option::<int>::None
        }),
    decreases entries.len(),
{
    assert(entries.push(e).len() == entries.len() + 1);
    if entries.len() == 0 {
        assert(entries.push(e)[0] == e);
        assert(entries.push(e).drop_first() =~= Seq::<(u32, int)>::empty());
        if e.0 == id {
            assert(first_payload_pos(entries.push(e), id) == Option::Some(e.1));
        } else {
            assert(first_payload_pos(entries.push(e), id) == first_payload_pos(
                entries.push(e).drop_first(),
                id,
            ));
        }
    } else {
        assert(entries.push(e)[0] == entries[0]);
        assert(entries.push(e).drop_first() =~= entries.drop_first().push(e));
        lemma_first_pos_push(entries.drop_first(), e, id);
        if entries[0].0 == id {
            assert(first_payload_pos(entries, id) == Option::Some(entries[0].1));
            assert(first_payload_pos(entries.push(e), id) == Option::Some(entries[0].1));
        } else {
            assert(first_payload_pos(entries, id) == first_payload_pos(
                entries.drop_first(),
                id,
            ));
            assert(first_payload_pos(entries.push(e), id) == first_payload_pos(
                entries.drop_first().push(e),
                id,
            ));
        }
    }
}

/// Compose a finished prefix of the table walk with the rest.
pub open spec fn table_join(acc: Seq<(u32, int)>, rest: Option<Seq<(u32, int)>>) -> Option<
    Seq<(u32, int)>,
> {
    match rest {
        Option::None => Option::None,
        Option::Some(r) => Option::Some(acc.add(r)),
    }
}

/// Check every whole G1 block of a section, mirroring the parser's
/// sequential point reads.
fn check_g1_vec(z: &[u8], s: usize, count: u32) -> (ok: bool)
    requires
        s <= z@.len(),
    ensures
        ok == g1_vec_ok(z@, s as int, count as nat),
{
    let len = z.len();
    let mut k: u32 = 0;
    let mut pos: usize = s;
    while k < count
        invariant
            len == z@.len(),
            s <= len,
            k <= count,
            pos == s + 64 * (k as int),
            pos <= len,
            forall|i: int| 0 <= i < k ==> g1_block_ok(#[trigger] g1_point_block(z@, s as int, i)),
        decreases count - k,
    {
        if (pos as u128) + 64 > (len as u128) {
            proof {
                assert forall|i: int|
                    0 <= i < count && (s as int) + 64 * (i + 1) <= len implies g1_block_ok(
                    #[trigger] g1_point_block(z@, s as int, i),
                ) by {
                    if i >= k {
                        assert(64 * (i + 1) >= 64 * ((k as int) + 1));
                        assert(false);
                    }
                }
                assert(g1_vec_ok(z@, s as int, count as nat));
            }
            return true;
        }
        let block = slice_subrange(z, pos, pos + 64);
        let good = check_g1_block(block);
        proof {
            assert(64 * ((k as int) + 1) == 64 * (k as int) + 64);
            assert(block@ == g1_point_block(z@, s as int, k as int));
        }
        if !good {
            proof {
                assert(!g1_vec_ok(z@, s as int, count as nat));
            }
            return false;
        }
        pos = pos + 64;
        k = k + 1;
    }
    true
}

/// Check every whole G2 block of a section, mirroring the parser's
/// sequential point reads.
fn check_g2_vec(z: &[u8], s: usize, count: u32) -> (ok: bool)
    requires
        s <= z@.len(),
    ensures
        ok == g2_vec_ok(z@, s as int, count as nat),
{
    let len = z.len();
    let mut k: u32 = 0;
    let mut pos: usize = s;
    while k < count
        invariant
            len == z@.len(),
            s <= len,
            k <= count,
            pos == s + 128 * (k as int),
            pos <= len,
            forall|i: int| 0 <= i < k ==> g2_block_ok(#[trigger] g2_point_block(z@, s as int, i)),
        decreases count - k,
    {
        if (pos as u128) + 128 > (len as u128) {
            proof {
                assert forall|i: int|
                    0 <= i < count && (s as int) + 128 * (i + 1) <= len implies g2_block_ok(
                    #[trigger] g2_point_block(z@, s as int, i),
                ) by {
                    if i >= k {
                        assert(128 * (i + 1) >= 128 * ((k as int) + 1));
                        assert(false);
                    }
                }
                assert(g2_vec_ok(z@, s as int, count as nat));
            }
            return true;
        }
        let block = slice_subrange(z, pos, pos + 128);
        let good = check_g2_block(block);
        proof {
            assert(128 * ((k as int) + 1) == 128 * (k as int) + 128);
            assert(block@ == g2_point_block(z@, s as int, k as int));
        }
        if !good {
            proof {
                assert(!g2_vec_ok(z@, s as int, count as nat));
            }
            return false;
        }
        pos = pos + 128;
        k = k + 1;
    }
    true
}

/// Check the six verifying-key points of the header section, at the
/// fixed offsets the parser reads them from.
fn check_header_points(z: &[u8], s2: usize) -> (ok: bool)
    requires
        s2 + 84 <= z@.len(),
    ensures
        ok == zkey_header_points_ok(z@, s2 as int),
{
    let len = z.len();
    if (s2 as u128) + 148 > (len as u128) {
        return true;
    }
    if !check_g1_block(slice_subrange(z, s2 + 84, s2 + 148)) {
        return false;
    }
    if (s2 as u128) + 212 > (len as u128) {
        return true;
    }
    if !check_g1_block(slice_subrange(z, s2 + 148, s2 + 212)) {
        return false;
    }
    if (s2 as u128) + 340 > (len as u128) {
        return true;
    }
    if !check_g2_block(slice_subrange(z, s2 + 212, s2 + 340)) {
        return false;
    }
    if (s2 as u128) + 468 > (len as u128) {
        return true;
    }
    if !check_g2_block(slice_subrange(z, s2 + 340, s2 + 468)) {
        return false;
    }
    if (s2 as u128) + 532 > (len as u128) {
        return true;
    }
    if !check_g1_block(slice_subrange(z, s2 + 468, s2 + 532)) {
        return false;
    }
    if (s2 as u128) + 660 > (len as u128) {
        return true;
    }
    if !check_g2_block(slice_subrange(z, s2 + 532, s2 + 660)) {
        return false;
    }
    true
}

/// Check the framing of a proving-key buffer and every curve point the
/// parser would construct from it, mirroring the parser's own reads step
/// for step.
#[verifier::rlimit(100)]
pub fn check_zkey_structure(z: &[u8]) -> (ok: bool)
    ensures
        ok == (zkey_framing_ok(z@) && zkey_points_ok(z@)),
{
    let len = z.len();
    if len < 12 {
        return true;
    }
    let count = read_le4(z, 8);
    let mut pos: i128 = 12;
    let mut i: u32 = 0;
    let mut s2: usize = 0;
    let mut s3: usize = 0;
    let mut s4: usize = 0;
    let mut s5: usize = 0;
    let mut s6: usize = 0;
    let mut s7: usize = 0;
    let mut s8: usize = 0;
    let mut s9: usize = 0;
    let mut seen2: bool = false;
    let mut seen3: bool = false;
    let mut seen4: bool = false;
    let mut seen5: bool = false;
    let mut seen6: bool = false;
    let mut seen7: bool = false;
    let mut seen8: bool = false;
    let mut seen9: bool = false;
    let ghost mut acc: Seq<(u32, int)> = Seq::empty();
    proof {
        assert(acc.add(Seq::empty()) =~= acc);
    }
    while i < count
        invariant
            len == z@.len(),
            len >= 12,
            i <= count,
            0 <= pos <= len + 0x1_0000_0000_0000_0000i128,
            zkey_table(z@) == table_join(acc, table_entries(z@, pos as int, (count - i) as nat)),
            seen2 == (first_payload_pos(acc, 2u32) is Some),
            seen3 == (first_payload_pos(acc, 3u32) is Some),
            seen4 == (first_payload_pos(acc, 4u32) is Some),
            seen5 == (first_payload_pos(acc, 5u32) is Some),
            seen6 == (first_payload_pos(acc, 6u32) is Some),
            seen7 == (first_payload_pos(acc, 7u32) is Some),
            seen8 == (first_payload_pos(acc, 8u32) is Some),
            seen9 == (first_payload_pos(acc, 9u32) is Some),
            seen2 ==> first_payload_pos(acc, 2u32) == Option::Some(s2 as int),
            seen3 ==> first_payload_pos(acc, 3u32) == Option::Some(s3 as int),
            seen4 ==> first_payload_pos(acc, 4u32) == Option::Some(s4 as int),
            seen5 ==> first_payload_pos(acc, 5u32) == Option::Some(s5 as int),
            seen6 ==> first_payload_pos(acc, 6u32) == Option::Some(s6 as int),
            seen7 ==> first_payload_pos(acc, 7u32) == Option::Some(s7 as int),
            seen8 ==> first_payload_pos(acc, 8u32) == Option::Some(s8 as int),
            seen9 ==> first_payload_pos(acc, 9u32) == Option::Some(s9 as int),
            s2 <= len,
            s3 <= len,
            s4 <= len,
            s5 <= len,
            s6 <= len,
            s7 <= len,
            s8 <= len,
            s9 <= len,
        decreases count - i,
    {
        if pos > (len as i128) - 12 {
            // the parser's next section-header read fails: clean error
            return true;
        }
        let p = pos as usize;
        let id = read_le4(z, p);
        let lo = read_le4(z, p + 4);
        let hi = read_le4(z, p + 8);
        let slen: u64 = (lo as u64) + 0x1_0000_0000u64 * (hi as u64);
        let delta: i128 = if slen >= 0x8000_0000_0000_0000u64 {
            (slen as i128) - 0x1_0000_0000_0000_0000i128
        } else {
            slen as i128
        };
        let next: i128 = pos + 12 + delta;
        proof {
            assert(z@.subrange(p as int, p + 4) =~= z@.subrange(pos as int, pos as int + 4));
            assert(z@.subrange(p + 4, p + 8) =~= z@.subrange(pos as int + 4, pos as int + 8));
            assert(z@.subrange(p + 8, p + 12) =~= z@.subrange(pos as int + 8, pos as int + 12));
            assert(delta == section_seek(z@, pos as int));
        }
        if next < 0 {
            // the parser's seek goes before the start: clean error
            return true;
        }
        let ghost e = (id, pos as int + 12);
        proof {
            let n = (count - i) as nat;
            assert(table_entries(z@, pos as int, n) == (match table_entries(
                z@,
                next as int,
                (n - 1) as nat,
            ) {
                Option::None => Option::<Seq<(u32, int)>>::None,
                Option::Some(rest) => Option::Some(seq![e].add(rest)),
            }));
            if table_entries(z@, next as int, (n - 1) as nat) is Some {
                let rest = table_entries(z@, next as int, (n - 1) as nat)->Some_0;
                assert(acc.add(seq![e].add(rest)) =~= acc.push(e).add(rest));
            }
            lemma_first_pos_push(acc, e, 2u32);
            lemma_first_pos_push(acc, e, 3u32);
            lemma_first_pos_push(acc, e, 4u32);
            lemma_first_pos_push(acc, e, 5u32);
            lemma_first_pos_push(acc, e, 6u32);
            lemma_first_pos_push(acc, e, 7u32);
            lemma_first_pos_push(acc, e, 8u32);
            lemma_first_pos_push(acc, e, 9u32);
            acc = acc.push(e);
        }
        if !seen2 && id == 2 {
            seen2 = true;
            s2 = p + 12;
        }
        if !seen3 && id == 3 {
            seen3 = true;
            s3 = p + 12;
        }
        if !seen4 && id == 4 {
            seen4 = true;
            s4 = p + 12;
        }
        if !seen5 && id == 5 {
            seen5 = true;
            s5 = p + 12;
        }
        if !seen6 && id == 6 {
            seen6 = true;
            s6 = p + 12;
        }
        if !seen7 && id == 7 {
            seen7 = true;
            s7 = p + 12;
        }
        if !seen8 && id == 8 {
            seen8 = true;
            s8 = p + 12;
        }
        if !seen9 && id == 9 {
            seen9 = true;
            s9 = p + 12;
        }
        pos = next;
        i = i + 1;
    }
    proof {
        assert(table_entries(z@, pos as int, 0) == Option::Some(Seq::<(u32, int)>::empty()));
        assert(acc.add(Seq::empty()) =~= acc);
        assert(zkey_table(z@) == Option::Some(acc));
    }
    if !(seen2 && seen3 && seen4 && seen5 && seen6 && seen7 && seen8 && seen9) {
        proof {
            assert(!zkey_framing_ok(z@)) by {
                if !seen2 {
                    assert(!(first_payload_pos(acc, 2u32) is Some));
                } else if !seen3 {
                    assert(!(first_payload_pos(acc, 3u32) is Some));
                } else if !seen4 {
                    assert(!(first_payload_pos(acc, 4u32) is Some));
                } else if !seen5 {
                    assert(!(first_payload_pos(acc, 5u32) is Some));
                } else if !seen6 {
                    assert(!(first_payload_pos(acc, 6u32) is Some));
                } else if !seen7 {
                    assert(!(first_payload_pos(acc, 7u32) is Some));
                } else if !seen8 {
                    assert(!(first_payload_pos(acc, 8u32) is Some));
                } else {
                    assert(!(first_payload_pos(acc, 9u32) is Some));
                }
            }
        }
        return false;
    }
    proof {
        assert forall|id: u32| 2 <= id <= 9 implies #[trigger] first_payload_pos(acc, id)
            is Some by {
            if id == 2 {
            } else if id == 3 {
            } else if id == 4 {
            } else if id == 5 {
            } else if id == 6 {
            } else if id == 7 {
            } else if id == 8 {
            } else {
                assert(id == 9);
            }
        }
        assert(zkey_section_pos(z@, 2) == s2 as int);
        assert(zkey_section_pos(z@, 3) == s3 as int);
        assert(zkey_section_pos(z@, 4) == s4 as int);
        assert(zkey_section_pos(z@, 5) == s5 as int);
        assert(zkey_section_pos(z@, 6) == s6 as int);
        assert(zkey_section_pos(z@, 7) == s7 as int);
        assert(zkey_section_pos(z@, 8) == s8 as int);
        assert(zkey_section_pos(z@, 9) == s9 as int);
    }
    if (s2 as u128) + 84 > (len as u128) {
        proof {
            assert(zkey_framing_ok(z@));
        }
        return true;
    }
    let n_vars = read_le4(z, s2 + 72);
    let n_public = read_le4(z, s2 + 76);
    let domain = read_le4(z, s2 + 80);
    proof {
        assert(n_vars == zkey_n_vars(z@));
        assert(n_public == zkey_n_public(z@));
        assert(domain == zkey_domain_size(z@));
    }
    if n_public >= n_vars {
        proof {
            assert(!(zkey_n_public(z@) + 1 <= zkey_n_vars(z@)));
            assert(!zkey_framing_ok(z@));
        }
        return false;
    }
    // every curve point the parser would construct, section by section
    // in its reading order
    if !check_header_points(z, s2) {
        return false;
    }
    if !check_g1_vec(z, s3, n_public + 1) {
        return false;
    }
    if !check_g1_vec(z, s5, n_vars) {
        return false;
    }
    if !check_g1_vec(z, s6, n_vars) {
        return false;
    }
    if !check_g2_vec(z, s7, n_vars) {
        return false;
    }
    if !check_g1_vec(z, s8, n_vars - n_public - 1) {
        return false;
    }
    if !check_g1_vec(z, s9, domain) {
        return false;
    }
    proof {
        assert(zkey_points_ok(z@));
    }
    if (s4 as u128) + 4 > (len as u128) {
        proof {
            assert(zkey_coeffs_ok(z@, n_public as nat, domain as nat, n_vars as nat));
            assert(zkey_framing_ok(z@));
        }
        return true;
    }
    let n_records = read_le4(z, s4);
    proof {
        // from here on the verdict is exactly the record walk's
        assert(zkey_framing_ok(z@) == records_ok(
            z@,
            s4 + 4,
            n_records as nat,
            n_public as nat,
            domain as nat,
            n_vars as nat,
            0,
        ));
    }
    let mut rpos: usize = s4 + 4;
    let mut k: u32 = 0;
    let mut max_row: u32 = 0;
    while k < n_records
        invariant
            len == z@.len(),
            k <= n_records,
            rpos <= len,
            zkey_points_ok(z@),
            zkey_framing_ok(z@) == records_ok(
                z@,
                rpos as int,
                (n_records - k) as nat,
                n_public as nat,
                domain as nat,
                n_vars as nat,
                max_row as nat,
            ),
        decreases n_records - k,
    {
        if (rpos as u128) + 44 > (len as u128) {
            // the parser's next record read fails: clean error
            return true;
        }
        let m = read_le4(z, rpos);
        let row = read_le4(z, rpos + 4);
        let signal = read_le4(z, rpos + 8);
        if !(m <= 1 && row < domain && signal < n_vars) {
            return false;
        }
        if row > max_row {
            max_row = row;
        }
        rpos = rpos + 44;
        k = k + 1;
    }
    max_row >= n_public
}

} // verus!
