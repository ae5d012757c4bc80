//! The proof export layout.
//!
//! A Groth16 proof is a triple `(A, B, C)` with `A, C` in G1 and `B` in
//! G2.  Ethereum's alt_bn128 precompile ABI wants the eight coordinates
//! as decimal strings in a fixed order, with the two components of each
//! Fq2 coordinate of `B` swapped: `A.x, A.y, B.x[1], B.x[0], B.y[1],
//! B.y[0], C.x, C.y`.  That swap is a compatibility invariant and is
//! pinned down here.

use vstd::prelude::*;

verus! {

/// A well-formed unsigned decimal numeral: at least one digit, only
/// digits, and no leading zero unless the numeral is the single "0".
pub open spec fn dec_str_wf(s: Seq<char>) -> bool {
    &&& s.len() >= 1
    &&& forall|i: int| 0 <= i < s.len() ==> '0' <= #[trigger] s[i] <= '9'
    &&& (s.len() > 1 ==> s[0] != '0')
}

/// The eight affine coordinates of a proof, already rendered as decimal
/// strings.  `b_x_c0` is the first Fq2 component of `B.x`, `b_x_c1` the
/// second, and likewise for `B.y`.
pub struct ProofCoords {
    pub a_x: String,
    pub a_y: String,
    pub b_x_c0: String,
    pub b_x_c1: String,
    pub b_y_c0: String,
    pub b_y_c1: String,
    pub c_x: String,
    pub c_y: String,
}

impl ProofCoords {
    /// All eight coordinate strings are well-formed decimal numerals.
    pub open spec fn wf(&self) -> bool {
        &&& dec_str_wf(self.a_x@)
        &&& dec_str_wf(self.a_y@)
        &&& dec_str_wf(self.b_x_c0@)
        &&& dec_str_wf(self.b_x_c1@)
        &&& dec_str_wf(self.b_y_c0@)
        &&& dec_str_wf(self.b_y_c1@)
        &&& dec_str_wf(self.c_x@)
        &&& dec_str_wf(self.c_y@)
    }
}

/// The export order: `A.x, A.y, B.x[1], B.x[0], B.y[1], B.y[0], C.x,
/// C.y`.  The second Fq2 component of each `B` coordinate comes first.
pub open spec fn export_order(p: &ProofCoords) -> Seq<Seq<char>> {
    seq![
        p.a_x@,
        p.a_y@,
        p.b_x_c1@,
        p.b_x_c0@,
        p.b_y_c1@,
        p.b_y_c0@,
        p.c_x@,
        p.c_y@,
    ]
}

/// Lay the eight coordinates out in the export order.
pub fn export_strings(p: ProofCoords) -> (v: Vec<String>)
    ensures
        v@.len() == 8,
        forall|i: int| 0 <= i < 8 ==> (#[trigger] v@[i])@ == export_order(&p)[i],
{
    let ProofCoords { a_x, a_y, b_x_c0, b_x_c1, b_y_c0, b_y_c1, c_x, c_y } = p;
    let mut v: Vec<String> = Vec::new();
    v.push(a_x);
    v.push(a_y);
    v.push(b_x_c1);
    v.push(b_x_c0);
    v.push(b_y_c1);
    v.push(b_y_c0);
    v.push(c_x);
    v.push(c_y);
    v
}

} // verus!
