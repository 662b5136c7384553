//! Which byte strings the host accepts as BN254 points: the encodings of the
//! elliptic-curve pairing operations (big-endian coordinates, the point at
//! infinity as all zero bytes, G2 points on the curve and in the group of
//! prime order).
use vstd::prelude::*;
use vstd::arithmetic::power::pow;

verus! {

/// The base field modulus.
pub open spec fn field_p() -> int {
    21888242871839275222246405745257275088696311157297823662689037894645226208583int
}

/// The order of the point groups.
pub open spec fn group_order() -> nat {
    21888242871839275222246405745257275088548364400416034343698204186575808495617nat
}

/// The big-endian value of a byte string.
pub open spec fn be_value(s: Seq<u8>) -> int
    decreases s.len(),
{
    if s.len() == 0 { 0 } else { be_value(s.drop_last()) * 256 + s.last() as int }
}

/// The 32-byte big-endian number at byte `at`.
pub open spec fn coord(s: Seq<u8>, at: int) -> int {
    be_value(s.subrange(at, at + 32))
}

pub open spec fn fp(a: int) -> int {
    a % field_p()
}

/// The inverse of a non-zero field element.
pub open spec fn fp_inv(a: int) -> int {
    fp(pow(fp(a), (field_p() - 2) as nat))
}

/// An element of the quadratic extension, `c0 + c1 * u` with `u * u = -1`.
pub struct Fp2 {
    pub c0: int,
    pub c1: int,
}

pub open spec fn fp2(c0: int, c1: int) -> Fp2 {
    Fp2 { c0: fp(c0), c1: fp(c1) }
}

pub open spec fn fp2_add(a: Fp2, b: Fp2) -> Fp2 {
    fp2(a.c0 + b.c0, a.c1 + b.c1)
}

pub open spec fn fp2_sub(a: Fp2, b: Fp2) -> Fp2 {
    fp2(a.c0 - b.c0, a.c1 - b.c1)
}

pub open spec fn fp2_mul(a: Fp2, b: Fp2) -> Fp2 {
    fp2(a.c0 * b.c0 - a.c1 * b.c1, a.c0 * b.c1 + a.c1 * b.c0)
}

pub open spec fn fp2_inv(a: Fp2) -> Fp2 {
    let n = fp_inv(a.c0 * a.c0 + a.c1 * a.c1);
    fp2(a.c0 * n, -a.c1 * n)
}

/// The constant of the G2 curve equation, 3 / (9 + u).
pub open spec fn twist_b() -> Fp2 {
    Fp2 {
        c0: 19485874751759354771024239261021720505790618469301721065564631296452457478373int,
        c1: 266929791119991161246907387137283842545076965332900288569378510910307636690int,
    }
}

/// A point of G2 in affine coordinates, or the point at infinity.
pub enum G2Pt {
    Infinity,
    Affine(Fp2, Fp2),
}

/// The group law on the G2 curve.
pub open spec fn g2_add(p: G2Pt, q: G2Pt) -> G2Pt {
    match (p, q) {
        (G2Pt::Infinity, _) => q,
        (_, G2Pt::Infinity) => p,
        (G2Pt::Affine(x1, y1), G2Pt::Affine(x2, y2)) => {
            if x1 == x2 && fp2_add(y1, y2) == fp2(0, 0) {
                G2Pt::Infinity
            } else {
                let l = if x1 == x2 {
                    fp2_mul(fp2_mul(fp2(3, 0), fp2_mul(x1, x1)), fp2_inv(fp2_add(y1, y1)))
                } else {
                    fp2_mul(fp2_sub(y2, y1), fp2_inv(fp2_sub(x2, x1)))
                };
                let x3 = fp2_sub(fp2_sub(fp2_mul(l, l), x1), x2);
                G2Pt::Affine(x3, fp2_sub(fp2_mul(l, fp2_sub(x1, x3)), y1))
            }
        },
    }
}

/// `k` times the point.
pub open spec fn g2_mul(p: G2Pt, k: nat) -> G2Pt
    decreases k,
{
    if k == 0 { G2Pt::Infinity } else { g2_add(g2_mul(p, (k - 1) as nat), p) }
}

/// A 64-byte G1 encoding the host accepts: all zero (infinity), or two
/// coordinates below the modulus with y^2 = x^3 + 3.
pub open spec fn g1_point_ok(s: Seq<u8>) -> bool {
    s.len() == 64 && (s == Seq::new(64, |i: int| 0u8) || {
        let x = coord(s, 0);
        let y = coord(s, 32);
        &&& x < field_p()
        &&& y < field_p()
        &&& fp(y * y) == fp(x * x * x + 3)
    })
}

/// A 128-byte G2 encoding the host accepts: all zero (infinity), or two
/// extension elements (each `c1 || c0`) with coordinates below the modulus,
/// on the curve y^2 = x^3 + 3 / (9 + u), of the group's order.
pub open spec fn g2_point_ok(s: Seq<u8>) -> bool {
    s.len() == 128 && (s == Seq::new(128, |i: int| 0u8) || {
        let x = Fp2 { c0: coord(s, 32), c1: coord(s, 0) };
        let y = Fp2 { c0: coord(s, 96), c1: coord(s, 64) };
        &&& x.c0 < field_p() && x.c1 < field_p()
        &&& y.c0 < field_p() && y.c1 < field_p()
        &&& fp2_mul(y, y) == fp2_add(fp2_mul(fp2_mul(x, x), x), twist_b())
        &&& g2_mul(G2Pt::Affine(x, y), group_order()) == G2Pt::Infinity
    })
}

} // verus!
