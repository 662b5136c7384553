//! The XDR bytes of a Groth16 verification key and of a Groth16 proof, as
//! the host writes them for the contract types: a map value whose symbol
//! keys come in sorted order, each point a one-entry map `{bytes: <bytes>}`,
//! the key's input points a vector of such maps. Every part of these
//! encodings has a fixed place, so the bytes of each point can be read at
//! known offsets.
use vstd::prelude::*;
use crate::common::{be_u32_at, read_be_u32};

verus! {

/// `pat` stands in `s` from byte `at` on.
pub open spec fn bytes_at(s: Seq<u8>, at: int, pat: Seq<u8>) -> bool {
    0 <= at && at + pat.len() <= s.len() && s.subrange(at, at + pat.len()) == pat
}

/// A map value with `n` entries.
pub open spec fn map_head(n: u8) -> Seq<u8> {
    seq![0u8, 0, 0, 17, 0, 0, 0, 1, 0, 0, 0, n]
}

/// A vector value; its length follows.
pub open spec fn vec_head() -> Seq<u8> {
    seq![0u8, 0, 0, 16, 0, 0, 0, 1]
}

/// The symbols of the field names, padded to four bytes.
pub open spec fn sym_alpha() -> Seq<u8> {
    seq![0u8, 0, 0, 15, 0, 0, 0, 5, 97, 108, 112, 104, 97, 0, 0, 0]
}

pub open spec fn sym_beta() -> Seq<u8> {
    seq![0u8, 0, 0, 15, 0, 0, 0, 4, 98, 101, 116, 97]
}

pub open spec fn sym_delta() -> Seq<u8> {
    seq![0u8, 0, 0, 15, 0, 0, 0, 5, 100, 101, 108, 116, 97, 0, 0, 0]
}

pub open spec fn sym_gamma() -> Seq<u8> {
    seq![0u8, 0, 0, 15, 0, 0, 0, 5, 103, 97, 109, 109, 97, 0, 0, 0]
}

pub open spec fn sym_ic() -> Seq<u8> {
    seq![0u8, 0, 0, 15, 0, 0, 0, 2, 105, 99, 0, 0]
}

/// The one-letter symbol `letter`.
pub open spec fn sym_letter(letter: u8) -> Seq<u8> {
    seq![0u8, 0, 0, 15, 0, 0, 0, 1, letter, 0, 0, 0]
}

/// What precedes the `n` bytes of a point: a one-entry map whose key is the
/// symbol `bytes` and whose value is a byte string of length `n`.
pub open spec fn point_head(n: u8) -> Seq<u8> {
    seq![0u8, 0, 0, 17, 0, 0, 0, 1, 0, 0, 0, 1, 0, 0, 0, 15, 0, 0, 0, 5, 98, 121, 116, 101, 115, 0, 0, 0, 0, 0, 0, 13, 0, 0, 0, n]
}

/// The number of input points a key's bytes announce.
pub open spec fn key_ic_count(s: Seq<u8>) -> int {
    be_u32_at(s, 684) as int
}

/// The bytes are a verification key: alpha (G1) at 64, beta, delta and
/// gamma (G2) at 176, 356 and 536, then the input points (G1), one every
/// 100 bytes from 724.
pub open spec fn key_layout_ok(s: Seq<u8>) -> bool {
    &&& s.len() >= 688
    &&& bytes_at(s, 0, map_head(5))
    &&& bytes_at(s, 12, sym_alpha()) && bytes_at(s, 28, point_head(64))
    &&& bytes_at(s, 128, sym_beta()) && bytes_at(s, 140, point_head(128))
    &&& bytes_at(s, 304, sym_delta()) && bytes_at(s, 320, point_head(128))
    &&& bytes_at(s, 484, sym_gamma()) && bytes_at(s, 500, point_head(128))
    &&& bytes_at(s, 664, sym_ic()) && bytes_at(s, 676, vec_head())
    &&& s.len() == 688 + 100 * key_ic_count(s)
    &&& forall|i: int| 0 <= i < key_ic_count(s) ==> #[trigger] bytes_at(s, 688 + 100 * i, point_head(64))
}

pub open spec fn key_alpha(s: Seq<u8>) -> Seq<u8> {
    s.subrange(64, 128)
}

pub open spec fn key_beta(s: Seq<u8>) -> Seq<u8> {
    s.subrange(176, 304)
}

pub open spec fn key_delta(s: Seq<u8>) -> Seq<u8> {
    s.subrange(356, 484)
}

pub open spec fn key_gamma(s: Seq<u8>) -> Seq<u8> {
    s.subrange(536, 664)
}

/// Input point `i` of a key.
pub open spec fn key_ic(s: Seq<u8>, i: int) -> Seq<u8> {
    s.subrange(724 + 100 * i, 788 + 100 * i)
}

/// The input points of a key.
pub open spec fn key_ics(s: Seq<u8>) -> Seq<Seq<u8>> {
    Seq::new(key_ic_count(s) as nat, |i: int| key_ic(s, i))
}

/// The bytes are a proof: A (G1) at 60, B (G2) at 172, C (G1) at 348, 412
/// bytes in all.
pub open spec fn proof_layout_ok(s: Seq<u8>) -> bool {
    &&& s.len() == 412
    &&& bytes_at(s, 0, map_head(3))
    &&& bytes_at(s, 12, sym_letter(97)) && bytes_at(s, 24, point_head(64))
    &&& bytes_at(s, 124, sym_letter(98)) && bytes_at(s, 136, point_head(128))
    &&& bytes_at(s, 300, sym_letter(99)) && bytes_at(s, 312, point_head(64))
}

pub open spec fn proof_a(s: Seq<u8>) -> Seq<u8> {
    s.subrange(60, 124)
}

pub open spec fn proof_b(s: Seq<u8>) -> Seq<u8> {
    s.subrange(172, 300)
}

pub open spec fn proof_c(s: Seq<u8>) -> Seq<u8> {
    s.subrange(348, 412)
}

/// Whether `pat` stands in `s` from byte `at` on.
fn has_at(s: &Vec<u8>, at: usize, pat: &[u8]) -> (r: bool)
    ensures
        r == bytes_at(s@, at as int, pat@),
{
    if at > s.len() || pat.len() > s.len() - at {
        return false;
    }
    let mut i: usize = 0;
    while i < pat.len()
        invariant
            0 <= i <= pat.len(),
            at + pat.len() <= s.len(),
            forall|j: int| 0 <= j < i ==> s@[at + j] == pat@[j],
        decreases pat.len() - i,
    {
        if s[at + i] != pat[i] {
            assert(s@.subrange(at as int, at + pat.len())[i as int] != pat@[i as int]);
            return false;
        }
        i += 1;
    }
    assert(s@.subrange(at as int, at + pat.len()) =~= pat@);
    true
}

fn map_head_bytes(n: u8) -> (r: [u8; 12])
    ensures
        r@ == map_head(n),
{
    let r = [0u8, 0, 0, 17, 0, 0, 0, 1, 0, 0, 0, n];
    assert(r@ =~= map_head(n));
    r
}

fn point_head_bytes(n: u8) -> (r: [u8; 36])
    ensures
        r@ == point_head(n),
{
    let r = [0u8, 0, 0, 17, 0, 0, 0, 1, 0, 0, 0, 1, 0, 0, 0, 15, 0, 0, 0, 5, 98, 121, 116, 101, 115, 0, 0, 0, 0, 0, 0, 13, 0, 0, 0, n];
    assert(r@ =~= point_head(n));
    r
}

fn sym_letter_bytes(letter: u8) -> (r: [u8; 12])
    ensures
        r@ == sym_letter(letter),
{
    let r = [0u8, 0, 0, 15, 0, 0, 0, 1, letter, 0, 0, 0];
    assert(r@ =~= sym_letter(letter));
    r
}

/// Whether the bytes are a verification key laid out as the host writes it.
pub fn key_layout(s: &Vec<u8>) -> (r: bool)
    ensures
        r == key_layout_ok(s@),
{
    if s.len() < 688 {
        return false;
    }
    let alpha = [0u8, 0, 0, 15, 0, 0, 0, 5, 97, 108, 112, 104, 97, 0, 0, 0];
    let beta = [0u8, 0, 0, 15, 0, 0, 0, 4, 98, 101, 116, 97];
    let delta = [0u8, 0, 0, 15, 0, 0, 0, 5, 100, 101, 108, 116, 97, 0, 0, 0];
    let gamma = [0u8, 0, 0, 15, 0, 0, 0, 5, 103, 97, 109, 109, 97, 0, 0, 0];
    let ic = [0u8, 0, 0, 15, 0, 0, 0, 2, 105, 99, 0, 0];
    let vh = [0u8, 0, 0, 16, 0, 0, 0, 1];
    assert(alpha@ =~= sym_alpha());
    assert(beta@ =~= sym_beta());
    assert(delta@ =~= sym_delta());
    assert(gamma@ =~= sym_gamma());
    assert(ic@ =~= sym_ic());
    assert(vh@ =~= vec_head());
    let g1 = point_head_bytes(64);
    let g2 = point_head_bytes(128);
    if !(has_at(s, 0, &map_head_bytes(5))
        && has_at(s, 12, &alpha) && has_at(s, 28, &g1)
        && has_at(s, 128, &beta) && has_at(s, 140, &g2)
        && has_at(s, 304, &delta) && has_at(s, 320, &g2)
        && has_at(s, 484, &gamma) && has_at(s, 500, &g2)
        && has_at(s, 664, &ic) && has_at(s, 676, &vh)) {
        return false;
    }
    let n = read_be_u32(s, 684) as u64;
    if s.len() as u64 != 688 + 100 * n {
        return false;
    }
    let mut i: u64 = 0;
    let mut at: usize = 688;
    while i < n
        invariant
            0 <= i <= n,
            n == key_ic_count(s@),
            s.len() == 688 + 100 * n,
            at == 688 + 100 * i,
            g1@ == point_head(64),
            forall|j: int| 0 <= j < i ==> #[trigger] bytes_at(s@, 688 + 100 * j, point_head(64)),
        decreases n - i,
    {
        if !has_at(s, at, &g1) {
            assert(!bytes_at(s@, 688 + 100 * (i as int), point_head(64)));
            return false;
        }
        at = at + 100;
        i = i + 1;
    }
    true
}

/// Whether the bytes are a proof laid out as the host writes it.
pub fn proof_layout(s: &Vec<u8>) -> (r: bool)
    ensures
        r == proof_layout_ok(s@),
{
    if s.len() != 412 {
        return false;
    }
    has_at(s, 0, &map_head_bytes(3))
        && has_at(s, 12, &sym_letter_bytes(97)) && has_at(s, 24, &point_head_bytes(64))
        && has_at(s, 124, &sym_letter_bytes(98)) && has_at(s, 136, &point_head_bytes(128))
        && has_at(s, 300, &sym_letter_bytes(99)) && has_at(s, 312, &point_head_bytes(64))
}

} // verus!
