//! Shared helpers: byte-string comparison and the hashing entry point of the
//! host environment.
use vstd::prelude::*;

verus! {

/// The host environment handle; it is only carried through to host calls.
#[verifier::external_type_specification]
#[verifier::external_body]
pub struct ExEnv(soroban_sdk::Env);

/// What SHA-256 yields on a byte string.
pub uninterp spec fn sha256_digest(data: Seq<u8>) -> Seq<u8>;

/// Calls `soroban_sdk::crypto::Crypto::sha256` through the environment.
/// Trusted claim: the result is the 32-byte SHA-256 digest of `data`, a
/// function of the bytes alone.
#[verifier::external_body]
pub(crate) fn sha256(env: &soroban_sdk::Env, data: &Vec<u8>) -> (r: Vec<u8>)
    ensures
        r@ == sha256_digest(data@),
        r@.len() == 32,
{
    let bytes = soroban_sdk::Bytes::from_slice(env, data.as_slice());
    env.crypto().sha256(&bytes).to_array().to_vec()
}

/// Returns true when two byte strings hold the same bytes.
pub fn bytes_equal(a: &Vec<u8>, b: &Vec<u8>) -> (r: bool)
    ensures
        r == (a@ == b@),
{
    if a.len() != b.len() {
        return false;
    }
    let mut i: usize = 0;
    while i < a.len()
        invariant
            0 <= i <= a.len(),
            a.len() == b.len(),
            forall|j: int| 0 <= j < i ==> a@[j] == b@[j],
        decreases a.len() - i,
    {
        if a[i] != b[i] {
            return false;
        }
        i += 1;
    }
    assert(a@ =~= b@);
    true
}

/// A copy of a byte string.
pub fn clone_bytes(v: &Vec<u8>) -> (r: Vec<u8>)
    ensures
        r@ == v@,
{
    let r = v.clone();
    assert(r@ =~= v@);
    r
}

/// Big-endian bytes of a `u32`.
pub open spec fn be_bytes_u32(v: u32) -> Seq<u8> {
    seq![
        ((v / 0x1000000) % 0x100) as u8,
        ((v / 0x10000) % 0x100) as u8,
        ((v / 0x100) % 0x100) as u8,
        (v % 0x100) as u8,
    ]
}

/// Appends the big-endian bytes of `v` to `out`.
pub fn push_be_u32(out: &mut Vec<u8>, v: u32)
    ensures
        final(out)@ == old(out)@ + be_bytes_u32(v),
{
    out.push((v / 0x1000000) as u8);
    out.push(((v / 0x10000) % 0x100) as u8);
    out.push(((v / 0x100) % 0x100) as u8);
    out.push((v % 0x100) as u8);
    assert(out@ =~= old(out)@ + be_bytes_u32(v));
}

/// The big-endian `u32` held by the four bytes at `off`.
pub open spec fn be_u32_at(s: Seq<u8>, off: int) -> u32 {
    (s[off] * 0x1000000 + s[off + 1] * 0x10000 + s[off + 2] * 0x100 + s[off + 3]) as u32
}

/// Big-endian bytes of an `i32` (its two's-complement bits).
pub open spec fn be_bytes_i32(v: i32) -> Seq<u8> {
    be_bytes_u32(v as u32)
}

/// The big-endian `i32` held by the four bytes at `off`.
pub open spec fn be_i32_at(s: Seq<u8>, off: int) -> i32 {
    be_u32_at(s, off) as i32
}

/// The big-endian words of a sequence, one after another.
pub open spec fn be_words(s: Seq<u32>) -> Seq<u8>
    decreases s.len(),
{
    if s.len() == 0 {
        Seq::empty()
    } else {
        be_words(s.drop_last()) + be_bytes_u32(s.last())
    }
}

/// Reading back the four bytes of a `u32` gives the `u32`, wherever they stand.
pub proof fn lemma_be_u32_roundtrip(pre: Seq<u8>, v: u32, post: Seq<u8>)
    ensures
        be_u32_at(pre + be_bytes_u32(v) + post, pre.len() as int) == v,
{
    let s = pre + be_bytes_u32(v) + post;
    let k = pre.len() as int;
    assert(s[k] == ((v / 0x1000000) % 0x100) as u8);
    assert(s[k + 1] == ((v / 0x10000) % 0x100) as u8);
    assert(s[k + 2] == ((v / 0x100) % 0x100) as u8);
    assert(s[k + 3] == (v % 0x100) as u8);
    assert(((v / 0x1000000) % 0x100) * 0x1000000 + ((v / 0x10000) % 0x100) * 0x10000
        + ((v / 0x100) % 0x100) * 0x100 + v % 0x100 == v) by (bit_vector);
}

/// Reading back the four bytes of an `i32` gives the `i32`, wherever they stand.
pub proof fn lemma_be_i32_roundtrip(pre: Seq<u8>, v: i32, post: Seq<u8>)
    ensures
        be_i32_at(pre + be_bytes_i32(v) + post, pre.len() as int) == v,
{
    lemma_be_u32_roundtrip(pre, v as u32, post);
    assert((v as u32) as i32 == v) by (bit_vector);
}

/// The words of a sequence take four bytes each, and word `i` reads back.
pub proof fn lemma_be_words(s: Seq<u32>)
    ensures
        be_words(s).len() == 4 * s.len(),
        forall|i: int| 0 <= i < s.len() ==> #[trigger] be_u32_at(be_words(s), 4 * i) == s[i],
    decreases s.len(),
{
    if s.len() > 0 {
        let t = s.drop_last();
        lemma_be_words(t);
        assert forall|i: int| 0 <= i < s.len() implies #[trigger] be_u32_at(be_words(s), 4 * i) == s[i] by {
            if i == s.len() - 1 {
                lemma_be_u32_roundtrip(be_words(t), s.last(), Seq::empty());
                assert(be_words(t) + be_bytes_u32(s.last()) + Seq::<u8>::empty() =~= be_words(s));
            } else {
                assert(be_u32_at(be_words(t), 4 * i) == t[i]);
                let w = be_words(s);
                assert(w[4 * i] == be_words(t)[4 * i]);
                assert(w[4 * i + 1] == be_words(t)[4 * i + 1]);
                assert(w[4 * i + 2] == be_words(t)[4 * i + 2]);
                assert(w[4 * i + 3] == be_words(t)[4 * i + 3]);
            }
        }
    }
}

/// The big-endian `u32` at `off`.
pub fn read_be_u32(data: &Vec<u8>, off: usize) -> (r: u32)
    requires
        off + 4 <= data.len(),
    ensures
        r == be_u32_at(data@, off as int),
{
    let b0 = data[off] as u32;
    let b1 = data[off + 1] as u32;
    let b2 = data[off + 2] as u32;
    let b3 = data[off + 3] as u32;
    b0 * 0x1000000 + b1 * 0x10000 + b2 * 0x100 + b3
}

/// The big-endian `i32` at `off`.
pub fn read_be_i32(data: &Vec<u8>, off: usize) -> (r: i32)
    requires
        off + 4 <= data.len(),
    ensures
        r == be_i32_at(data@, off as int),
{
    read_be_u32(data, off) as i32
}

/// Appends the big-endian bytes of `v` to `out`.
pub fn push_be_i32(out: &mut Vec<u8>, v: i32)
    ensures
        final(out)@ == old(out)@ + be_bytes_i32(v),
{
    push_be_u32(out, v as u32);
}

/// Number of non-zero entries.
pub open spec fn count_nonzero(s: Seq<u32>) -> nat
    decreases s.len(),
{
    if s.len() == 0 {
        0
    } else {
        count_nonzero(s.drop_last()) + (if s.last() != 0 { 1nat } else { 0nat })
    }
}

/// Writing one entry changes the count by what that entry contributes.
pub proof fn lemma_count_nonzero_update(s: Seq<u32>, i: int, v: u32)
    requires
        0 <= i < s.len(),
    ensures
        count_nonzero(s.update(i, v)) + (if s[i] != 0 { 1int } else { 0int })
            == count_nonzero(s) + (if v != 0 { 1int } else { 0int }),
    decreases s.len(),
{
    let t = s.update(i, v);
    if i == s.len() - 1 {
        assert(t.drop_last() =~= s.drop_last());
    } else {
        assert(t.drop_last() =~= s.drop_last().update(i, v));
        lemma_count_nonzero_update(s.drop_last(), i, v);
    }
}

/// The count never exceeds the length.
pub proof fn lemma_count_nonzero_le_len(s: Seq<u32>)
    ensures
        count_nonzero(s) <= s.len(),
    decreases s.len(),
{
    if s.len() > 0 {
        lemma_count_nonzero_le_len(s.drop_last());
    }
}

/// A sequence of zeros counts nothing.
pub proof fn lemma_count_nonzero_zeros(n: nat)
    ensures
        count_nonzero(Seq::new(n, |i: int| 0u32)) == 0,
    decreases n,
{
    if n > 0 {
        assert(Seq::new(n, |i: int| 0u32).drop_last() =~= Seq::new((n - 1) as nat, |i: int| 0u32));
        lemma_count_nonzero_zeros((n - 1) as nat);
    }
}

} // verus!
