use vstd::prelude::*;
use rand::{Rng, RngCore};

verus! {

/// Byte `i` of the fixed fill pattern `DE AD BE EF DE AD ...`.
pub open spec fn pattern_byte(i: int) -> u8 {
    if i % 4 == 0 {
        0xDE
    } else if i % 4 == 1 {
        0xAD
    } else if i % 4 == 2 {
        0xBE
    } else {
        0xEF
    }
}

/// `b` holds the fixed pattern from its first byte on.
pub open spec fn is_pattern(b: Seq<u8>) -> bool {
    forall|i: int| 0 <= i < b.len() ==> #[trigger] b[i] == pattern_byte(i)
}

/// A buffer of `len` bytes holding the fixed pattern.
pub fn fill_pattern(len: usize) -> (r: Vec<u8>)
    ensures
        r@.len() == len,
        is_pattern(r@),
{
    let bytes: [u8; 4] = [0xDE, 0xAD, 0xBE, 0xEF];
    let mut r: Vec<u8> = Vec::with_capacity(len);
    let mut i: usize = 0;
    while i < len
        invariant
            i <= len,
            r@.len() == i,
            is_pattern(r@),
            bytes@ == seq![0xDEu8, 0xADu8, 0xBEu8, 0xEFu8],
        decreases len - i,
    {
        r.push(bytes[i % 4]);
        i = i + 1;
    }
    r
}

/// Relies on `rand::thread_rng` and `RngCore::fill_bytes`, which overwrites
/// the bytes of the slice it is given and nothing else.
#[verifier::external_body]
fn fill_random(buf: &mut Vec<u8>)
    ensures
        final(buf)@.len() == old(buf)@.len(),
{
    rand::thread_rng().fill_bytes(buf.as_mut_slice());
}

/// A buffer of `len` bytes of random content.
pub fn random_buffer(len: usize) -> (r: Vec<u8>)
    ensures
        r@.len() == len,
{
    let mut r: Vec<u8> = vec![0u8; len];
    fill_random(&mut r);
    r
}

/// The content written to a fresh test file: the fixed pattern when
/// `no_random_buffer` is set, random bytes otherwise.
pub fn file_content(len: usize, no_random_buffer: bool) -> (r: Vec<u8>)
    ensures
        r@.len() == len,
        no_random_buffer ==> is_pattern(r@),
{
    if no_random_buffer {
        fill_pattern(len)
    } else {
        random_buffer(len)
    }
}

/// Relies on `Rng::gen_range` over `rand::thread_rng`: a value of the
/// half-open range `0..bound`, which must not be empty.
#[verifier::external_body]
pub(crate) fn random_below(bound: u64) -> (r: u64)
    requires
        bound > 0,
    ensures
        r < bound,
{
    rand::thread_rng().gen_range(0..bound)
}

/// The pattern bytes are fixed by position alone: two pattern buffers of
/// one length are the same bytes, so a pattern buffer read back whole, or
/// any stretch of it from its start, is exactly the pattern buffer of that
/// length that was written.
pub proof fn lemma_pattern_round_trip(written: Seq<u8>, read: Seq<u8>, n: int)
    requires
        is_pattern(written),
        is_pattern(read),
        0 <= n <= written.len(),
        read.len() == n,
    ensures
        read == written.take(n),
{
    assert forall|i: int| 0 <= i < n implies #[trigger] read[i] == written.take(n)[i] by {
        assert(written.take(n)[i] == written[i]);
    }
    assert(read =~= written.take(n));
}

} // verus!
