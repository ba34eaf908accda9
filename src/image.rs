//! Program images: big-endian 32-bit words packed into bytes.
use vstd::prelude::*;
use crate::fault::Fault;

verus! {

/// The big-endian word whose bytes are `b0` (most significant) to `b3`.
pub open spec fn be_word(b0: u8, b1: u8, b2: u8, b3: u8) -> u32 {
    (b0 as int * 0x100_0000 + b1 as int * 0x1_0000 + b2 as int * 0x100 + b3 as int) as u32
}

/// The words of an image whose length is a multiple of four.
pub open spec fn image_words(bytes: Seq<u8>) -> Seq<u32> {
    Seq::new(
        bytes.len() / 4,
        |i: int| be_word(bytes[4 * i], bytes[4 * i + 1], bytes[4 * i + 2], bytes[4 * i + 3]),
    )
}

/// Relies on `bytes::Buf::get_u32` for `&[u8]`: it reads the first four
/// remaining bytes as a big-endian `u32` (it panics on fewer than four, which
/// `requires` rules out).
#[verifier::external_body]
fn get_be_u32(b: &[u8], at: usize) -> (r: u32)
    requires
        at + 4 <= b@.len(),
    ensures
        r == be_word(b@[at as int], b@[at + 1], b@[at + 2], b@[at + 3]),
{
    let mut rest: &[u8] = &b[at..];
    bytes::Buf::get_u32(&mut rest)
}

/// Splits a program image into its big-endian words. An image whose length is
/// not a multiple of four is malformed.
pub fn decode_image(bytes: &[u8]) -> (r: Result<Vec<u32>, Fault>)
    ensures
        bytes@.len() % 4 != 0 ==> r == Err::<Vec<u32>, Fault>(Fault::MalformedImage),
        bytes@.len() % 4 == 0 ==> r is Ok && r->Ok_0@ == image_words(bytes@),
{
    let n = bytes.len();
    if n % 4 != 0 {
        return Err(Fault::MalformedImage);
    }
    let mut words: Vec<u32> = Vec::new();
    let mut i: usize = 0;
    while i < n / 4
        invariant
            n == bytes@.len(),
            n % 4 == 0,
            i <= n / 4,
            words@ =~= image_words(bytes@).subrange(0, i as int),
        decreases n / 4 - i,
    {
        let w = get_be_u32(bytes, 4 * i);
        words.push(w);
        i = i + 1;
    }
    assert(words@ =~= image_words(bytes@));
    Ok(words)
}

} // verus!
