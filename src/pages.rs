//! Page summaries of a compiled document: each page's number and the hash
//! of its frame, in hexadecimal.
use vstd::prelude::*;

verus! {

/// The 16 bytes of SipHash 2-4 (keys 0, 0) of a byte sequence.
pub uninterp spec fn sip24_bytes(b: Seq<u8>) -> Seq<u8>;

/// Relies on siphasher's `SipHasher::new().hash(..).as_bytes()`: 16 bytes
/// that depend on the input alone.
#[verifier::external_body]
fn frame_hash(b: &[u8]) -> (r: Vec<u8>)
    ensures
        r@ == sip24_bytes(b@),
        r@.len() == 16,
{
    siphasher::sip128::SipHasher::new().hash(b).as_bytes().to_vec()
}

/// The lowercase hexadecimal digit of `n < 16`.
pub open spec fn hex_digit(n: u8) -> char {
    if n < 10 {
        ((n + 48) as u8) as char
    } else {
        ((n + 87) as u8) as char
    }
}

/// Two lowercase hexadecimal digits per byte, high nibble first.
pub open spec fn hex_text(b: Seq<u8>) -> Seq<char>
    decreases b.len(),
{
    if b.len() == 0 {
        Seq::empty()
    } else {
        hex_text(b.drop_last()) + seq![hex_digit(b.last() / 16), hex_digit(b.last() % 16)]
    }
}

/// Relies on `hex::encode`: two lowercase digits per byte, high nibble first.
#[verifier::external_body]
fn to_hex(b: &[u8]) -> (r: String)
    ensures
        r@ == hex_text(b@),
{
    hex::encode(b)
}

/// A page of a compiled document.
pub struct PageSummary {
    /// The page number, from 1.
    pub num: u32,
    /// The hash of the page's frame, in hexadecimal.
    pub hash: String,
}

/// The hash of a frame, given its hash bytes, in hexadecimal.
pub fn hash_text(hash: &[u8]) -> (r: String)
    ensures
        r@ == hex_text(hash@),
{
    to_hex(hash)
}

/// The hash of a page's frame (its bytes), in hexadecimal.
pub fn page_hash(frame: &[u8]) -> (r: String)
    ensures
        r@ == hex_text(sip24_bytes(frame@)),
        r@.len() == 32,
{
    let h = frame_hash(frame);
    proof {
        lemma_hex_len(h@);
    }
    hash_text(h.as_slice())
}

proof fn lemma_hex_len(b: Seq<u8>)
    ensures
        hex_text(b).len() == 2 * b.len(),
    decreases b.len(),
{
    if b.len() > 0 {
        lemma_hex_len(b.drop_last());
    }
}

/// The pages of a document whose frames are `frames`: numbered from 1, each
/// with its frame's hash.
pub fn summarize_pages(frames: &Vec<Vec<u8>>) -> (r: Vec<PageSummary>)
    requires
        frames@.len() < u32::MAX,
    ensures
        r@.len() == frames@.len(),
        forall|i: int|
            0 <= i < r@.len() ==> #[trigger] r@[i].num == i + 1 && r@[i].hash@ == hex_text(
                sip24_bytes(frames@[i]@),
            ),
{
    let mut pages: Vec<PageSummary> = Vec::new();
    let mut i: usize = 0;
    while i < frames.len()
        invariant
            frames@.len() < u32::MAX,
            i <= frames@.len(),
            pages@.len() == i,
            forall|k: int|
                0 <= k < i ==> #[trigger] pages@[k].num == k + 1 && pages@[k].hash@ == hex_text(
                    sip24_bytes(frames@[k]@),
                ),
        decreases frames@.len() - i,
    {
        let hash = page_hash(frames[i].as_slice());
        pages.push(PageSummary { num: (i + 1) as u32, hash });
        i = i + 1;
    }
    pages
}

} // verus!
