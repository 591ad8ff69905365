//! A per-page memo of frame hashes, used to skip re-rendering pages whose
//! frame did not change.
use vstd::prelude::*;

use crate::fingerprint::{hash128, hash128_of};

verus! {

/// The table after recording hash `h` for page index `i`: an index past the
/// end grows the table with zero entries up to it.
pub open spec fn record_spec(cache: Seq<u128>, i: int, h: u128) -> Seq<u128> {
    if i < cache.len() {
        cache.update(i, h)
    } else {
        (cache + Seq::new((i - cache.len()) as nat, |k: int| 0u128)).push(h)
    }
}

/// Whether page `i` with hash `h` is unchanged since the last record.
pub open spec fn cached_spec(cache: Seq<u128>, i: int, h: u128) -> bool {
    i < cache.len() && cache[i] == h
}

/// The hashes of the frames last recorded, one per page index.
pub struct ExportCache {
    pub cache: Vec<u128>,
}

impl View for ExportCache {
    type V = Seq<u128>;

    open spec fn view(&self) -> Seq<u128> {
        self.cache@
    }
}

impl ExportCache {
    /// An empty cache.
    pub fn new() -> (r: ExportCache)
        ensures
            r@ == Seq::<u128>::empty(),
    {
        ExportCache { cache: Vec::with_capacity(32) }
    }

    /// Whether page `i`'s frame hash equals `hash`, recording `hash` for it
    /// either way; other pages keep their entries.
    pub fn is_cached_hash(&mut self, i: usize, hash: u128) -> (r: bool)
        requires
            i < usize::MAX,
        ensures
            r == cached_spec(old(self)@, i as int, hash),
            final(self)@ == record_spec(old(self)@, i as int, hash),
            final(self)@.len() == if i < old(self)@.len() {
                old(self)@.len() as int
            } else {
                i + 1
            },
            forall|j: int|
                0 <= j < old(self)@.len() && j != i ==> #[trigger] final(self)@[j] == old(
                    self,
                )@[j],
    {
        if i >= self.cache.len() {
            let ghost before = self.cache@;
            while self.cache.len() < i
                invariant
                    before.len() <= self.cache@.len() <= i,
                    self.cache@ == before + Seq::new(
                        (self.cache@.len() - before.len()) as nat,
                        |k: int| 0u128,
                    ),
                decreases i - self.cache@.len(),
            {
                let ghost prev = self.cache@;
                self.cache.push(0u128);
                assert(self.cache@ =~= before + Seq::new(
                    (self.cache@.len() - before.len()) as nat,
                    |k: int| 0u128,
                ));
            }
            self.cache.push(hash);
            assert(self@ =~= record_spec(before, i as int, hash));
            return false;
        }
        let same = self.cache[i] == hash;
        self.cache.set(i, hash);
        same
    }

    /// Whether page `i`'s frame (its bytes) is unchanged since the last
    /// record, recording its hash either way.
    pub fn is_cached(&mut self, i: usize, frame: &[u8]) -> (r: bool)
        requires
            i < usize::MAX,
        ensures
            r == cached_spec(old(self)@, i as int, hash128_of(frame@)),
            final(self)@ == record_spec(old(self)@, i as int, hash128_of(frame@)),
    {
        let h = hash128(frame);
        self.is_cached_hash(i, h)
    }
}

} // verus!
