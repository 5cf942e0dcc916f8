//! Sequential access to the codes of a packed sequence, one at a time.
use vstd::prelude::*;

use crate::kmer::Kmer;

verus! {

/// Walks the codes of a sequence in position order, `0 .. k`.
pub struct KmerIter {
    pub kmer: Kmer,
    pub position: usize,
    pub nucleotide: u8,
}

impl KmerIter {
    /// The codes not yet handed out.
    pub open spec fn remaining(&self) -> Seq<u8> {
        self.kmer@.subrange(self.position as int, self.kmer.k as int)
    }

    /// Hands out the code at the current position and moves past it, or
    /// `None` once all `k` codes have been handed out.
    pub fn next(&mut self) -> (r: Option<u8>)
        requires
            old(self).kmer.wf(),
        ensures
            final(self).kmer == old(self).kmer,
            old(self).position >= old(self).kmer.k ==> r is None && *final(self) == *old(self),
            old(self).position < old(self).kmer.k ==> {
                &&& r == Some(old(self).kmer@[old(self).position as int])
                &&& final(self).position == old(self).position + 1
                &&& final(self).nucleotide == r->Some_0
            },
    {
        if self.position >= self.kmer.k {
            return None;
        }
        match self.kmer.index(self.position) {
            Ok(code) => {
                self.nucleotide = code;
                self.position = self.position + 1;
                Some(code)
            },
            Err(_) => None,
        }
    }
}

impl Kmer {
    /// An accessor that starts at position zero. A fresh one restarts the walk.
    pub fn into_iter(self) -> (r: KmerIter)
        ensures
            r.kmer == self,
            r.position == 0,
            r.remaining() == self@,
    {
        let r = KmerIter { kmer: self, position: 0, nucleotide: 0 };
        assert(r.remaining() =~= self@);
        r
    }

}

} // verus!
