//! Fixed-size payload generation: either uncompressible random bytes or
//! snippets of a text corpus, tiled from random offsets until the payload is
//! full, so the value compresses like prose.

use crate::draws::{draw_index, fill_random};
use vstd::prelude::*;

verus! {

/// Every byte of `r` occurs somewhere in `corpus`.
pub open spec fn from_corpus(r: Seq<u8>, corpus: Seq<u8>) -> bool {
    forall|i: int|
        0 <= i < r.len() ==> exists|j: int|
            0 <= j < corpus.len() && (#[trigger] r[i]) == corpus[j]
}

proof fn lemma_from_corpus_push(prev: Seq<u8>, corpus: Seq<u8>, r: Seq<u8>, x: u8, j: int)
    requires
        from_corpus(prev, corpus),
        r == prev.push(x),
        0 <= j < corpus.len(),
        x == corpus[j],
    ensures
        from_corpus(r, corpus),
{
    assert forall|i: int| 0 <= i < r.len() implies exists|jj: int|
        0 <= jj < corpus.len() && (#[trigger] r[i]) == corpus[jj] by {
        if i < prev.len() {
            assert(prev[i] == r[i]);
            let w = choose|jj: int| 0 <= jj < corpus.len() && (#[trigger] prev[i]) == corpus[jj];
            assert(r[i] == corpus[w]);
        } else {
            assert(r[i] == x);
            assert(r[i] == corpus[j]);
        }
    }
}

/// Produces exactly `size` bytes. With `compressible` set every byte is
/// copied out of the corpus; otherwise the payload is random.
pub fn make_value(size: usize, compressible: bool, corpus: &Vec<u8>) -> (r: Vec<u8>)
    requires
        compressible ==> corpus@.len() > 0,
    ensures
        r@.len() == size,
        compressible ==> from_corpus(r@, corpus@),
{
    if compressible {
        let mut r: Vec<u8> = Vec::new();
        while r.len() < size
            invariant
                corpus@.len() > 0,
                r@.len() <= size,
                from_corpus(r@, corpus@),
            decreases size - r@.len(),
        {
            let off = draw_index(corpus.len());
            let mut j = off;
            let ghost len0 = r@.len();
            while j < corpus.len() && r.len() < size
                invariant
                    corpus@.len() > 0,
                    off <= j <= corpus@.len(),
                    r@.len() <= size,
                    r@.len() == len0 + (j - off),
                    from_corpus(r@, corpus@),
                decreases corpus@.len() - j,
            {
                let ghost prev = r@;
                let x = corpus[j];
                r.push(x);
                proof {
                    lemma_from_corpus_push(prev, corpus@, r@, x, j as int);
                }
                j = j + 1;
            }
        }
        r
    } else {
        let mut r: Vec<u8> = Vec::new();
        let mut i: usize = 0;
        while i < size
            invariant
                r@.len() == i,
                0 <= i <= size,
            decreases size - i,
        {
            r.push(0);
            i = i + 1;
        }
        fill_random(&mut r);
        r
    }
}

} // verus!
