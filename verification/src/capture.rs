use vstd::prelude::*;

use crate::detector::{frame_samples, frames_view};

verus! {

/// Collects mono samples from the audio callback into chunks of a fixed size.
pub struct ChunkAccumulator {
    leftover: Vec<i16>,
    chunk_size: usize,
}

impl ChunkAccumulator {
    /// The samples received but not yet handed out in a chunk.
    pub closed spec fn pending(&self) -> Seq<i16> {
        self.leftover@
    }

    /// The number of samples in each chunk.
    pub closed spec fn size(&self) -> usize {
        self.chunk_size
    }

    /// Fewer samples are pending than make a chunk.
    pub open spec fn wf(&self) -> bool {
        self.size() > 0 ==> self.pending().len() < self.size()
    }

    /// An accumulator with nothing pending.
    pub fn new(chunk_size: usize) -> (a: ChunkAccumulator)
        ensures
            a.wf(),
            a.pending() == Seq::<i16>::empty(),
            a.size() == chunk_size,
    {
        ChunkAccumulator { leftover: Vec::new(), chunk_size }
    }

    /// The number of samples in each chunk.
    pub fn chunk_size(&self) -> (n: usize)
        ensures n == self.size(),
    {
        self.chunk_size
    }

    /// Adds samples and hands out every chunk they complete, oldest first.
    /// With a chunk size of 0 nothing is collected.
    pub fn push_samples(&mut self, samples: &[i16]) -> (chunks: Vec<Vec<i16>>)
        requires
            old(self).wf(),
        ensures
            final(self).wf(),
            final(self).size() == old(self).size(),
            old(self).size() == 0 ==> chunks@.len() == 0 && final(self).pending() == old(self).pending(),
            old(self).size() > 0 ==> {
                &&& final(self).pending().len() < old(self).size()
                &&& frame_samples(frames_view(chunks@)) + final(self).pending() == old(self).pending() + samples@
                &&& forall|i: int| 0 <= i < chunks@.len() ==> #[trigger] chunks@[i]@.len() == old(self).size()
            },
    {
        let mut chunks: Vec<Vec<i16>> = Vec::new();
        if self.chunk_size == 0 {
            return chunks;
        }
        let mut i: usize = 0;
        proof {
            assert(frames_view(chunks@) =~= Seq::<Seq<i16>>::empty());
            assert(samples@.subrange(0, 0) =~= Seq::<i16>::empty());
            assert(self.leftover@ + Seq::<i16>::empty() =~= self.leftover@);
            assert(Seq::<i16>::empty() + self.leftover@ =~= self.leftover@);
        }
        while i < samples.len()
            invariant
                self.chunk_size == old(self).chunk_size,
                self.chunk_size > 0,
                i <= samples@.len(),
                self.leftover@.len() < self.chunk_size,
                frame_samples(frames_view(chunks@)) + self.leftover@ == old(self).leftover@ + samples@.subrange(0, i as int),
                forall|k: int| 0 <= k < chunks@.len() ==> #[trigger] chunks@[k]@.len() == self.chunk_size,
            decreases samples@.len() - i,
        {
            let ghost before = frame_samples(frames_view(chunks@));
            let ghost pending = self.leftover@;
            self.leftover.push(samples[i]);
            proof {
                assert(samples@.subrange(0, i + 1) =~= samples@.subrange(0, i as int).push(samples@[i as int]));
                let x = samples@[i as int];
                assert(self.leftover@ == pending.push(x));
                assert(before + pending.push(x) =~= (before + pending).push(x));
                assert(old(self).leftover@ + samples@.subrange(0, i as int).push(x)
                    =~= (old(self).leftover@ + samples@.subrange(0, i as int)).push(x));
                assert(before + self.leftover@ == old(self).leftover@ + samples@.subrange(0, i + 1));
            }
            if self.leftover.len() >= self.chunk_size {
                let mut chunk: Vec<i16> = Vec::new();
                std::mem::swap(&mut chunk, &mut self.leftover);
                let ghost cv = chunk@;
                let ghost old_chunks = chunks@;
                chunks.push(chunk);
                proof {
                    assert(frames_view(chunks@) =~= frames_view(old_chunks).push(cv));
                    assert(frames_view(chunks@).drop_last() =~= frames_view(old_chunks));
                    assert(frame_samples(frames_view(chunks@)) == before + cv);
                    assert(frame_samples(frames_view(chunks@)) + self.leftover@ =~= before + cv);
                }
            }
            i = i + 1;
        }
        proof {
            assert(samples@.subrange(0, samples@.len() as int) =~= samples@);
        }
        chunks
    }
}

} // verus!
