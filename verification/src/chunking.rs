//! Accumulation of streamed mono samples into fixed-size windows.
//!
//! Two draining policies are offered.  [`ChunkBuffer`] drains on threshold:
//! whenever at least one full chunk is buffered, whole chunks leave the front
//! in order, so no sample is handed out twice.  [`ReplayBuffer`] accumulates
//! and replays: once enough new samples have arrived it yields the entire
//! history, for a recognizer that is reset before every batch and wants full
//! context; successive batches therefore overlap on purpose.

use vstd::prelude::*;

verus! {

/// The concatenation of a sequence of chunks, in order.
pub open spec fn concat_chunks(chunks: Seq<Seq<i32>>) -> Seq<i32>
    decreases chunks.len(),
{
    if chunks.len() == 0 {
        Seq::empty()
    } else {
        concat_chunks(chunks.drop_last()) + chunks.last()
    }
}

/// A growable buffer of mono samples in the normalized domain, drained in
/// whole chunks of a fixed size.
pub struct ChunkBuffer {
    samples: Vec<i32>,
    chunk_size: usize,
}

impl ChunkBuffer {
    /// The buffered samples, oldest first.
    pub closed spec fn view_samples(&self) -> Seq<i32> {
        self.samples@
    }

    /// The fixed window size, in samples.
    pub closed spec fn spec_chunk_size(&self) -> nat {
        self.chunk_size as nat
    }

    /// A buffer drains only in positive-size chunks.
    pub open spec fn wf(&self) -> bool {
        self.spec_chunk_size() > 0
    }

    pub fn new(chunk_size: usize) -> (r: Self)
        requires
            chunk_size > 0,
        ensures
            r.wf(),
            r.view_samples() == Seq::<i32>::empty(),
            r.spec_chunk_size() == chunk_size,
    {
        let r = ChunkBuffer { samples: Vec::new(), chunk_size };
        assert(r.view_samples() =~= Seq::<i32>::empty());
        r
    }

    /// The number of buffered samples.
    pub fn len(&self) -> (r: usize)
        ensures
            r == self.view_samples().len(),
    {
        self.samples.len()
    }

    /// Appends samples to the back of the buffer.
    pub fn push(&mut self, more: &[i32])
        ensures
            final(self).view_samples() == old(self).view_samples() + more@,
            final(self).spec_chunk_size() == old(self).spec_chunk_size(),
    {
        let mut i: usize = 0;
        while i < more.len()
            invariant
                i <= more@.len(),
                self.samples@ == old(self).samples@ + more@.take(i as int),
                self.chunk_size == old(self).chunk_size,
            decreases more@.len() - i,
        {
            self.samples.push(more[i]);
            proof {
                assert(self.samples@ =~= old(self).samples@ + more@.take(i + 1));
            }
            i = i + 1;
        }
        proof {
            assert(more@.take(more@.len() as int) =~= more@);
        }
    }

    /// Removes and returns every full chunk from the front, in order: the
    /// chunks concatenate back to exactly the drained prefix, every chunk is
    /// exactly one window, fewer than one window's samples stay behind, and
    /// nothing is duplicated or reordered.
    #[verifier::loop_isolation(false)]
    pub fn drain_ready(&mut self) -> (chunks: Vec<Vec<i32>>)
        requires
            old(self).wf(),
        ensures
            final(self).wf(),
            final(self).spec_chunk_size() == old(self).spec_chunk_size(),
            forall|k: int|
                0 <= k < chunks@.len() ==> (#[trigger] chunks@[k])@.len()
                    == old(self).spec_chunk_size(),
            final(self).view_samples().len() < old(self).spec_chunk_size(),
            concat_chunks(Seq::new(chunks@.len(), |k: int| chunks@[k]@))
                + final(self).view_samples() == old(self).view_samples(),
    {
        let mut chunks: Vec<Vec<i32>> = Vec::new();
        proof {
            assert(Seq::new(chunks@.len(), |k: int| chunks@[k]@) =~= Seq::<Seq<i32>>::empty());
        }
        while self.samples.len() >= self.chunk_size
            invariant
                self.chunk_size == old(self).chunk_size,
                forall|k: int|
                    0 <= k < chunks@.len() ==> (#[trigger] chunks@[k])@.len()
                        == self.chunk_size,
                concat_chunks(Seq::new(chunks@.len(), |k: int| chunks@[k]@)) + self.samples@
                    == old(self).samples@,
            decreases self.samples@.len(),
        {
            let ghost pre = self.samples@;
            let ghost flat_pre = Seq::new(chunks@.len(), |k: int| chunks@[k]@);
            let mut chunk: Vec<i32> = Vec::new();
            let mut i: usize = 0;
            while i < self.chunk_size
                invariant
                    i <= self.chunk_size <= self.samples@.len(),
                    self.samples@ == pre,
                    chunk@ == pre.take(i as int),
                decreases self.chunk_size - i,
            {
                chunk.push(self.samples[i]);
                proof {
                    assert(chunk@ =~= pre.take(i + 1));
                }
                i = i + 1;
            }
            let mut rest: Vec<i32> = Vec::new();
            let mut j: usize = self.chunk_size;
            while j < self.samples.len()
                invariant
                    self.chunk_size <= j <= self.samples@.len(),
                    self.samples@ == pre,
                    rest@ == pre.subrange(self.chunk_size as int, j as int),
                decreases self.samples@.len() - j,
            {
                rest.push(self.samples[j]);
                proof {
                    assert(rest@ =~= pre.subrange(self.chunk_size as int, j + 1));
                }
                j = j + 1;
            }
            self.samples = rest;
            chunks.push(chunk);
            proof {
                let flat_now = Seq::new(chunks@.len(), |k: int| chunks@[k]@);
                assert(flat_now.drop_last() =~= flat_pre);
                assert(flat_now.last() == chunk@);
                assert(concat_chunks(flat_now) == concat_chunks(flat_pre) + chunk@);
                assert(chunk@ + self.samples@ =~= pre);
                assert(concat_chunks(flat_now) + self.samples@ =~= concat_chunks(flat_pre)
                    + pre);
            }
        }
        chunks
    }
}

/// Drain-on-threshold is lossless and duplication-free: the drained chunks
/// concatenate to exactly the first `len - len % chunk_size` buffered
/// samples, in their original order, and the remainder stays buffered.
pub proof fn lemma_drain_covers_prefix(
    pre: Seq<i32>,
    post: Seq<i32>,
    flat: Seq<Seq<i32>>,
    chunk_size: nat,
)
    requires
        chunk_size > 0,
        forall|k: int| 0 <= k < flat.len() ==> (#[trigger] flat[k]).len() == chunk_size,
        post.len() < chunk_size,
        concat_chunks(flat) + post == pre,
    ensures
        concat_chunks(flat) == pre.take((pre.len() - pre.len() % chunk_size) as int),
        post == pre.skip((pre.len() - pre.len() % chunk_size) as int),
        flat.len() == pre.len() / chunk_size,
{
    lemma_concat_chunks_len(flat, chunk_size);
    let drained = (flat.len() * chunk_size) as int;
    assert(pre.len() == flat.len() * chunk_size + post.len());
    vstd::arithmetic::div_mod::lemma_fundamental_div_mod_converse(
        pre.len() as int,
        chunk_size as int,
        flat.len() as int,
        post.len() as int,
    );
    assert(pre.len() % chunk_size == post.len());
    assert(pre.len() / chunk_size == flat.len());
    assert(concat_chunks(flat) =~= pre.take(drained));
    assert(post =~= pre.skip(drained));
}

/// Chunks of one fixed size concatenate to their combined length.
pub proof fn lemma_concat_chunks_len(flat: Seq<Seq<i32>>, chunk_size: nat)
    requires
        forall|k: int| 0 <= k < flat.len() ==> (#[trigger] flat[k]).len() == chunk_size,
    ensures
        concat_chunks(flat).len() == flat.len() * chunk_size,
    decreases flat.len(),
{
    if flat.len() > 0 {
        lemma_concat_chunks_len(flat.drop_last(), chunk_size);
        assert(flat.last().len() == chunk_size);
        assert((flat.len() - 1) * chunk_size + chunk_size == flat.len() * chunk_size)
            by (nonlinear_arith);
    }
}

/// A buffer that accumulates the whole history and replays all of it once at
/// least one window of new samples has arrived since the last replay.
pub struct ReplayBuffer {
    samples: Vec<i32>,
    consumed: usize,
    chunk_size: usize,
}

impl ReplayBuffer {
    /// The buffered samples, oldest first.
    pub closed spec fn view_samples(&self) -> Seq<i32> {
        self.samples@
    }

    /// How many samples had been buffered at the last replay.
    pub closed spec fn spec_consumed(&self) -> nat {
        self.consumed as nat
    }

    /// The fixed window size, in samples.
    pub closed spec fn spec_chunk_size(&self) -> nat {
        self.chunk_size as nat
    }

    pub open spec fn wf(&self) -> bool {
        self.spec_chunk_size() > 0 && self.spec_consumed() <= self.view_samples().len()
    }

    pub fn new(chunk_size: usize) -> (r: Self)
        requires
            chunk_size > 0,
        ensures
            r.wf(),
            r.view_samples() == Seq::<i32>::empty(),
            r.spec_consumed() == 0,
            r.spec_chunk_size() == chunk_size,
    {
        let r = ReplayBuffer { samples: Vec::new(), consumed: 0, chunk_size };
        assert(r.view_samples() =~= Seq::<i32>::empty());
        r
    }

    /// The number of buffered samples.
    pub fn len(&self) -> (r: usize)
        ensures
            r == self.view_samples().len(),
    {
        self.samples.len()
    }

    /// Appends samples to the back of the buffer.
    pub fn push(&mut self, more: &[i32])
        requires
            old(self).wf(),
        ensures
            final(self).wf(),
            final(self).view_samples() == old(self).view_samples() + more@,
            final(self).spec_consumed() == old(self).spec_consumed(),
            final(self).spec_chunk_size() == old(self).spec_chunk_size(),
    {
        let mut i: usize = 0;
        while i < more.len()
            invariant
                i <= more@.len(),
                self.samples@ == old(self).samples@ + more@.take(i as int),
                self.consumed == old(self).consumed,
                self.chunk_size == old(self).chunk_size,
            decreases more@.len() - i,
        {
            self.samples.push(more[i]);
            proof {
                assert(self.samples@ =~= old(self).samples@ + more@.take(i + 1));
            }
            i = i + 1;
        }
        proof {
            assert(more@.take(more@.len() as int) =~= more@);
        }
    }

    /// Replays the whole history once at least one window of samples is new
    /// since the last replay; otherwise nothing is yielded and nothing
    /// changes.
    pub fn take_batch(&mut self) -> (r: Option<Vec<i32>>)
        requires
            old(self).wf(),
        ensures
            final(self).wf(),
            final(self).view_samples() == old(self).view_samples(),
            final(self).spec_chunk_size() == old(self).spec_chunk_size(),
            if old(self).view_samples().len() >= old(self).spec_consumed()
                + old(self).spec_chunk_size() {
                r matches Some(batch) && batch@ == old(self).view_samples()
                    && final(self).spec_consumed() == old(self).view_samples().len()
            } else {
                r is None && final(self).spec_consumed() == old(self).spec_consumed()
            },
    {
        if self.samples.len() >= self.consumed && self.samples.len() - self.consumed
            >= self.chunk_size {
            let mut batch: Vec<i32> = Vec::new();
            let mut i: usize = 0;
            while i < self.samples.len()
                invariant
                    i <= self.samples@.len(),
                    self.samples@ == old(self).samples@,
                    self.consumed == old(self).consumed,
                    self.chunk_size == old(self).chunk_size,
                    batch@ == self.samples@.take(i as int),
                decreases self.samples@.len() - i,
            {
                batch.push(self.samples[i]);
                proof {
                    assert(batch@ =~= self.samples@.take(i + 1));
                }
                i = i + 1;
            }
            proof {
                assert(self.samples@.take(self.samples@.len() as int) =~= self.samples@);
            }
            self.consumed = self.samples.len();
            Some(batch)
        } else {
            None
        }
    }

    /// Discards the history: the buffer empties and the consumed count
    /// returns to zero.
    pub fn clear(&mut self)
        ensures
            final(self).wf() == (final(self).spec_chunk_size() > 0),
            final(self).view_samples() == Seq::<i32>::empty(),
            final(self).spec_consumed() == 0,
            final(self).spec_chunk_size() == old(self).spec_chunk_size(),
    {
        self.samples = Vec::new();
        self.consumed = 0;
        assert(self.samples@ =~= Seq::<i32>::empty());
    }
}

} // verus!
