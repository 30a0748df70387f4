//! Per-channel sample queue.
//!
//! A `ChannelBuffer` holds the samples of one channel that have been
//! ingested but not yet emitted. Samples are appended at the tail and
//! drained from the head, so the buffer is a FIFO queue: its view is the
//! sequence of pending samples in arrival order.
//!
//! Draining does not rebuild the stored vector: the buffer keeps an index
//! to the first still-pending sample and advances it, so a cycle's drain is
//! proportional to the samples it emits, not to the samples still
//! buffered. Storage already drained is reclaimed only when it reaches
//! half of the vector, which keeps the compaction cost amortized constant
//! per sample.

use vstd::prelude::*;

verus! {

/// An ordered queue of samples for one audio channel.
///
/// The engine appends each cycle's input block at the tail and, once
/// flushing, drains one block's worth of samples from the head.
pub struct ChannelBuffer<T> {
    samples: Vec<T>,
    head: usize,
}

impl<T> ChannelBuffer<T> {
    /// The drained prefix never extends past the stored samples.
    #[verifier::type_invariant]
    closed spec fn wf(self) -> bool {
        self.head <= self.samples@.len()
    }
}

impl<T: Copy> View for ChannelBuffer<T> {
    type V = Seq<T>;

    closed spec fn view(&self) -> Seq<T> {
        self.samples@.skip(self.head as int)
    }
}

impl<T: Copy> ChannelBuffer<T> {
    /// Creates an empty buffer.
    pub fn new() -> (buf: Self)
        ensures
            buf@ == Seq::<T>::empty(),
    {
        let buf = ChannelBuffer { samples: Vec::new(), head: 0 };
        proof {
            assert(buf@ =~= Seq::<T>::empty());
        }
        buf
    }

    /// The number of samples currently pending.
    pub fn len(&self) -> (n: usize)
        ensures
            n == self@.len(),
    {
        proof {
            use_type_invariant(&*self);
        }
        self.samples.len() - self.head
    }

    /// Appends a whole input block at the tail, in order.
    ///
    /// The buffer is swapped out whole while the vector grows, so the type
    /// invariant holds at every step even if an allocation unwinds.
    pub fn append(&mut self, block: &[T])
        ensures
            final(self)@ == old(self)@ + block@,
    {
        proof {
            use_type_invariant(&*self);
        }
        let mut taken = ChannelBuffer { samples: Vec::<T>::new(), head: 0 };
        core::mem::swap(self, &mut taken);
        let ChannelBuffer { mut samples, head } = taken;
        let mut i: usize = 0;
        while i < block.len()
            invariant
                i <= block@.len(),
                head == old(self).head,
                samples@ == old(self).samples@ + block@.take(i as int),
            decreases block@.len() - i,
        {
            samples.push(block[i]);
            i = i + 1;
            proof {
                assert(samples@ =~= old(self).samples@ + block@.take(i as int));
            }
        }
        let mut replaced = ChannelBuffer { samples, head };
        core::mem::swap(self, &mut replaced);
        proof {
            assert(block@.take(block@.len() as int) =~= block@);
            assert(self@ =~= old(self)@ + block@);
        }
    }

    /// Removes and returns the first `count` samples, in their original
    /// order; the remaining samples stay pending in order.
    pub fn drain_front(&mut self, count: usize) -> (front: Vec<T>)
        requires
            count <= old(self)@.len(),
        ensures
            front@ == old(self)@.take(count as int),
            final(self)@ == old(self)@.skip(count as int),
    {
        proof {
            use_type_invariant(&*self);
        }
        let total = self.samples.len();
        let mut front: Vec<T> = Vec::new();
        let mut i: usize = 0;
        while i < count
            invariant
                i <= count,
                count <= self@.len(),
                self == old(self),
                self.head <= self.samples@.len(),
                total == self.samples@.len(),
                front@ == self@.take(i as int),
            decreases count - i,
        {
            front.push(self.samples[self.head + i]);
            i = i + 1;
            proof {
                assert(front@ =~= self@.take(i as int));
            }
        }
        self.head = self.head + count;
        proof {
            assert(self@ =~= old(self)@.skip(count as int));
        }
        if self.head >= self.samples.len() - self.head {
            self.compact();
        }
        front
    }

    /// Reclaims the storage of the drained prefix by moving the pending
    /// samples to the front of a fresh vector.
    fn compact(&mut self)
        ensures
            final(self)@ == old(self)@,
    {
        proof {
            use_type_invariant(&*self);
        }
        let mut rest: Vec<T> = Vec::new();
        let mut j: usize = self.head;
        while j < self.samples.len()
            invariant
                self == old(self),
                self.head <= j <= self.samples@.len(),
                rest@ == self.samples@.subrange(self.head as int, j as int),
            decreases self.samples@.len() - j,
        {
            rest.push(self.samples[j]);
            j = j + 1;
            proof {
                assert(rest@ =~= self.samples@.subrange(self.head as int, j as int));
            }
        }
        self.head = 0;
        self.samples = rest;
        proof {
            assert(self@ =~= old(self)@);
        }
    }
}

} // verus!
