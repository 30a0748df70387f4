//! The per-cycle buffering/flush engine.
//!
//! A `DelayEngine` owns one `ChannelBuffer` per channel and a single
//! `DelayState` shared by both channels. Each processing cycle runs three
//! phases in this order:
//!
//! 1. **Threshold check** (evaluated at the start of the cycle, while still
//!    filling): if channel 1's buffered length has reached or exceeded the
//!    configured delay threshold, the engine switches to flushing. The check
//!    examines channel 1's buffer only; the resulting flag gates emission on
//!    both channels, so both channels start emitting on the same cycle.
//! 2. **Ingest**: the whole input block of each channel is appended to that
//!    channel's buffer, unconditionally.
//! 3. **Emit** (only while flushing): each channel drains exactly as many
//!    samples as its own input block held this cycle.
//!
//! Because each channel drains exactly the length it just ingested, a drain
//! can never ask for more samples than the buffer holds: the drain
//! precondition is satisfied by construction, even when one channel's input
//! runs behind the other's. Under that imbalance a channel simply emits its
//! own (shorter) history; synchronization of the start of emission is kept.
//! Two other remedies to the under-filled-drain hazard would change
//! behavior: gating the transition on the minimum fill level across
//! channels would abandon the single channel-1 trigger, and zero-padding a
//! short drain would emit samples that were never ingested. Draining each
//! channel's own intake needs neither, and keeps both the shared trigger
//! and exact order preservation.
//!
//! The whole cycle is captured by the spec function [`step`] on the engine's
//! mathematical model [`EngineModel`]; `process` is proved to implement it
//! exactly.

use vstd::prelude::*;

use crate::buffer::ChannelBuffer;

verus! {

/// The flush state shared by both channels of one engine.
pub struct DelayState {
    /// The configured delay, in frames. Immutable after construction.
    pub delay_threshold: usize,
    /// False while the engine is still filling; set once channel 1 has
    /// accumulated `delay_threshold` frames, and never cleared again.
    pub flushing: bool,
}

/// The mathematical model of a `DelayEngine`: the pending samples of each
/// channel, the shared flush flag, and the configured delay.
#[verifier::ext_equal]
pub ghost struct EngineModel<T> {
    pub buf1: Seq<T>,
    pub buf2: Seq<T>,
    pub flushing: bool,
    pub threshold: nat,
}

/// The model of a freshly constructed engine: empty buffers, still filling.
pub open spec fn engine_init<T>(delay_threshold: nat) -> EngineModel<T> {
    EngineModel {
        buf1: Seq::empty(),
        buf2: Seq::empty(),
        flushing: false,
        threshold: delay_threshold,
    }
}

/// Whether a cycle starting from model `m` runs in flushing mode: either
/// the engine is already flushing, or channel 1's buffer has reached the
/// threshold at the start of the cycle.
pub open spec fn will_flush<T>(m: EngineModel<T>) -> bool {
    m.flushing || m.buf1.len() >= m.threshold
}

/// One processing cycle on the model: returns the successor model and the
/// two emitted blocks (empty while filling). Each channel ingests its whole
/// input block; in flushing mode it then emits exactly one input block's
/// worth of samples from the front of its buffer.
pub open spec fn step<T>(m: EngineModel<T>, in1: Seq<T>, in2: Seq<T>) -> (EngineModel<
    T,
>, Seq<T>, Seq<T>) {
    let b1 = m.buf1 + in1;
    let b2 = m.buf2 + in2;
    if will_flush(m) {
        (
            EngineModel {
                buf1: b1.skip(in1.len() as int),
                buf2: b2.skip(in2.len() as int),
                flushing: true,
                threshold: m.threshold,
            },
            b1.take(in1.len() as int),
            b2.take(in2.len() as int),
        )
    } else {
        (EngineModel { buf1: b1, buf2: b2, flushing: false, threshold: m.threshold }, Seq::empty(), Seq::empty())
    }
}

/// A two-channel fixed-latency delay engine.
pub struct DelayEngine<T> {
    buf1: ChannelBuffer<T>,
    buf2: ChannelBuffer<T>,
    state: DelayState,
}

impl<T: Copy> View for DelayEngine<T> {
    type V = EngineModel<T>;

    closed spec fn view(&self) -> EngineModel<T> {
        EngineModel {
            buf1: self.buf1@,
            buf2: self.buf2@,
            flushing: self.state.flushing,
            threshold: self.state.delay_threshold as nat,
        }
    }
}

impl<T: Copy> DelayEngine<T> {
    /// Creates an engine that delays both channels by `delay_frames` frames.
    pub fn new(delay_frames: usize) -> (engine: Self)
        ensures
            engine@ == engine_init::<T>(delay_frames as nat),
    {
        let engine = DelayEngine {
            buf1: ChannelBuffer::new(),
            buf2: ChannelBuffer::new(),
            state: DelayState { delay_threshold: delay_frames, flushing: false },
        };
        proof {
            assert(engine@ =~= engine_init::<T>(delay_frames as nat));
        }
        engine
    }

    /// The configured delay, in frames.
    pub fn delay_frames(&self) -> (n: usize)
        ensures
            n as nat == self@.threshold,
    {
        self.state.delay_threshold
    }

    /// Whether the engine has started emitting.
    pub fn is_flushing(&self) -> (b: bool)
        ensures
            b == self@.flushing,
    {
        self.state.flushing
    }

    /// Runs one processing cycle: checks the flush threshold, ingests both
    /// input blocks, and, once flushing, emits one block per channel of the
    /// same length as that channel's input block. Returns the two emitted
    /// blocks, both empty while the engine is still filling.
    pub fn process(&mut self, in1: &[T], in2: &[T]) -> (out: (Vec<T>, Vec<T>))
        ensures
            final(self)@ == step(old(self)@, in1@, in2@).0,
            out.0@ == step(old(self)@, in1@, in2@).1,
            out.1@ == step(old(self)@, in1@, in2@).2,
    {
        if !self.state.flushing && self.buf1.len() >= self.state.delay_threshold {
            self.state.flushing = true;
        }
        self.buf1.append(in1);
        self.buf2.append(in2);
        if self.state.flushing {
            let n1 = in1.len();
            let n2 = in2.len();
            let out1 = self.buf1.drain_front(n1);
            let out2 = self.buf2.drain_front(n2);
            proof {
                assert(self@ =~= step(old(self)@, in1@, in2@).0);
            }
            (out1, out2)
        } else {
            proof {
                assert(self@ =~= step(old(self)@, in1@, in2@).0);
            }
            (Vec::new(), Vec::new())
        }
    }
}

} // verus!
