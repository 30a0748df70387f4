//! Whole-session laws of the delay engine.
//!
//! [`run`] iterates the per-cycle [`step`] over a whole sequence of input
//! blocks and concatenates everything emitted. The proof functions here
//! state the engine's global guarantees over that model: no sample is ever
//! reordered, duplicated or lost; once flushing, the buffered amount — the
//! latency — never changes; and when the configured delay is hit exactly,
//! the emitted stream is the ingested stream shifted by exactly that many
//! frames, independently of how the stream was chunked into cycles.

use vstd::prelude::*;
use vstd::seq_lib::lemma_flatten_concat;

use crate::engine::{engine_init, step, will_flush, EngineModel};

verus! {

/// Iterates [`step`] over per-cycle input blocks, one block per channel per
/// cycle, and concatenates the emitted blocks of each channel. Returns the
/// final model and the two whole emitted streams.
pub open spec fn run<T>(m: EngineModel<T>, ins1: Seq<Seq<T>>, ins2: Seq<Seq<T>>) -> (EngineModel<
    T,
>, Seq<T>, Seq<T>)
    decreases ins1.len(),
{
    if ins1.len() == 0 {
        (m, Seq::empty(), Seq::empty())
    } else {
        let first = step(m, ins1[0], ins2[0]);
        let rest = run(first.0, ins1.drop_first(), ins2.drop_first());
        (rest.0, first.1 + rest.1, first.2 + rest.2)
    }
}

/// Order preservation: on each channel, what has been emitted followed by
/// what is still buffered is exactly the starting buffer followed by
/// everything ingested — no reordering, duplication, or loss. The
/// configured delay never changes, and flushing never reverts to filling.
pub proof fn lemma_order_preservation<T>(m: EngineModel<T>, ins1: Seq<Seq<T>>, ins2: Seq<Seq<T>>)
    requires
        ins1.len() == ins2.len(),
    ensures
        run(m, ins1, ins2).1 + run(m, ins1, ins2).0.buf1 == m.buf1 + ins1.flatten(),
        run(m, ins1, ins2).2 + run(m, ins1, ins2).0.buf2 == m.buf2 + ins2.flatten(),
        run(m, ins1, ins2).0.threshold == m.threshold,
        m.flushing ==> run(m, ins1, ins2).0.flushing,
    decreases ins1.len(),
{
    if ins1.len() == 0 {
        assert(run(m, ins1, ins2).1 + run(m, ins1, ins2).0.buf1 =~= m.buf1 + ins1.flatten());
        assert(run(m, ins1, ins2).2 + run(m, ins1, ins2).0.buf2 =~= m.buf2 + ins2.flatten());
    } else {
        let in1 = ins1[0];
        let in2 = ins2[0];
        let first = step(m, in1, in2);
        let rest = run(first.0, ins1.drop_first(), ins2.drop_first());
        lemma_order_preservation(first.0, ins1.drop_first(), ins2.drop_first());
        // One cycle conserves each channel's samples.
        assert(first.1 + first.0.buf1 =~= m.buf1 + in1);
        assert(first.2 + first.0.buf2 =~= m.buf2 + in2);
        // Reassociate the concatenations and fold the flattened tail back in.
        assert((first.1 + rest.1) + rest.0.buf1 =~= first.1 + (rest.1 + rest.0.buf1));
        assert(first.1 + (first.0.buf1 + ins1.drop_first().flatten()) =~= (first.1 + first.0.buf1)
            + ins1.drop_first().flatten());
        assert((m.buf1 + in1) + ins1.drop_first().flatten() =~= m.buf1 + ins1.flatten());
        assert((first.2 + rest.2) + rest.0.buf2 =~= first.2 + (rest.2 + rest.0.buf2));
        assert(first.2 + (first.0.buf2 + ins2.drop_first().flatten()) =~= (first.2 + first.0.buf2)
            + ins2.drop_first().flatten());
        assert((m.buf2 + in2) + ins2.drop_first().flatten() =~= m.buf2 + ins2.flatten());
    }
}

/// Steady state: from any cycle that runs in flushing mode onward, every
/// cycle emits exactly as many samples as it ingests, so each channel's
/// buffered amount — the session's latency — never changes again, and the
/// engine stays in flushing mode.
pub proof fn lemma_steady_state<T>(m: EngineModel<T>, ins1: Seq<Seq<T>>, ins2: Seq<Seq<T>>)
    requires
        ins1.len() == ins2.len(),
        will_flush(m),
    ensures
        run(m, ins1, ins2).0.buf1.len() == m.buf1.len(),
        run(m, ins1, ins2).0.buf2.len() == m.buf2.len(),
        run(m, ins1, ins2).1.len() == ins1.flatten().len(),
        run(m, ins1, ins2).2.len() == ins2.flatten().len(),
        will_flush(run(m, ins1, ins2).0),
        ins1.len() > 0 ==> run(m, ins1, ins2).0.flushing,
    decreases ins1.len(),
{
    if ins1.len() > 0 {
        let first = step(m, ins1[0], ins2[0]);
        lemma_steady_state(first.0, ins1.drop_first(), ins2.drop_first());
    }
}

/// Steady-state emission: from any cycle that runs in flushing mode onward,
/// the emitted stream of each channel is the prefix of (still-buffered
/// samples, then newly ingested samples) with as many samples as were
/// ingested — i.e. the input stream delayed by exactly the buffered amount
/// at the moment flushing began.
pub proof fn lemma_steady_state_emission<T>(m: EngineModel<T>, ins1: Seq<Seq<T>>, ins2: Seq<Seq<T>>)
    requires
        ins1.len() == ins2.len(),
        will_flush(m),
    ensures
        run(m, ins1, ins2).1 == (m.buf1 + ins1.flatten()).take(ins1.flatten().len() as int),
        run(m, ins1, ins2).2 == (m.buf2 + ins2.flatten()).take(ins2.flatten().len() as int),
{
    lemma_order_preservation(m, ins1, ins2);
    lemma_steady_state(m, ins1, ins2);
    let e1 = run(m, ins1, ins2).1;
    let e2 = run(m, ins1, ins2).2;
    let f1 = run(m, ins1, ins2).0.buf1;
    let f2 = run(m, ins1, ins2).0.buf2;
    assert forall|i: int| 0 <= i < e1.len() implies e1[i] == (m.buf1 + ins1.flatten())[i] by {
        assert((e1 + f1)[i] == e1[i]);
    }
    assert(e1 =~= (m.buf1 + ins1.flatten()).take(ins1.flatten().len() as int));
    assert forall|i: int| 0 <= i < e2.len() implies e2[i] == (m.buf2 + ins2.flatten())[i] by {
        assert((e2 + f2)[i] == e2[i]);
    }
    assert(e2 =~= (m.buf2 + ins2.flatten()).take(ins2.flatten().len() as int));
}

/// Splitting off the first block: flattening a prefix one block longer
/// appends exactly that block's head to the flattening of the tail prefix.
proof fn lemma_flatten_head<T>(ins: Seq<Seq<T>>, j: int)
    requires
        0 <= j < ins.len(),
    ensures
        ins.take(j + 1).flatten() == ins[0] + ins.drop_first().take(j).flatten(),
{
    let head = seq![ins[0]];
    assert(ins.take(j + 1) =~= head + ins.drop_first().take(j));
    lemma_flatten_concat(head, ins.drop_first().take(j));
    head.lemma_flatten_one_element();
}

/// Two block sequences whose blocks have pairwise equal lengths flatten to
/// streams of equal length.
proof fn lemma_flatten_len_eq<T>(xs: Seq<Seq<T>>, ys: Seq<Seq<T>>)
    requires
        xs.len() == ys.len(),
        forall|i: int| 0 <= i < xs.len() ==> (#[trigger] xs[i]).len() == ys[i].len(),
    ensures
        xs.flatten().len() == ys.flatten().len(),
    decreases xs.len(),
{
    if xs.len() > 0 {
        assert forall|i: int| 0 <= i < xs.drop_first().len() implies (#[trigger] xs.drop_first()[i]).len()
            == ys.drop_first()[i].len() by {
            assert(xs[i + 1].len() == ys[i + 1].len());
        }
        lemma_flatten_len_eq(xs.drop_first(), ys.drop_first());
    }
}

/// Filling phase: while channel 1's fill level stays strictly below the
/// threshold at the start of every cycle, the engine only accumulates: both
/// buffers grow by everything ingested, nothing is emitted, and the engine
/// stays in the filling state.
pub proof fn lemma_filling_phase<T>(m: EngineModel<T>, ins1: Seq<Seq<T>>, ins2: Seq<Seq<T>>)
    requires
        ins1.len() == ins2.len(),
        !m.flushing,
        forall|j: int| 0 <= j < ins1.len() ==> m.buf1.len() + (#[trigger] ins1.take(
            j,
        )).flatten().len() < m.threshold,
    ensures
        run(m, ins1, ins2).0.buf1 == m.buf1 + ins1.flatten(),
        run(m, ins1, ins2).0.buf2 == m.buf2 + ins2.flatten(),
        run(m, ins1, ins2).0.flushing == false,
        run(m, ins1, ins2).0.threshold == m.threshold,
        run(m, ins1, ins2).1 == Seq::<T>::empty(),
        run(m, ins1, ins2).2 == Seq::<T>::empty(),
    decreases ins1.len(),
{
    if ins1.len() == 0 {
        assert(run(m, ins1, ins2).0.buf1 =~= m.buf1 + ins1.flatten());
        assert(run(m, ins1, ins2).0.buf2 =~= m.buf2 + ins2.flatten());
    } else {
        // The hypothesis at the empty prefix rules flushing out this cycle.
        assert(ins1.take(0) =~= Seq::<Seq<T>>::empty());
        assert(m.buf1.len() + ins1.take(0).flatten().len() < m.threshold);
        assert(!will_flush(m));
        let first = step(m, ins1[0], ins2[0]);
        assert forall|j: int| 0 <= j < ins1.drop_first().len() implies first.0.buf1.len() + (
        #[trigger] ins1.drop_first().take(j)).flatten().len() < m.threshold by {
            lemma_flatten_head(ins1, j);
            assert(m.buf1.len() + ins1.take(j + 1).flatten().len() < m.threshold);
        }
        lemma_filling_phase(first.0, ins1.drop_first(), ins2.drop_first());
        assert(run(m, ins1, ins2).0.buf1 =~= m.buf1 + ins1.flatten());
        assert(run(m, ins1, ins2).0.buf2 =~= m.buf2 + ins2.flatten());
        assert(run(m, ins1, ins2).1 =~= Seq::<T>::empty());
        assert(run(m, ins1, ins2).2 =~= Seq::<T>::empty());
    }
}

/// A session splits at any cycle boundary: running all blocks equals
/// running the first `k` and then the rest from the intermediate model,
/// with the emitted streams concatenated.
pub proof fn lemma_run_split<T>(m: EngineModel<T>, ins1: Seq<Seq<T>>, ins2: Seq<Seq<T>>, k: int)
    requires
        0 <= k <= ins1.len(),
        ins1.len() == ins2.len(),
    ensures
        ({
            let mid = run(m, ins1.take(k), ins2.take(k));
            let tail = run(mid.0, ins1.skip(k), ins2.skip(k));
            run(m, ins1, ins2).0 == tail.0 && run(m, ins1, ins2).1 == mid.1 + tail.1 && run(
                m,
                ins1,
                ins2,
            ).2 == mid.2 + tail.2
        }),
    decreases k,
{
    let mid = run(m, ins1.take(k), ins2.take(k));
    let tail = run(mid.0, ins1.skip(k), ins2.skip(k));
    if k == 0 {
        assert(ins1.take(0) =~= Seq::<Seq<T>>::empty());
        assert(ins2.take(0) =~= Seq::<Seq<T>>::empty());
        assert(ins1.skip(0) =~= ins1);
        assert(ins2.skip(0) =~= ins2);
        assert(run(m, ins1, ins2).1 =~= mid.1 + tail.1);
        assert(run(m, ins1, ins2).2 =~= mid.2 + tail.2);
    } else {
        let first = step(m, ins1[0], ins2[0]);
        assert(ins1.take(k)[0] == ins1[0]);
        assert(ins2.take(k)[0] == ins2[0]);
        assert(ins1.take(k).drop_first() =~= ins1.drop_first().take(k - 1));
        assert(ins2.take(k).drop_first() =~= ins2.drop_first().take(k - 1));
        assert(ins1.skip(k) =~= ins1.drop_first().skip(k - 1));
        assert(ins2.skip(k) =~= ins2.drop_first().skip(k - 1));
        lemma_run_split(first.0, ins1.drop_first(), ins2.drop_first(), k - 1);
        let mid_rest = run(first.0, ins1.drop_first().take(k - 1), ins2.drop_first().take(k - 1));
        assert(mid.1 == first.1 + mid_rest.1);
        assert(mid.2 == first.2 + mid_rest.2);
        assert(run(m, ins1, ins2).1 =~= mid.1 + tail.1);
        assert(run(m, ins1, ins2).2 =~= mid.2 + tail.2);
    }
}

/// Exact fixed latency: start the engine with delay `d` and feed it any
/// session whose channel-1 fill level first reaches `d` exactly (at the
/// start of cycle `k`), with both channels' blocks of equal length each
/// cycle. Then each channel emits precisely its own ingested stream minus
/// its last `d` samples — the input delayed by exactly `d` frames, with no
/// reordering, duplication, or loss.
pub proof fn lemma_exact_delay<T>(d: nat, ins1: Seq<Seq<T>>, ins2: Seq<Seq<T>>, k: int)
    requires
        ins1.len() == ins2.len(),
        forall|i: int| 0 <= i < ins1.len() ==> (#[trigger] ins1[i]).len() == ins2[i].len(),
        0 <= k <= ins1.len(),
        forall|j: int| 0 <= j < k ==> (#[trigger] ins1.take(j)).flatten().len() < d,
        ins1.take(k).flatten().len() == d,
    ensures
        run(engine_init(d), ins1, ins2).1 == ins1.flatten().take(ins1.flatten().len() - d),
        run(engine_init(d), ins1, ins2).2 == ins2.flatten().take(ins2.flatten().len() - d),
{
    let m0 = engine_init::<T>(d);
    lemma_run_split(m0, ins1, ins2, k);
    let mid = run(m0, ins1.take(k), ins2.take(k));
    // Up to cycle k the engine only fills.
    assert forall|j: int| 0 <= j < ins1.take(k).len() implies m0.buf1.len() + (#[trigger] ins1.take(
        k,
    ).take(j)).flatten().len() < m0.threshold by {
        assert(ins1.take(k).take(j) =~= ins1.take(j));
        assert(ins1.take(j).flatten().len() < d);
    }
    lemma_filling_phase(m0, ins1.take(k), ins2.take(k));
    assert(mid.0.buf1 =~= ins1.take(k).flatten());
    assert(mid.0.buf2 =~= ins2.take(k).flatten());
    // Both channels buffered exactly d frames when flushing begins.
    assert forall|i: int| 0 <= i < ins1.take(k).len() implies (#[trigger] ins1.take(k)[i]).len()
        == ins2.take(k)[i].len() by {
        assert(ins1[i].len() == ins2[i].len());
    }
    lemma_flatten_len_eq(ins1.take(k), ins2.take(k));
    // From cycle k on the engine is in steady state.
    assert(will_flush(mid.0));
    lemma_steady_state_emission(mid.0, ins1.skip(k), ins2.skip(k));
    let tail = run(mid.0, ins1.skip(k), ins2.skip(k));
    // The buffered prefix plus the remaining stream is the whole stream.
    lemma_flatten_concat(ins1.take(k), ins1.skip(k));
    assert(ins1.take(k) + ins1.skip(k) =~= ins1);
    lemma_flatten_concat(ins2.take(k), ins2.skip(k));
    assert(ins2.take(k) + ins2.skip(k) =~= ins2);
    assert(tail.1 == (mid.0.buf1 + ins1.skip(k).flatten()).take(ins1.skip(k).flatten().len() as int));
    assert(mid.0.buf1 + ins1.skip(k).flatten() == ins1.flatten());
    assert(mid.0.buf2 + ins2.skip(k).flatten() == ins2.flatten());
    assert(run(m0, ins1, ins2).1 =~= ins1.flatten().take(ins1.flatten().len() - d));
    assert(run(m0, ins1, ins2).2 =~= ins2.flatten().take(ins2.flatten().len() - d));
}

/// Chunking invariance: two sessions that carry the same two sample
/// streams, however differently they are cut into per-cycle blocks, emit
/// identical streams — provided each session's channel-1 fill level first
/// reaches the configured delay exactly.
pub proof fn lemma_chunking_invariance<T>(
    d: nat,
    xs1: Seq<Seq<T>>,
    xs2: Seq<Seq<T>>,
    ys1: Seq<Seq<T>>,
    ys2: Seq<Seq<T>>,
    kx: int,
    ky: int,
)
    requires
        xs1.len() == xs2.len(),
        forall|i: int| 0 <= i < xs1.len() ==> (#[trigger] xs1[i]).len() == xs2[i].len(),
        0 <= kx <= xs1.len(),
        forall|j: int| 0 <= j < kx ==> (#[trigger] xs1.take(j)).flatten().len() < d,
        xs1.take(kx).flatten().len() == d,
        ys1.len() == ys2.len(),
        forall|i: int| 0 <= i < ys1.len() ==> (#[trigger] ys1[i]).len() == ys2[i].len(),
        0 <= ky <= ys1.len(),
        forall|j: int| 0 <= j < ky ==> (#[trigger] ys1.take(j)).flatten().len() < d,
        ys1.take(ky).flatten().len() == d,
        xs1.flatten() == ys1.flatten(),
        xs2.flatten() == ys2.flatten(),
    ensures
        run(engine_init(d), xs1, xs2).1 == run(engine_init(d), ys1, ys2).1,
        run(engine_init(d), xs1, xs2).2 == run(engine_init(d), ys1, ys2).2,
{
    lemma_exact_delay(d, xs1, xs2, kx);
    lemma_exact_delay(d, ys1, ys2, ky);
}

/// Zero delay: an engine configured with delay 0 is flushing from the very
/// first cycle and emits each cycle's input in full — both channels pass
/// through unchanged, with no added delay.
pub proof fn lemma_zero_delay<T>(ins1: Seq<Seq<T>>, ins2: Seq<Seq<T>>)
    requires
        ins1.len() == ins2.len(),
    ensures
        run(engine_init(0), ins1, ins2).1 == ins1.flatten(),
        run(engine_init(0), ins1, ins2).2 == ins2.flatten(),
{
    let m0 = engine_init::<T>(0);
    assert(will_flush(m0));
    lemma_steady_state_emission(m0, ins1, ins2);
    assert((m0.buf1 + ins1.flatten()).take(ins1.flatten().len() as int) =~= ins1.flatten());
    assert((m0.buf2 + ins2.flatten()).take(ins2.flatten().len() as int) =~= ins2.flatten());
}

} // verus!
