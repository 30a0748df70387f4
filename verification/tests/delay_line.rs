use rust_delay::engine::DelayEngine;

/// Delay of 4 frames, blocks of 2 every cycle: the first two cycles only
/// fill; flushing starts at the third cycle, which emits the first block.
#[test]
fn scenario_delay_four_blocks_of_two() {
    let mut engine: DelayEngine<f32> = DelayEngine::new(4);

    let (o1, o2) = engine.process(&[1.0, 2.0], &[10.0, 20.0]);
    assert_eq!(o1, Vec::<f32>::new());
    assert_eq!(o2, Vec::<f32>::new());
    assert!(!engine.is_flushing());

    let (o1, o2) = engine.process(&[3.0, 4.0], &[30.0, 40.0]);
    assert_eq!(o1, Vec::<f32>::new());
    assert_eq!(o2, Vec::<f32>::new());
    assert!(!engine.is_flushing());

    let (o1, o2) = engine.process(&[5.0, 6.0], &[50.0, 60.0]);
    assert_eq!(o1, vec![1.0, 2.0]);
    assert_eq!(o2, vec![10.0, 20.0]);
    assert!(engine.is_flushing());

    let (o1, o2) = engine.process(&[7.0, 8.0], &[70.0, 80.0]);
    assert_eq!(o1, vec![3.0, 4.0]);
    assert_eq!(o2, vec![30.0, 40.0]);
}

/// Channel imbalance edge case: channel 2's input arrives one cycle later
/// than channel 1's. Flushing is still triggered by channel 1 alone, and
/// both channels start emitting on the same cycle; each channel drains
/// exactly as many samples as it ingested that cycle, so the shorter
/// channel-2 buffer is never over-drained — it emits its own history.
#[test]
fn scenario_channel_two_one_cycle_late() {
    let mut engine: DelayEngine<f32> = DelayEngine::new(4);

    let (o1, o2) = engine.process(&[1.0, 2.0], &[]);
    assert_eq!(o1, Vec::<f32>::new());
    assert_eq!(o2, Vec::<f32>::new());

    let (o1, o2) = engine.process(&[3.0, 4.0], &[0.0, 0.0]);
    assert_eq!(o1, Vec::<f32>::new());
    assert_eq!(o2, Vec::<f32>::new());

    // Channel 1 has 4 buffered frames at the start of this cycle, so
    // flushing begins now, although channel 2 has buffered only 2.
    let (o1, o2) = engine.process(&[5.0, 6.0], &[0.0, 0.0]);
    assert!(engine.is_flushing());
    assert_eq!(o1, vec![1.0, 2.0]);
    assert_eq!(o2, vec![0.0, 0.0]);

    let (o1, o2) = engine.process(&[7.0, 8.0], &[0.0, 0.0]);
    assert_eq!(o1, vec![3.0, 4.0]);
    assert_eq!(o2, vec![0.0, 0.0]);
}

/// Delay of 0 frames: the engine flushes from the very first cycle and
/// emits every input block unchanged, with no added delay.
#[test]
fn zero_delay_emits_immediately() {
    let mut engine: DelayEngine<f32> = DelayEngine::new(0);

    let (o1, o2) = engine.process(&[1.0, 2.0, 3.0], &[4.0, 5.0, 6.0]);
    assert!(engine.is_flushing());
    assert_eq!(o1, vec![1.0, 2.0, 3.0]);
    assert_eq!(o2, vec![4.0, 5.0, 6.0]);

    let (o1, o2) = engine.process(&[7.0], &[8.0]);
    assert_eq!(o1, vec![7.0]);
    assert_eq!(o2, vec![8.0]);
}

/// Varying, host-chosen block sizes: the emitted stream is the ingested
/// stream shifted by exactly the configured delay, in order, with nothing
/// reordered, duplicated or lost.
#[test]
fn order_preserved_across_varying_blocks() {
    let mut engine: DelayEngine<f32> = DelayEngine::new(4);
    let blocks1: Vec<Vec<f32>> = vec![
        vec![1.0],
        vec![2.0, 3.0, 4.0],
        vec![5.0, 6.0],
        vec![7.0, 8.0, 9.0, 10.0],
    ];
    let blocks2: Vec<Vec<f32>> = vec![
        vec![-1.0],
        vec![-2.0, -3.0, -4.0],
        vec![-5.0, -6.0],
        vec![-7.0, -8.0, -9.0, -10.0],
    ];

    let mut emitted1: Vec<f32> = Vec::new();
    let mut emitted2: Vec<f32> = Vec::new();
    for (b1, b2) in blocks1.iter().zip(blocks2.iter()) {
        let (o1, o2) = engine.process(b1, b2);
        emitted1.extend(o1);
        emitted2.extend(o2);
    }

    // 10 frames went in per channel; all but the last 4 came out, in order.
    assert_eq!(emitted1, vec![1.0, 2.0, 3.0, 4.0, 5.0, 6.0]);
    assert_eq!(emitted2, vec![-1.0, -2.0, -3.0, -4.0, -5.0, -6.0]);
}

/// Chunking invariance: the same two sample streams, cut into cycles of
/// different block lengths, produce the same emitted stream.
#[test]
fn chunking_invariance_concrete() {
    let mut coarse: DelayEngine<f32> = DelayEngine::new(2);
    let mut fine: DelayEngine<f32> = DelayEngine::new(2);

    let mut coarse_out: Vec<f32> = Vec::new();
    for block in [vec![1.0f32, 2.0], vec![3.0, 4.0]] {
        let (o1, _o2) = coarse.process(&block, &block);
        coarse_out.extend(o1);
    }

    let mut fine_out: Vec<f32> = Vec::new();
    for block in [vec![1.0f32], vec![2.0], vec![3.0, 4.0]] {
        let (o1, _o2) = fine.process(&block, &block);
        fine_out.extend(o1);
    }

    assert_eq!(coarse_out, fine_out);
    assert_eq!(coarse_out, vec![1.0, 2.0]);
}

/// Flushing never reverts: once triggered it stays on, even across cycles
/// with empty blocks, and the configured delay never changes.
#[test]
fn flushing_is_latched() {
    let mut engine: DelayEngine<f32> = DelayEngine::new(2);
    assert_eq!(engine.delay_frames(), 2);
    assert!(!engine.is_flushing());

    engine.process(&[1.0, 2.0], &[1.0, 2.0]);
    assert!(!engine.is_flushing());

    let (o1, _o2) = engine.process(&[3.0, 4.0], &[3.0, 4.0]);
    assert!(engine.is_flushing());
    assert_eq!(o1, vec![1.0, 2.0]);

    // An empty cycle ingests and emits nothing but stays flushing.
    let (o1, o2) = engine.process(&[], &[]);
    assert!(engine.is_flushing());
    assert_eq!(o1, Vec::<f32>::new());
    assert_eq!(o2, Vec::<f32>::new());
    assert_eq!(engine.delay_frames(), 2);

    let (o1, _o2) = engine.process(&[5.0, 6.0], &[5.0, 6.0]);
    assert_eq!(o1, vec![3.0, 4.0]);
}
