use modular_agent_audio::ring::{capture_ring, offer, take_block};

#[test]
fn words_come_out_in_the_order_they_went_in() {
    let (mut producer, mut consumer) = capture_ring(4, 1);
    assert_eq!(offer(&mut producer, &[1, 2, 3, 4, 5]), 0);
    assert_eq!(take_block(&mut consumer, 2), Some(vec![1, 2]));
    assert_eq!(take_block(&mut consumer, 3), Some(vec![3, 4, 5]));
    assert_eq!(take_block(&mut consumer, 1), None);
}

#[test]
fn a_ring_holds_six_seconds() {
    let (mut producer, mut consumer) = capture_ring(4, 2);
    let words: Vec<u32> = (0..50).collect();
    assert_eq!(offer(&mut producer, &words), 2);
    assert_eq!(take_block(&mut consumer, 48), Some(words[..48].to_vec()));
}

#[test]
fn blocks_run_over_the_end_of_the_ring() {
    let (mut producer, mut consumer) = capture_ring(1, 1);
    for round in 0..20u32 {
        assert_eq!(offer(&mut producer, &[round, round + 100, round + 200, round + 300]), 0);
        let block = take_block(&mut consumer, 4);
        assert_eq!(block, Some(vec![round, round + 100, round + 200, round + 300]));
    }
}

#[test]
fn a_full_ring_drops_the_newest() {
    let (mut producer, mut consumer) = capture_ring(1, 1);
    assert_eq!(offer(&mut producer, &[1, 2, 3, 4, 5, 6, 7, 8]), 2);
    assert_eq!(take_block(&mut consumer, 1), Some(vec![1]));
    assert_eq!(offer(&mut producer, &[9, 10]), 1);
    assert_eq!(take_block(&mut consumer, 6), Some(vec![2, 3, 4, 5, 6, 9]));
}

#[test]
fn a_block_too_large_leaves_the_ring_alone() {
    let (mut producer, mut consumer) = capture_ring(1, 1);
    offer(&mut producer, &[1, 2, 3]);
    assert_eq!(take_block(&mut consumer, 4), None);
    assert_eq!(take_block(&mut consumer, 7), None);
    assert_eq!(take_block(&mut consumer, 0), Some(vec![]));
    assert_eq!(take_block(&mut consumer, 3), Some(vec![1, 2, 3]));
}

#[test]
fn a_ring_without_room_takes_nothing() {
    let (mut producer, mut consumer) = capture_ring(0, 2);
    assert_eq!(offer(&mut producer, &[1]), 1);
    assert_eq!(take_block(&mut consumer, 0), Some(vec![]));
    assert_eq!(take_block(&mut consumer, 1), None);
}

#[test]
fn samples_survive_the_trip() {
    let (mut producer, mut consumer) = capture_ring(1, 1);
    let samples = [0.5f32, -0.25, f32::MIN_POSITIVE];
    let words: Vec<u32> = samples.iter().map(|s| s.to_bits()).collect();
    offer(&mut producer, &words);
    let back: Vec<f32> = take_block(&mut consumer, 3)
        .unwrap()
        .into_iter()
        .map(f32::from_bits)
        .collect();
    assert_eq!(back, samples);
}

#[test]
fn the_first_words_find_the_free_places() {
    let (mut producer, mut consumer) = capture_ring(1, 1);
    offer(&mut producer, &[1, 2]);
    assert_eq!(offer(&mut producer, &[3, 4, 5, 6, 7, 8]), 2);
    assert_eq!(take_block(&mut consumer, 6), Some(vec![1, 2, 3, 4, 5, 6]));
}
