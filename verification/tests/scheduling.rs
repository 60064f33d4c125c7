use dgmeets::scheduler::ChunkScheduler;

#[test]
fn target_is_rate_times_duration() {
    let s = ChunkScheduler::new(48000, 10).unwrap();
    assert_eq!(s.target_samples(), 480000);
    assert_eq!(s.poll_quota(), 96000);
    assert_eq!(s.chunk_index(), 0);
    assert_eq!(s.pending_len(), 0);
}

#[test]
fn unrepresentable_parameters_give_no_scheduler() {
    assert!(ChunkScheduler::new(1, u64::MAX).is_none());
    assert!(ChunkScheduler::new(u32::MAX, u64::MAX / 1000).is_none());
    assert!(ChunkScheduler::new(0, u64::MAX / 1000).is_some());
    assert!(ChunkScheduler::new(0, u64::MAX / 1000 + 1).is_none());
}

#[test]
fn a_chunk_is_cut_when_enough_samples_came_together() {
    let mut s = ChunkScheduler::new(4, 1).unwrap();
    assert!(s.accept(vec![1, 2, 3]).is_none());
    assert_eq!(s.pending_len(), 3);
    let w = s.accept(vec![4, 5]).unwrap();
    assert_eq!(w.index, 1);
    assert_eq!(w.samples, vec![1, 2, 3, 4]);
    assert_eq!(w.start_ms, 0);
    assert_eq!(w.end_ms, 1000);
    assert_eq!(w.duration_ms, 1000);
    assert_eq!(s.pending_len(), 1);
    assert_eq!(s.chunk_index(), 1);
}

#[test]
fn every_chunk_has_exactly_rate_times_duration_samples() {
    let rate = 10u32;
    let secs = 3u64;
    let mut s = ChunkScheduler::new(rate, secs).unwrap();
    let mut n = 0;
    for poll in 0..200 {
        let block: Vec<i32> = (0..(poll % 6)).collect();
        if let Some(w) = s.accept(block) {
            n += 1;
            assert_eq!(w.samples.len(), 30);
            assert_eq!(w.end_ms - w.start_ms, 3000);
            assert_eq!(w.duration_ms, 3000);
            assert_eq!(w.end_ms, (w.index as u128) * 3000);
        }
    }
    assert!(n > 0);
}

#[test]
fn indices_count_up_from_one_without_gaps() {
    let mut s = ChunkScheduler::new(5, 1).unwrap();
    let mut seen = Vec::new();
    for poll in 0..100 {
        let len = [0usize, 1, 4, 0, 2, 1][poll % 6];
        if let Some(w) = s.accept(vec![0; len]) {
            seen.push(w.index);
        }
    }
    let expected: Vec<u64> = (1..=seen.len() as u64).collect();
    assert!(!seen.is_empty());
    assert_eq!(seen, expected);
    assert_eq!(s.chunk_index(), seen.len() as u64);
}

#[test]
fn samples_pass_through_in_order() {
    let mut s = ChunkScheduler::new(3, 1).unwrap();
    let mut fed = Vec::new();
    let mut out = Vec::new();
    let mut next = 0;
    for poll in 0..50 {
        let len = poll % 3;
        let block: Vec<i32> = (0..len).map(|_| { next += 1; next }).collect();
        fed.extend_from_slice(&block);
        if let Some(w) = s.accept(block) {
            out.extend(w.samples);
        }
    }
    assert_eq!(out[..], fed[..out.len()]);
    assert_eq!(out.len() + s.pending_len(), fed.len());
}

#[test]
fn an_empty_poll_changes_nothing() {
    let mut s = ChunkScheduler::new(2, 1).unwrap();
    assert!(s.accept(vec![1, 2, 3, 4, 5]).is_some());
    assert_eq!(s.pending_len(), 3);
    assert!(s.accept(vec![]).is_none());
    assert_eq!(s.pending_len(), 3);
    assert_eq!(s.chunk_index(), 1);
}

#[test]
fn one_poll_cuts_at_most_one_chunk() {
    let mut s = ChunkScheduler::new(2, 1).unwrap();
    let w = s.accept(vec![1, 2, 3, 4, 5]).unwrap();
    assert_eq!(w.samples, vec![1, 2]);
    let w = s.accept(vec![6]).unwrap();
    assert_eq!(w.samples, vec![3, 4]);
    assert_eq!(w.index, 2);
    assert_eq!(w.start_ms, 1000);
    assert_eq!(w.end_ms, 2000);
}
