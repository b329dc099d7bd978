use solforge::poll::{plan_poll_batch, poll_delay, PollDelay};

#[test]
fn last_block_starts_next_poll() {
    let b = plan_poll_batch(&vec![100, 101, 103, 104]);
    assert_eq!(b.slots, vec![100, 101, 103]);
    assert_eq!(b.next_start_slot, 104);
}

#[test]
fn single_block_processes_nothing() {
    let b = plan_poll_batch(&vec![7]);
    assert!(b.slots.is_empty());
    assert_eq!(b.next_start_slot, 7);
}

#[test]
fn consecutive_polls_process_each_block_once() {
    let fetches: Vec<Vec<u64>> = vec![vec![10, 11, 13], vec![13, 14], vec![14], vec![14, 20, 21]];
    let mut processed = Vec::new();
    let mut start = fetches[0][0];
    for f in &fetches {
        assert_eq!(f[0] >= start, true);
        let b = plan_poll_batch(f);
        processed.extend(b.slots);
        start = b.next_start_slot;
    }
    processed.push(start);
    assert_eq!(processed, vec![10, 11, 13, 14, 20, 21]);
}

#[test]
fn wait_is_rest_of_interval() {
    assert_eq!(poll_delay(300, 1000), PollDelay::Wait(700));
    assert_eq!(poll_delay(1000, 1000), PollDelay::Wait(0));
    assert_eq!(poll_delay(0, 1000), PollDelay::Wait(1000));
}

#[test]
fn overrun_when_poll_too_slow() {
    assert_eq!(poll_delay(1001, 1000), PollDelay::Overrun);
}

#[test]
fn wait_truncated_to_64_bits() {
    let interval: u128 = (1u128 << 64) + 5;
    assert_eq!(poll_delay(0, interval), PollDelay::Wait(5));
}
