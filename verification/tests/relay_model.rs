use relay_bench::barrier::driver_decide;
use relay_bench::barrier::round_closed;
use relay_bench::barrier::simulate_rounds;
use relay_bench::barrier::DriverAction;
use relay_bench::chunking::chunk_count;
use relay_bench::chunking::chunk_prefix;
use relay_bench::chunking::reassemble;
use relay_bench::chunking::round_delay;
use relay_bench::chunking::split_chunks;
use relay_bench::trial::mean_round_latency;
use relay_bench::trial::Action;
use relay_bench::trial::Phase;
use relay_bench::trial::Trial;
use relay_bench::trial::TrialError;

#[test]
fn chunk_count_exact_values() {
    assert_eq!(chunk_count(13, 5), 3);
    assert_eq!(chunk_count(13, 1), 13);
    assert_eq!(chunk_count(13, 13), 1);
    assert_eq!(chunk_count(13, 100), 1);
    assert_eq!(chunk_count(0, 4), 0);
    assert_eq!(chunk_count(8, 4), 2);
    assert_eq!(chunk_count(9, 4), 3);
}

#[test]
fn chunk_prefix_takes_the_read_bytes() {
    let buf: Vec<u8> = vec![10, 20, 30, 40, 50];
    assert_eq!(chunk_prefix(&buf, 3), vec![10, 20, 30]);
    assert_eq!(chunk_prefix(&buf, 0), Vec::<u8>::new());
    assert_eq!(chunk_prefix(&buf, 5), buf);
}

#[test]
fn split_chunks_shapes_and_round_trip() {
    let message: Vec<u8> = b"hello world!\n".to_vec();
    let chunks = split_chunks(&message, 5);
    assert_eq!(chunks.len(), 3);
    assert_eq!(chunks[0].len(), 5);
    assert_eq!(chunks[1].len(), 5);
    assert_eq!(chunks[2].len(), 3);
    assert_eq!(reassemble(&chunks), message);

    let reply: Vec<u8> = b"goodbye\n".to_vec();
    let chunks = split_chunks(&reply, 4);
    assert_eq!(chunks.len(), 2);
    assert_eq!(chunks[0], b"good".to_vec());
    assert_eq!(chunks[1], b"bye\n".to_vec());
    assert_eq!(reassemble(&chunks), reply);

    let empty: Vec<u8> = Vec::new();
    assert_eq!(split_chunks(&empty, 7).len(), 0);
    assert_eq!(reassemble(&Vec::new()), empty);
}

#[test]
fn round_delay_counts_chunks_once_each() {
    // a 13-byte request and an 8-byte reply in 5-byte chunks: 3 + 2 sleeps
    assert_eq!(round_delay(13, 8, 5, 100), Some(500));
    assert_eq!(round_delay(13, 8, 5, 0), Some(0));
    assert_eq!(round_delay(13, 8, 1, 10), Some(210));
    assert_eq!(round_delay(0, 0, 3, 1000), Some(0));
    // two chunks of u64::MAX milliseconds each do not fit a u64
    assert_eq!(round_delay(1, 1, 1, u64::MAX), None);
}

#[test]
fn driver_decisions() {
    assert_eq!(driver_decide(0, 3, 0), DriverAction::Wait);
    assert_eq!(driver_decide(0, 3, 1), DriverAction::Execute);
    assert_eq!(driver_decide(1, 3, 1), DriverAction::Wait);
    assert_eq!(driver_decide(2, 3, 3), DriverAction::Execute);
    assert_eq!(driver_decide(3, 3, 3), DriverAction::Finish);
    assert!(!round_closed(0));
    assert!(!round_closed(1));
    assert!(round_closed(2));
}

#[test]
fn simulated_trial_runs_each_endpoint_exactly_iters_times() {
    assert_eq!(simulate_rounds(0), (0, 0));
    assert_eq!(simulate_rounds(1), (1, 1));
    assert_eq!(simulate_rounds(3), (3, 3));
    assert_eq!(simulate_rounds(10), (10, 10));
}

#[test]
fn trial_rejects_zero_chunk_size() {
    assert_eq!(Trial::new(0, 100, 3).unwrap_err(), TrialError::InvalidChunkSize);
    assert!(Trial::new(1, 100, 3).is_ok());
}

#[test]
fn trial_walks_its_phases_in_order() {
    let mut t = Trial::new(5, 100, 3).unwrap();
    assert_eq!(t.phase, Phase::Setup);
    assert_eq!(t.next_action(), Action::StartRelay);
    t.advance();
    assert_eq!(t.next_action(), Action::AwaitReady);
    t.advance();
    assert_eq!(t.next_action(), Action::StartDrivers);
    t.advance();
    assert_eq!(t.next_action(), Action::RunRound(1));
    t.advance();
    assert_eq!(t.next_action(), Action::RunRound(2));
    t.advance();
    assert_eq!(t.next_action(), Action::RunRound(3));
    t.advance();
    assert_eq!(t.next_action(), Action::StopAndJoin);
    t.advance();
    assert_eq!(t.next_action(), Action::Finished);
    assert_eq!(t.phase, Phase::Done);
}

#[test]
fn trial_with_no_iterations_opens_no_round() {
    let mut t = Trial::new(2, 50, 0).unwrap();
    t.advance(); // relay started
    t.advance(); // relay ready
    t.advance(); // drivers started
    assert_eq!(t.next_action(), Action::StopAndJoin);
    t.advance();
    assert_eq!(t.next_action(), Action::Finished);
}

#[test]
fn mean_round_latency_is_the_quotient() {
    assert_eq!(mean_round_latency(400, 3), 133);
    assert_eq!(mean_round_latency(0, 1), 0);
    assert_eq!(mean_round_latency(900, 3), 300);
}
