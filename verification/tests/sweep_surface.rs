use relay_bench::chunking::round_delay;
use relay_bench::sweep::Sweep;

#[test]
fn trials_run_in_row_major_order() {
    let mut sweep = Sweep::new(vec![4, 6, 8], vec![20, 120, 220, 320]);
    let mut seen: Vec<(usize, u64)> = Vec::new();
    while let Some((chunk, delay)) = sweep.next_trial() {
        seen.push((chunk, delay));
        sweep.record(0);
    }
    let expected: Vec<(usize, u64)> = vec![
        (4, 20),
        (4, 120),
        (4, 220),
        (4, 320),
        (6, 20),
        (6, 120),
        (6, 220),
        (6, 320),
        (8, 20),
        (8, 120),
        (8, 220),
        (8, 320),
    ];
    assert_eq!(seen, expected);
}

#[test]
fn surface_has_one_row_per_chunk_size_and_one_column_per_delay() {
    let mut sweep = Sweep::new(vec![1, 2], vec![0, 5, 9]);
    let mut cell: u64 = 0;
    while let Some(_) = sweep.next_trial() {
        sweep.record(cell);
        cell += 1;
    }
    let surface = sweep.into_surface();
    assert_eq!(surface.dims(), (2, 3));
    for r in 0..2 {
        for c in 0..3 {
            assert_eq!(surface.get(r, c), (r * 3 + c) as u64);
        }
    }
}

/// The end-to-end sweep of the benchmark, run against the relay model: a
/// 13-byte message one way and an 8-byte reply back, over every pair of
/// chunk sizes [1, 3, 5, 7, 9] and delays [0, 100, 200], three rounds each.
/// Every round of a trial picks up the same modeled delay, so the mean
/// round latency is that delay itself.
#[test]
fn modeled_sweep_of_the_example_exchange() {
    let chunk_sizes: Vec<usize> = vec![1, 3, 5, 7, 9];
    let delays: Vec<u64> = vec![0, 100, 200];
    let mut sweep = Sweep::new(chunk_sizes.clone(), delays.clone());
    while let Some((chunk, delay)) = sweep.next_trial() {
        let latency = round_delay(13, 8, chunk, delay).unwrap();
        sweep.record(latency);
    }
    let surface = sweep.into_surface();
    assert_eq!(surface.dims(), (5, 3));

    // chunks needed for 13 bytes out and 8 bytes back, per chunk size
    let sleeps: Vec<u64> = vec![13 + 8, 5 + 3, 3 + 2, 2 + 2, 2 + 1];
    for r in 0..5 {
        for c in 0..3 {
            assert_eq!(surface.get(r, c), sleeps[r] * delays[c]);
        }
        // latency grows left to right across each row as the delay grows
        assert!(surface.get(r, 0) < surface.get(r, 1));
        assert!(surface.get(r, 1) < surface.get(r, 2));
    }
}
