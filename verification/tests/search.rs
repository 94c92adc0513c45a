use prime_hunter::progress::SharedProgress;
use prime_hunter::search::{coverage_centipercent, run_search, SearchWorker};

#[test]
fn completes_without_timeout() {
    // Thirty candidates against a sixty-minute budget: the range is exhausted.
    let progress = SharedProgress::new();
    let outcome = run_search(30, 60 * 60 * 1000, &progress);
    assert_eq!(outcome.prime_count, 10);
    assert_eq!(outcome.highest_prime, 29);
    assert_eq!(outcome.last_examined, 30);
    assert!(!outcome.timed_out);
    assert!(!progress.is_running());
    assert_eq!(progress.last_examined(), 30);
}

#[test]
fn larger_range_tallies() {
    let progress = SharedProgress::new();
    let outcome = run_search(10000, 60 * 60 * 1000, &progress);
    assert_eq!(outcome.prime_count, 1229);
    assert_eq!(outcome.highest_prime, 9973);
    assert!(!outcome.timed_out);
}

#[test]
fn range_without_primes() {
    let progress = SharedProgress::new();
    let outcome = run_search(1, 60 * 60 * 1000, &progress);
    assert_eq!(outcome.prime_count, 0);
    assert_eq!(outcome.highest_prime, 0);
    assert_eq!(outcome.last_examined, 1);
    assert!(!outcome.timed_out);
}

#[test]
fn immediate_timeout_stops_short() {
    // A billion candidates against a zero budget: the search must report a
    // timeout and stop strictly short of the range's end.
    let progress = SharedProgress::new();
    let outcome = run_search(1_000_000_000, 0, &progress);
    assert!(outcome.timed_out);
    assert!(outcome.last_examined < 1_000_000_000);
    assert!(!progress.is_running());
}

#[test]
fn worker_progress_is_monotone_and_bounded() {
    let upper = 50u64;
    let mut worker = SearchWorker::new(upper);
    let mut seen = worker.last_examined;
    while worker.running {
        worker.step(false);
        assert!(worker.last_examined >= seen);
        assert!(worker.last_examined <= upper);
        seen = worker.last_examined;
    }
    assert_eq!(seen, upper);
}

#[test]
fn worker_stops_exactly_once() {
    let mut worker = SearchWorker::new(5);
    let mut was_running = worker.running;
    let mut falls = 0;
    for round in 0..10 {
        let timeout = round >= 8;
        worker.step(timeout);
        if was_running && !worker.running {
            falls += 1;
        }
        assert!(!(!was_running && worker.running), "the flag rose again");
        was_running = worker.running;
    }
    assert_eq!(falls, 1);
    assert!(!worker.timed_out);
}

#[test]
fn worker_timeout_is_immediate() {
    let mut worker = SearchWorker::new(10);
    worker.step(true);
    assert!(!worker.running);
    assert!(worker.timed_out);
    assert_eq!(worker.last_examined, 0);
    // A stopped worker never moves again, whatever it is told.
    worker.step(false);
    assert!(!worker.running);
    assert_eq!(worker.last_examined, 0);
}

#[test]
fn worker_exhaustion_is_not_a_timeout() {
    let mut worker = SearchWorker::new(2);
    worker.step(false);
    worker.step(false);
    assert_eq!(worker.last_examined, 2);
    assert_eq!(worker.prime_count, 1);
    assert_eq!(worker.highest_prime, 2);
    assert!(worker.running);
    // The budget runs out in the same move that finds the range exhausted.
    worker.step(true);
    assert!(!worker.running);
    assert!(!worker.timed_out);
}

#[test]
fn coverage_is_exact_hundredths_of_a_percent() {
    assert_eq!(coverage_centipercent(5, 10), 5000);
    assert_eq!(coverage_centipercent(1, 3), 3333);
    assert_eq!(coverage_centipercent(333, 1000), 3330);
    assert_eq!(coverage_centipercent(0, 7), 0);
    assert_eq!(coverage_centipercent(7, 7), 10000);
    assert_eq!(coverage_centipercent(u64::MAX - 1, u64::MAX), 9999);
}
