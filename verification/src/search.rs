use vstd::prelude::*;

use std::time::Instant;

use vstd::arithmetic::div_mod::{lemma_div_is_ordered, lemma_div_multiples_vanish};
use vstd::arithmetic::mul::{lemma_mul_inequality, lemma_mul_upper_bound};

use crate::primes::{is_prime, is_prime_spec};
use crate::progress::SharedProgress;

verus! {

/// How many primes lie in `1..=n`.
pub open spec fn prime_count_spec(n: nat) -> nat
    decreases n,
{
    if n == 0 {
        0
    } else {
        prime_count_spec((n - 1) as nat) + (if is_prime_spec(n as int) {
            1nat
        } else {
            0nat
        })
    }
}

/// The largest prime in `1..=n`, or 0 when the range holds none.
pub open spec fn highest_prime_spec(n: nat) -> nat
    decreases n,
{
    if n == 0 {
        0
    } else if is_prime_spec(n as int) {
        n
    } else {
        highest_prime_spec((n - 1) as nat)
    }
}

/// A range cannot hold more primes than numbers.
pub proof fn lemma_prime_count_at_most(n: nat)
    ensures
        prime_count_spec(n) <= n,
    decreases n,
{
    if n > 0 {
        lemma_prime_count_at_most((n - 1) as nat);
    }
}

/// The search worker's whole state: the fixed upper bound of the range, the
/// last candidate examined so far, the running tallies, and how the search
/// ended, if it has.
pub struct SearchWorker {
    pub upper_bound: u64,
    pub last_examined: u64,
    pub prime_count: u64,
    pub highest_prime: u64,
    pub running: bool,
    pub timed_out: bool,
}

impl SearchWorker {
    /// The worker's invariant: the tallies are exactly those of the examined
    /// prefix `1..=last_examined`, the prefix never outgrows the range, a
    /// timed-out worker has stopped short of the range's end, and a worker
    /// that stopped without timing out has exhausted the range.
    pub open spec fn wf(self) -> bool {
        &&& self.last_examined <= self.upper_bound
        &&& self.prime_count == prime_count_spec(self.last_examined as nat)
        &&& self.highest_prime == highest_prime_spec(self.last_examined as nat)
        &&& (self.timed_out ==> !self.running)
        &&& (self.timed_out ==> self.last_examined < self.upper_bound)
        &&& (!self.running && !self.timed_out ==> self.last_examined == self.upper_bound)
    }

    /// One move of the worker as a mathematical function of its state and of
    /// whether the wall-clock budget had run out when the move began.
    pub open spec fn step_spec(self, timeout_elapsed: bool) -> SearchWorker {
        if !self.running {
            self
        } else if timeout_elapsed {
            SearchWorker {
                upper_bound: self.upper_bound,
                last_examined: self.last_examined,
                prime_count: self.prime_count,
                highest_prime: self.highest_prime,
                running: false,
                timed_out: self.last_examined < self.upper_bound,
            }
        } else if self.last_examined >= self.upper_bound {
            SearchWorker {
                upper_bound: self.upper_bound,
                last_examined: self.last_examined,
                prime_count: self.prime_count,
                highest_prime: self.highest_prime,
                running: false,
                timed_out: self.timed_out,
            }
        } else {
            let candidate = self.last_examined + 1;
            SearchWorker {
                upper_bound: self.upper_bound,
                last_examined: candidate as u64,
                prime_count: if is_prime_spec(candidate) {
                    (self.prime_count + 1) as u64
                } else {
                    self.prime_count
                },
                highest_prime: if is_prime_spec(candidate) {
                    candidate as u64
                } else {
                    self.highest_prime
                },
                running: true,
                timed_out: self.timed_out,
            }
        }
    }

    /// The worker after a whole sequence of moves, one per observation of the
    /// budget.
    pub open spec fn run_steps_spec(self, events: Seq<bool>) -> SearchWorker
        decreases events.len(),
    {
        if events.len() == 0 {
            self
        } else {
            self.step_spec(events[0]).run_steps_spec(events.skip(1))
        }
    }

    /// The state a worker starts a search of `1..=upper_bound` in.
    pub open spec fn initial_spec(upper_bound: u64) -> SearchWorker {
        SearchWorker {
            upper_bound,
            last_examined: 0,
            prime_count: 0,
            highest_prime: 0,
            running: true,
            timed_out: false,
        }
    }

    /// A worker about to search `1..=upper_bound`: running, nothing examined.
    pub fn new(upper_bound: u64) -> (worker: SearchWorker)
        ensures
            worker == SearchWorker::initial_spec(upper_bound),
            worker.wf(),
            worker.upper_bound == upper_bound,
            worker.last_examined == 0,
            worker.prime_count == 0,
            worker.highest_prime == 0,
            worker.running,
            !worker.timed_out,
    {
        SearchWorker {
            upper_bound,
            last_examined: 0,
            prime_count: 0,
            highest_prime: 0,
            running: true,
            timed_out: false,
        }
    }

    /// The candidate the worker would examine next: the successor of the last
    /// one, as long as the worker is running and the range is not exhausted.
    pub fn next_candidate(&self) -> (candidate: Option<u64>)
        ensures
            candidate == (if self.running && self.last_examined < self.upper_bound {
                Some((self.last_examined + 1) as u64)
            } else {
                None::<u64>
            }),
    {
        if self.running && self.last_examined < self.upper_bound {
            Some(self.last_examined + 1)
        } else {
            None
        }
    }

    /// One move of the worker, given whether the wall-clock budget had run out
    /// when this move began. A running worker stops where the budget is spent
    /// (marking the timeout) or where the range is exhausted, and otherwise
    /// examines the next candidate, folding it into the tallies. Progress is
    /// monotone and bounded by the range; a stop is one-way, so the running
    /// flag falls at most once and a stopped worker never moves again.
    pub fn step(&mut self, timeout_elapsed: bool)
        requires
            old(self).wf(),
        ensures
            *final(self) == old(self).step_spec(timeout_elapsed),
            final(self).wf(),
            final(self).upper_bound == old(self).upper_bound,
            final(self).last_examined >= old(self).last_examined,
            final(self).last_examined <= final(self).upper_bound,
            final(self).running ==> old(self).running,
            !old(self).running ==> *final(self) == *old(self),
            old(self).running && timeout_elapsed ==> *final(self) == (SearchWorker {
                running: false,
                timed_out: old(self).last_examined < old(self).upper_bound,
                ..*old(self)
            }),
            old(self).running && !timeout_elapsed && old(self).last_examined
                == old(self).upper_bound ==> *final(self) == (SearchWorker {
                running: false,
                ..*old(self)
            }),
            old(self).running && !timeout_elapsed && old(self).last_examined
                < old(self).upper_bound ==> {
                &&& final(self).running
                &&& !final(self).timed_out
                &&& final(self).last_examined == old(self).last_examined + 1
            },
    {
        if !self.running {
            return;
        }
        if timeout_elapsed {
            // The range may have been exhausted in the same instant; only a
            // stop short of the range's end counts as a timeout.
            self.timed_out = self.last_examined < self.upper_bound;
            self.running = false;
            return;
        }
        if self.last_examined >= self.upper_bound {
            self.running = false;
            return;
        }
        let candidate = self.last_examined + 1;
        self.last_examined = candidate;
        proof {
            lemma_prime_count_at_most((candidate - 1) as nat);
        }
        if is_prime(candidate) {
            self.prime_count = self.prime_count + 1;
            self.highest_prime = candidate;
        }
    }
}

/// One move keeps a worker well formed, keeps its range, never moves its
/// position backwards or past the range's end, and never raises a lowered
/// running flag.
pub proof fn lemma_step_spec_preserves(worker: SearchWorker, timeout_elapsed: bool)
    requires
        worker.wf(),
    ensures
        worker.step_spec(timeout_elapsed).wf(),
        worker.step_spec(timeout_elapsed).upper_bound == worker.upper_bound,
        worker.step_spec(timeout_elapsed).last_examined >= worker.last_examined,
        worker.step_spec(timeout_elapsed).last_examined <= worker.upper_bound,
        worker.step_spec(timeout_elapsed).running ==> worker.running,
{
    if worker.running && !timeout_elapsed && worker.last_examined < worker.upper_bound {
        lemma_prime_count_at_most(worker.last_examined as nat);
    }
}

/// Monotonic progress: over any sequence of budget observations, a well
/// formed worker stays well formed, its position never decreases, and it
/// never examines a candidate beyond the range's end.
pub proof fn lemma_progress_monotonic(worker: SearchWorker, events: Seq<bool>)
    requires
        worker.wf(),
    ensures
        worker.run_steps_spec(events).wf(),
        worker.run_steps_spec(events).upper_bound == worker.upper_bound,
        worker.run_steps_spec(events).last_examined >= worker.last_examined,
        worker.run_steps_spec(events).last_examined <= worker.upper_bound,
    decreases events.len(),
{
    if events.len() > 0 {
        lemma_step_spec_preserves(worker, events[0]);
        lemma_progress_monotonic(worker.step_spec(events[0]), events.skip(1));
    }
}

/// Running the machine one move further is the same as one more move after
/// the run: the recursion of `run_steps_spec` peels events off the front, and
/// this turns it around.
pub proof fn lemma_run_steps_snoc(worker: SearchWorker, events: Seq<bool>, last_event: bool)
    ensures
        worker.run_steps_spec(events.push(last_event)) == worker.run_steps_spec(
            events,
        ).step_spec(last_event),
    decreases events.len(),
{
    if events.len() == 0 {
        reveal_with_fuel(SearchWorker::run_steps_spec, 2);
        assert(events.push(last_event)[0] == last_event);
        assert(events.push(last_event).skip(1) =~= Seq::<bool>::empty());
    } else {
        assert(events.push(last_event)[0] == events[0]);
        assert(events.push(last_event).skip(1) =~= events.skip(1).push(last_event));
        lemma_run_steps_snoc(worker.step_spec(events[0]), events.skip(1), last_event);
    }
}

/// The stop is permanent: once the running flag has fallen, no sequence of
/// further observations changes the worker at all, so within one search the
/// flag falls at most once and is never seen to rise again.
pub proof fn lemma_stop_is_permanent(worker: SearchWorker, events: Seq<bool>)
    requires
        !worker.running,
    ensures
        worker.run_steps_spec(events) == worker,
    decreases events.len(),
{
    if events.len() > 0 {
        lemma_stop_is_permanent(worker.step_spec(events[0]), events.skip(1));
    }
}

/// What one search produced: the tallies over the examined prefix, where the
/// examination stopped, the wall-clock milliseconds it took, and whether it
/// was cut short by the budget.
#[derive(Clone, Copy, Debug, PartialEq, Eq, Structural)]
pub struct SearchOutcome {
    pub prime_count: u64,
    pub highest_prime: u64,
    pub last_examined: u64,
    pub elapsed_millis: u64,
    pub timed_out: bool,
}

/// Whether `outcome` is exactly where a run of the worker machine along
/// `events` ends, with the machine stopped.
pub open spec fn outcome_of_a_run(upper_bound: u64, events: Seq<bool>, outcome: SearchOutcome) -> bool {
    let end = SearchWorker::initial_spec(upper_bound).run_steps_spec(events);
    &&& !end.running
    &&& outcome.prime_count == end.prime_count
    &&& outcome.highest_prime == end.highest_prime
    &&& outcome.last_examined == end.last_examined
    &&& outcome.timed_out == end.timed_out
}

/// Whether the wall-clock budget is spent: more whole milliseconds have
/// passed since `start` than the budget allows. The answer depends on the
/// clock, so nothing is claimed of it; the search is correct either way.
fn budget_spent(start: &Instant, budget_millis: u64) -> bool {
    start.elapsed().as_millis() > budget_millis as u128
}

/// Whole milliseconds since `start`, saturated to the result's width.
fn elapsed_millis_since(start: &Instant) -> u64 {
    let millis = start.elapsed().as_millis();
    if millis > u64::MAX as u128 {
        u64::MAX
    } else {
        millis as u64
    }
}

/// One whole search of `1..=upper_bound` under a wall-clock budget of
/// `budget_millis` milliseconds, checked once per candidate, before the
/// candidate is examined. Each candidate is published to `progress` before
/// its primality test runs, and the running flag is lowered exactly once, on
/// the way out. The tallies returned are exactly those of the examined prefix
/// `1..=last_examined`; a search that was not timed out examined the whole
/// range, and a timed-out one stopped strictly short of it.
pub fn run_search(upper_bound: u64, budget_millis: u64, progress: &SharedProgress) -> (outcome:
    SearchOutcome)
    ensures
        outcome.last_examined <= upper_bound,
        outcome.prime_count == prime_count_spec(outcome.last_examined as nat),
        outcome.highest_prime == highest_prime_spec(outcome.last_examined as nat),
        !outcome.timed_out ==> outcome.last_examined == upper_bound,
        !outcome.timed_out ==> outcome.prime_count == prime_count_spec(upper_bound as nat),
        !outcome.timed_out ==> outcome.highest_prime == highest_prime_spec(upper_bound as nat),
        outcome.timed_out ==> outcome.last_examined < upper_bound,
        exists|events: Seq<bool>| outcome_of_a_run(upper_bound, events, outcome),
{
    let start = Instant::now();
    let mut worker = SearchWorker::new(upper_bound);
    let ghost mut trace: Seq<bool> = Seq::empty();
    while worker.running
        invariant
            worker.wf(),
            worker.upper_bound == upper_bound,
            worker == SearchWorker::initial_spec(upper_bound).run_steps_spec(trace),
        decreases
            upper_bound - worker.last_examined + (if worker.running {
                1int
            } else {
                0int
            }),
    {
        let timeout_elapsed = budget_spent(&start, budget_millis);
        if !timeout_elapsed {
            match worker.next_candidate() {
                Some(candidate) => progress.publish_last_examined(candidate),
                None => {},
            }
        }
        worker.step(timeout_elapsed);
        proof {
            lemma_run_steps_snoc(SearchWorker::initial_spec(upper_bound), trace, timeout_elapsed);
            trace = trace.push(timeout_elapsed);
        }
    }
    progress.publish_stopped();
    let outcome = SearchOutcome {
        prime_count: worker.prime_count,
        highest_prime: worker.highest_prime,
        last_examined: worker.last_examined,
        elapsed_millis: elapsed_millis_since(&start),
        timed_out: worker.timed_out,
    };
    proof {
        assert(outcome_of_a_run(upper_bound, trace, outcome));
    }
    outcome
}

/// The share of the range `1..=upper_bound` that a search examined before it
/// stopped, in hundredths of a percent, rounded down: exactly
/// `(10000 * last_examined) / upper_bound`.
pub fn coverage_centipercent(last_examined: u64, upper_bound: u64) -> (coverage: u64)
    requires
        upper_bound > 0,
        last_examined <= upper_bound,
    ensures
        coverage == (10000 * last_examined as int) / (upper_bound as int),
        coverage <= 10000,
{
    proof {
        lemma_mul_upper_bound(10000, 10000, last_examined as int, u64::MAX as int);
        lemma_mul_inequality(last_examined as int, upper_bound as int, 10000);
        assert(10000 * last_examined as int == last_examined as int * 10000) by (nonlinear_arith);
        assert(10000 * upper_bound as int == upper_bound as int * 10000) by (nonlinear_arith);
        lemma_div_is_ordered(
            10000 * last_examined as int,
            10000 * upper_bound as int,
            upper_bound as int,
        );
        lemma_div_multiples_vanish(10000, upper_bound as int);
    }
    let wide: u128 = 10000u128 * (last_examined as u128);
    let quotient: u128 = wide / (upper_bound as u128);
    quotient as u64
}

} // verus!
