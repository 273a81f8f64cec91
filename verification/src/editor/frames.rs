//! How long the last frames took.

use crate::ratio::{nearest_div, nearest_of};
use vstd::prelude::*;

verus! {

/// How many frames the average is over.
pub const FRAMES: usize = 60;

/// Ten to the twelfth: a second in nanoseconds, by the thousandths a rate is
/// given in.
pub const RATE: i128 = 1_000_000_000_000;

/// The last frames' times in nanoseconds, and where the next goes. A frame that
/// has not happened yet has a time of nothing.
#[derive(Debug)]
pub struct FrameTimes {
    pub times: Vec<u64>,
    pub cursor: usize,
}

/// The times of the first `n` frames together.
pub open spec fn total_of(times: Seq<u64>, n: int) -> int
    decreases n,
{
    if n <= 0 {
        0
    } else {
        total_of(times, n - 1) + times[n - 1]
    }
}

/// How many of the first `n` frames took any time.
pub open spec fn frames_of(times: Seq<u64>, n: int) -> int
    decreases n,
{
    if n <= 0 {
        0
    } else {
        frames_of(times, n - 1) + if times[n - 1] > 0 {
            1int
        } else {
            0
        }
    }
}

/// Frames a second, in thousandths, and nothing where there has been no frame.
pub open spec fn rate_of(times: Seq<u64>) -> int {
    let n = frames_of(times, times.len() as int);
    if n == 0 {
        0
    } else {
        nearest_of(n * RATE, total_of(times, times.len() as int))
    }
}

impl FrameTimes {
    pub open spec fn sound(self) -> bool {
        self.times@.len() == FRAMES && self.cursor < FRAMES
    }

    pub fn new() -> (r: FrameTimes)
        ensures
            r.sound(),
            r.times@ == Seq::new(FRAMES as nat, |i: int| 0u64),
            r.cursor == 0,
    {
        let mut times: Vec<u64> = Vec::new();
        let mut i: usize = 0;
        while i < FRAMES
            invariant
                i <= FRAMES,
                times@ == Seq::new(i as nat, |k: int| 0u64),
            decreases FRAMES - i,
        {
            times.push(0);
            i += 1;
        }
        FrameTimes { times, cursor: 0 }
    }

    /// Record how long a frame took, in place of the oldest.
    pub fn record(&mut self, nanos: u64)
        requires
            old(self).sound(),
        ensures
            final(self).sound(),
            final(self).times@ == old(self).times@.update(old(self).cursor as int, nanos),
            final(self).cursor == (old(self).cursor + 1) % FRAMES as int,
    {
        let at: usize = self.cursor;
        self.times.set(at, nanos);
        self.cursor = (at + 1) % FRAMES;
    }

    pub fn average(&self) -> (r: u64)
        requires
            self.sound(),
        ensures
            r == rate_of(self.times@),
    {
        let mut sum: i128 = 0;
        let mut n: i128 = 0;
        let mut i: usize = 0;
        while i < self.times.len()
            invariant
                self.sound(),
                i <= self.times@.len(),
                sum == total_of(self.times@, i as int),
                n == frames_of(self.times@, i as int),
                0 <= n <= i,
                n <= sum <= i * 0x1_0000_0000_0000_0000,
            decreases self.times@.len() - i,
        {
            let t: u64 = self.times[i];
            if t > 0 {
                n += 1;
            }
            sum += t as i128;
            i += 1;
        }
        if n == 0 {
            return 0;
        }
        proof {
            let (over, by) = (n * RATE, sum as int);
            assert(0 <= (2 * over + by) / (2 * by) <= 60_000_000_000_000) by (nonlinear_arith)
                requires
                    1 <= by,
                    0 <= over <= 60_000_000_000_000,
                    over == n * RATE,
                    n <= by,
                    0 < n <= 60,
                    RATE == 1_000_000_000_000,
            ;
        }
        nearest_div(n * RATE, sum) as u64
    }
}

/// Where every frame took the same time, the rate is how often that time goes
/// into a second.
pub proof fn a_steady_pace_is_its_own_average(times: Seq<u64>, nanos: u64)
    requires
        times.len() > 0,
        nanos > 0,
        forall|i: int| 0 <= i < times.len() ==> #[trigger] times[i] == nanos,
    ensures
        rate_of(times) == nearest_of(RATE as int, nanos as int),
{
    let n = times.len() as int;
    lemma_steady(times, nanos, n);
    let d = nanos as int;
    assert(nearest_of(n * RATE, n * d) == nearest_of(RATE as int, d)) by {
        assert(2 * (n * RATE) + n * d == n * (2 * RATE + d)) by (nonlinear_arith);
        assert(2 * (n * d) == n * (2 * d)) by (nonlinear_arith);
        vstd::arithmetic::div_mod::lemma_div_multiples_vanish_quotient(n, 2 * RATE + d, 2 * d);
    }
}

proof fn lemma_steady(times: Seq<u64>, nanos: u64, n: int)
    requires
        0 <= n <= times.len(),
        nanos > 0,
        forall|i: int| 0 <= i < times.len() ==> #[trigger] times[i] == nanos,
    ensures
        total_of(times, n) == n * nanos,
        frames_of(times, n) == n,
    decreases n,
{
    if n == 0 {
        assert(0 * nanos == 0) by (nonlinear_arith);
    } else {
        lemma_steady(times, nanos, n - 1);
        assert((n - 1) * nanos + nanos == n * nanos) by (nonlinear_arith);
    }
}

/// A rate is how many frames there were over how long they took, to half a
/// thousandth of a frame.
pub proof fn a_rate_is_frames_over_time(times: Seq<u64>)
    requires
        frames_of(times, times.len() as int) > 0,
    ensures
        ({
            let (n, sum) = (
                frames_of(times, times.len() as int),
                total_of(times, times.len() as int),
            );
            &&& sum >= n
            &&& -sum <= 2 * (rate_of(times) * sum - n * 1_000_000_000_000) <= sum
        }),
{
    lemma_counted(times, times.len() as int);
    let n = frames_of(times, times.len() as int);
    let sum = total_of(times, times.len() as int);
    let (over, q) = (n * RATE, rate_of(times));
    assert(over == n * 1_000_000_000_000) by (nonlinear_arith)
        requires
            over == n * RATE,
            RATE == 1_000_000_000_000,
    ;
    assert(-sum <= 2 * (q * sum - over) <= sum) by (nonlinear_arith)
        requires
            q == (2 * over + sum) / (2 * sum),
            sum > 0,
    ;
}

proof fn lemma_counted(times: Seq<u64>, n: int)
    requires
        0 <= n <= times.len(),
    ensures
        0 <= frames_of(times, n) <= total_of(times, n),
    decreases n,
{
    if n > 0 {
        lemma_counted(times, n - 1);
    }
}

/// A frame that has not happened yet counts for nothing, and one that has counts
/// once, with its time.
pub proof fn only_frames_that_happened_count(times: Seq<u64>, nanos: u64)
    ensures
        ({
            let n = times.len() as int;
            let more = times.push(nanos);
            &&& total_of(more, n + 1) == total_of(times, n) + nanos
            &&& nanos > 0 ==> frames_of(more, n + 1) == frames_of(times, n) + 1
            &&& nanos == 0 ==> frames_of(more, n + 1) == frames_of(times, n) && rate_of(more)
                == rate_of(times)
        }),
{
    let n = times.len() as int;
    lemma_same_counts(times, times.push(nanos), n);
}

proof fn lemma_same_counts(a: Seq<u64>, b: Seq<u64>, n: int)
    requires
        n <= a.len(),
        n <= b.len(),
        forall|i: int| 0 <= i < n ==> #[trigger] a[i] == b[i],
    ensures
        total_of(a, n) == total_of(b, n),
        frames_of(a, n) == frames_of(b, n),
    decreases n,
{
    if n > 0 {
        lemma_same_counts(a, b, n - 1);
        assert(a[n - 1] == b[n - 1]);
    }
}

} // verus!
