//! Tempo detection from the intervals between clock pulses.
use vstd::arithmetic::div_mod::*;
use vstd::prelude::*;

use crate::clock::{abs, trunc_div, Time};

verus! {

/// Number of intervals remembered.
pub const SLOTS: usize = 6;

/// The longest interval, in cycles, that a prediction takes.
pub const INTERVAL_MAX: i64 = 0x100_0000_0000;

/// Bound on the size of a prediction.
pub const PREDICTED_MAX: i64 = 0x4_0000_0000_0000;

/// The intervals remembered at `pos`, `pos + 2`, ... up to the first empty
/// slot.
pub open spec fn series_from<const CLK: u32>(iv: Seq<Option<Time<CLK>>>, pos: int) -> Seq<int>
    decreases iv.len() + 2 - pos,
{
    if pos < 0 || pos >= iv.len() || iv[pos].is_none() {
        Seq::empty()
    } else {
        seq![iv[pos]->Some_0.count as int] + series_from(iv, pos + 2)
    }
}

/// The sum of `ys`.
pub open spec fn seq_sum(ys: Seq<int>) -> int
    decreases ys.len(),
{
    if ys.len() == 0 {
        0
    } else {
        seq_sum(ys.drop_last()) + ys.last()
    }
}

/// The sum of `(x - mx)^2` over `x` in `0..k`.
pub open spec fn var_sum(k: nat, mx: int) -> int
    decreases k,
{
    if k == 0 {
        0
    } else {
        var_sum((k - 1) as nat, mx) + (k - 1 - mx) * (k - 1 - mx)
    }
}

/// The sum of `(x - mx) * (ys[x] - my)` over the positions `x` of `ys`.
pub open spec fn cov_sum(ys: Seq<int>, mx: int, my: int) -> int
    decreases ys.len(),
{
    if ys.len() == 0 {
        0
    } else {
        cov_sum(ys.drop_last(), mx, my) + (ys.len() - 1 - mx) * (ys.last() - my)
    }
}

/// Intercept and slope of a straight line fitted to `ys` against their
/// positions, in whole numbers rounded toward zero at each step; `(0, 0)`
/// where the values sum to zero or the positions do not vary.
pub open spec fn regress(ys: Seq<int>) -> (int, int) {
    let count = ys.len() as int;
    let sum = seq_sum(ys);
    if sum == 0 {
        (0, 0)
    } else {
        let my = trunc_div(sum, count);
        let mx = trunc_div(count * (count + 1) / 2, sum);
        let var = var_sum(count as nat, mx);
        let cov = cov_sum(ys, mx, my);
        if var == 0 {
            (0, 0)
        } else {
            let b1 = trunc_div(cov, var);
            (my - b1 * mx, b1)
        }
    }
}

/// A whole-number quotient is no larger than its dividend.
proof fn lemma_trunc_div_bound(a: int, b: int)
    requires
        b >= 1,
    ensures
        abs(trunc_div(a, b)) <= abs(a),
        a >= 0 ==> trunc_div(a, b) >= 0,
{
    lemma_div_is_ordered_by_denominator(abs(a), 1, b);
    lemma_div_pos_is_pos(abs(a), b);
}

/// Simple tempo detection. Measured intervals between clock pulses are kept
/// in six slots. A swing falls on every other beat, so a straight line is
/// fitted over either the even or the odd slots to predict the next
/// interval.
#[derive(Debug, Clone, Copy)]
pub struct Tempo<const CLK: u32> {
    intervals: [Option<Time<CLK>>; SLOTS],
    next: usize,
    predicted: i64,
}

impl<const CLK: u32> Tempo<CLK> {
    /// The remembered intervals, slot by slot.
    pub closed spec fn intervals(&self) -> Seq<Option<Time<CLK>>> {
        self.intervals@
    }

    /// The slot written next.
    pub closed spec fn next_slot(&self) -> nat {
        self.next as nat
    }

    /// The last prediction.
    pub closed spec fn predicted(&self) -> int {
        self.predicted as int
    }

    /// Slots and prediction stay within the bounds that keep the arithmetic
    /// exact.
    pub closed spec fn wf(&self) -> bool {
        &&& self.next <= SLOTS
        &&& -PREDICTED_MAX <= self.predicted <= PREDICTED_MAX
        &&& forall|i: int|
            0 <= i < SLOTS ==> (#[trigger] self.intervals@[i]).is_some() ==> 0
                <= self.intervals@[i]->Some_0.count <= INTERVAL_MAX
    }

    /// A detector with no intervals and no prediction.
    pub fn new() -> (r: Self)
        ensures
            r.wf(),
            r.next_slot() == 0,
            r.predicted() == 0,
            forall|i: int| 0 <= i < SLOTS ==> (#[trigger] r.intervals()[i]).is_none(),
    {
        Tempo { intervals: [None; SLOTS], next: 0, predicted: 0 }
    }

    /// Keeps even and odd slots apart across a reset: where the next slot
    /// is odd, the clock cut a pattern short, and the slot moves on by one.
    pub fn reset(&mut self)
        requires
            old(self).wf(),
        ensures
            final(self).wf(),
            final(self).intervals() == old(self).intervals(),
            final(self).predicted() == old(self).predicted(),
            final(self).next_slot() == old(self).next_slot() + if old(self).next_slot() % 2 == 1 {
                1nat
            } else {
                0nat
            },
    {
        if self.next % 2 == 1 {
            self.next = self.next + 1;
        }
    }

    /// Fits a line over the series that starts at the parity of the next
    /// slot.
    fn linear_regress(&self) -> (r: (i64, i64))
        requires
            self.wf(),
            self.next < SLOTS,
        ensures
            (r.0 as int, r.1 as int) == regress(series_from(self.intervals(), (self.next % 2) as int)),
            abs(r.1 as int) <= 54 * INTERVAL_MAX,
            abs(r.0 as int) <= 327 * INTERVAL_MAX,
    {
        let start: usize = self.next % 2;
        let ghost iv = self.intervals@;
        let ghost ys = series_from(iv, start as int);
        let mut count: i64 = 0;
        let mut sum: i64 = 0;
        let mut pos: usize = start;
        let ghost mut taken: Seq<int> = Seq::empty();
        while pos < SLOTS && self.intervals[pos].is_some()
            invariant
                self.wf(),
                iv == self.intervals@,
                start < 2,
                ys == series_from(iv, start as int),
                pos == start + 2 * count,
                pos <= SLOTS + 1,
                count == taken.len(),
                ys == taken + series_from(iv, pos as int),
                sum == seq_sum(taken),
                0 <= sum <= count * INTERVAL_MAX,
            decreases SLOTS + 2 - pos,
        {
            let y: i64 = self.intervals[pos].unwrap().count;
            proof {
                assert(series_from(iv, pos as int) == seq![y as int] + series_from(
                    iv,
                    pos + 2,
                ));
                assert(taken.push(y as int).drop_last() =~= taken);
                assert(ys =~= taken.push(y as int) + series_from(iv, pos + 2));
                assert(0 <= y <= INTERVAL_MAX);
            }
            count = count + 1;
            sum = sum + y;
            pos = pos + 2;
            proof {
                taken = taken.push(y as int);
            }
        }
        assert(series_from(iv, pos as int) =~= Seq::<int>::empty());
        assert(ys =~= taken);
        assert(count <= 3);
        if sum == 0 {
            return (0, 0);
        }
        let mean_y: i64 = sum / count;
        assert(0 <= count * (count + 1) <= 12) by (nonlinear_arith)
            requires
                0 <= count <= 3,
        ;
        let tri: i64 = (count * (count + 1)) / 2;
        assert(tri <= 6);
        let mean_x: i64 = tri / sum;
        proof {
            lemma_trunc_div_bound(sum as int, count as int);
            lemma_trunc_div_bound(tri as int, sum as int);
        }
        let mut variance: i64 = 0;
        let mut covariance: i64 = 0;
        let mut x: i64 = 0;
        let mut pos: usize = start;
        let ghost mut seen: Seq<int> = Seq::empty();
        while pos < SLOTS && self.intervals[pos].is_some()
            invariant
                self.wf(),
                iv == self.intervals@,
                start < 2,
                pos == start + 2 * x,
                pos <= SLOTS + 1,
                x == seen.len(),
                ys == seen + series_from(iv, pos as int),
                ys.len() == count <= 3,
                0 <= mean_x <= 6,
                0 <= mean_y <= 3 * INTERVAL_MAX,
                variance == var_sum(x as nat, mean_x as int),
                covariance == cov_sum(seen, mean_x as int, mean_y as int),
                0 <= variance <= 36 * x,
                abs(covariance as int) <= 18 * INTERVAL_MAX * x,
            decreases SLOTS + 2 - pos,
        {
            let y: i64 = self.intervals[pos].unwrap().count;
            proof {
                assert(series_from(iv, pos as int) == seq![y as int] + series_from(
                    iv,
                    pos + 2,
                ));
                assert(seen.push(y as int).drop_last() =~= seen);
                assert(ys =~= seen.push(y as int) + series_from(iv, pos + 2));
                assert(0 <= y <= INTERVAL_MAX);
                assert(x < 3);
                let dx = x - mean_x;
                let dy = y - mean_y;
                assert(dx * dx <= 36) by (nonlinear_arith)
                    requires
                        -6 <= dx <= 2,
                ;
                assert(dx * dx >= 0) by (nonlinear_arith);
                assert(abs(dx * dy) <= 18 * INTERVAL_MAX) by (nonlinear_arith)
                    requires
                        -6 <= dx <= 2,
                        -3 * INTERVAL_MAX <= dy <= INTERVAL_MAX,
                ;
                assert(36 * x + 36 == 36 * (x + 1));
                assert(18 * INTERVAL_MAX * x <= 36 * INTERVAL_MAX) by (nonlinear_arith)
                    requires
                        0 <= x <= 2,
                ;
                assert(18 * INTERVAL_MAX * x + 18 * INTERVAL_MAX == 18 * INTERVAL_MAX * (x + 1))
                    by (nonlinear_arith);
            }
            variance = variance + (x - mean_x) * (x - mean_x);
            covariance = covariance + (x - mean_x) * (y - mean_y);
            x = x + 1;
            pos = pos + 2;
            proof {
                seen = seen.push(y as int);
            }
        }
        assert(series_from(iv, pos as int) =~= Seq::<int>::empty());
        assert(ys =~= seen);
        if variance == 0 {
            return (0, 0);
        }
        let b1: i64 = covariance / variance;
        proof {
            lemma_trunc_div_bound(covariance as int, variance as int);
            assert(abs(b1 * mean_x) <= 54 * INTERVAL_MAX * 6) by (nonlinear_arith)
                requires
                    abs(b1 as int) <= 54 * INTERVAL_MAX,
                    0 <= mean_x <= 6,
            ;
        }
        let b0: i64 = mean_y - b1 * mean_x;
        (b0, b1)
    }

    /// Takes a newly measured interval and returns the predicted next one.
    ///
    /// An interval over ten times the last prediction is read as a stop of
    /// the clock: the prediction is stored and handed back in its place,
    /// and the measured interval becomes the prediction to test the next
    /// one against. Otherwise the interval is stored and a line fitted over
    /// its series gives the prediction, or the interval itself where the
    /// line gives 0.
    pub fn predict(&mut self, interval: Time<CLK>) -> (r: Time<CLK>)
        requires
            old(self).wf(),
            0 <= interval.count <= INTERVAL_MAX,
        ensures
            final(self).wf(),
            ({
                let slot = if old(self).next_slot() >= SLOTS {
                    old(self).next_slot() % 2
                } else {
                    old(self).next_slot()
                };
                let p = old(self).predicted();
                if p > 0 && interval.count > 10 * p {
                    &&& r.count == p
                    &&& final(self).intervals() == old(self).intervals().update(
                        slot as int,
                        Some(Time { count: p as i64 }),
                    )
                    &&& final(self).next_slot() == slot + 1
                    &&& final(self).predicted() == interval.count
                } else {
                    let iv = old(self).intervals().update(slot as int, Some(interval));
                    let line = regress(series_from(iv, ((slot + 1) % 2) as int));
                    let guess = line.0 + line.1 * (slot + 1);
                    &&& final(self).intervals() == iv
                    &&& final(self).next_slot() == slot + 1
                    &&& final(self).predicted() == guess
                    &&& r.count == if guess == 0 {
                        interval.count as int
                    } else {
                        guess
                    }
                }
            }),
    {
        if self.next >= SLOTS {
            self.next = self.next % 2;
        }
        if self.predicted > 0 && interval.count > 10 * self.predicted {
            let guessed = Time { count: self.predicted };
            self.intervals[self.next] = Some(guessed);
            self.next = self.next + 1;
            self.predicted = interval.count;
            return guessed;
        }
        self.intervals[self.next] = Some(interval);
        self.next = self.next + 1;
        let (b0, b1) = self.linear_regress_after_write();
        proof {
            assert(abs(b1 * (self.next as i64)) <= 54 * INTERVAL_MAX * 6) by (nonlinear_arith)
                requires
                    abs(b1 as int) <= 54 * INTERVAL_MAX,
                    0 <= self.next <= 6,
            ;
        }
        let predicted: i64 = b0 + b1 * (self.next as i64);
        self.predicted = predicted;
        Time { count: if predicted == 0 { interval.count } else { predicted } }
    }

    /// `linear_regress` for a state whose next slot may be the one past the
    /// end.
    fn linear_regress_after_write(&self) -> (r: (i64, i64))
        requires
            self.wf(),
            0 < self.next <= SLOTS,
        ensures
            (r.0 as int, r.1 as int) == regress(series_from(self.intervals(), (self.next % 2) as int)),
            abs(r.1 as int) <= 54 * INTERVAL_MAX,
            abs(r.0 as int) <= 327 * INTERVAL_MAX,
    {
        if self.next < SLOTS {
            self.linear_regress()
        } else {
            let even = Tempo { intervals: self.intervals, next: 0, predicted: self.predicted };
            even.linear_regress()
        }
    }
}

} // verus!
