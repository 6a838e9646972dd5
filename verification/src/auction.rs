use vstd::prelude::*;

verus! {

/// One checkpoint of an auction curve: the rate bump reached `time_delta`
/// seconds after the checkpoint before it.
#[derive(Clone, Copy, Debug)]
pub struct PointAndTimeDelta {
    pub rate_bump: u16,
    pub time_delta: u16,
}

/// A Dutch-auction curve: the rate bump starts at `initial_rate_bump`, passes
/// through the checkpoints in order and reaches 0 at `start_time + duration`.
#[derive(Debug)]
pub struct AuctionData {
    pub start_time: u32,
    pub duration: u32,
    pub initial_rate_bump: u16,
    pub points_and_time_deltas: Vec<PointAndTimeDelta>,
}

/// The value at `t` of the line through `(t0, b0)` and `(t1, b1)`, rounded
/// toward zero.
pub open spec fn interpolate(t: int, t0: int, b0: int, t1: int, b1: int) -> int
    recommends
        t0 < t1,
{
    ((t - t0) * b1 + (t1 - t) * b0) / (t1 - t0)
}

impl AuctionData {
    /// The number of checkpoints.
    pub open spec fn point_count(&self) -> int {
        self.points_and_time_deltas@.len() as int
    }

    /// The time at which the auction ends.
    pub open spec fn finish_time(&self) -> int {
        self.start_time + self.duration
    }

    /// The time of checkpoint `k`, where checkpoint 0 is the start of the
    /// auction and checkpoint `k` is `points_and_time_deltas[k - 1]`.
    pub open spec fn point_time(&self, k: int) -> int
        decreases k,
    {
        if k <= 0 || k > self.point_count() {
            self.start_time as int
        } else {
            self.point_time(k - 1) + self.points_and_time_deltas@[k - 1].time_delta
        }
    }

    /// The rate bump at checkpoint `k`, counted as in `point_time`.
    pub open spec fn point_bump(&self, k: int) -> int {
        if k <= 0 || k > self.point_count() {
            self.initial_rate_bump as int
        } else {
            self.points_and_time_deltas@[k - 1].rate_bump as int
        }
    }

    /// The first checkpoint at or after `k` whose successor lies at or after
    /// `t`, or the last checkpoint if no successor does: the curve's segment
    /// that starts there holds `t`.
    pub open spec fn segment_from(&self, t: int, k: int) -> int
        decreases self.point_count() - k,
    {
        if 0 <= k < self.point_count() && t > self.point_time(k + 1) {
            self.segment_from(t, k + 1)
        } else {
            k
        }
    }

    /// The rate bump at time `t`: the initial bump up to the start, 0 from the
    /// end on, and between them the interpolation along the segment that
    /// holds `t`, the last of which runs from the last checkpoint to 0 at the
    /// end.
    pub open spec fn rate_bump_at(&self, t: int) -> int {
        if t <= self.start_time {
            self.initial_rate_bump as int
        } else if t >= self.finish_time() {
            0
        } else {
            let k = self.segment_from(t, 0);
            if k < self.point_count() {
                interpolate(
                    t,
                    self.point_time(k),
                    self.point_bump(k),
                    self.point_time(k + 1),
                    self.point_bump(k + 1),
                )
            } else {
                interpolate(t, self.point_time(k), self.point_bump(k), self.finish_time(), 0)
            }
        }
    }

    /// Every checkpoint lies strictly after the one before it.
    pub open spec fn deltas_positive(&self) -> bool {
        forall|i: int|
            0 <= i < self.point_count() ==> (#[trigger] self.points_and_time_deltas@[i]).time_delta
                > 0
    }

    /// No checkpoint's rate bump exceeds that of the checkpoint before it.
    pub open spec fn bumps_descend(&self) -> bool {
        forall|k: int|
            0 <= k < self.point_count() ==> #[trigger] self.point_bump(k + 1) <= self.point_bump(k)
    }
}

/// The cancellation premium at time `t` of an auction that starts at `start`
/// and lasts `duration`: 0 up to the start, `max_premium` from the end on, and
/// in between the elapsed share of `max_premium`, rounded down.
pub open spec fn premium_at(t: int, start: int, duration: int, max_premium: int) -> int {
    if t <= start {
        0
    } else if t - start >= duration {
        max_premium
    } else {
        ((t - start) * max_premium) / duration
    }
}

/// A value interpolated between two bumps lies between any bounds that hold
/// of both.
pub proof fn lemma_interpolate_between(t: int, t0: int, b0: int, t1: int, b1: int, lo: int, hi: int)
    requires
        t0 <= t <= t1,
        t0 < t1,
        0 <= lo <= b0 <= hi,
        lo <= b1 <= hi,
    ensures
        lo <= interpolate(t, t0, b0, t1, b1) <= hi,
{
    let d = t1 - t0;
    let num = (t - t0) * b1 + (t1 - t) * b0;
    assert(lo * d <= num <= hi * d) by (nonlinear_arith)
        requires
            t0 <= t <= t1,
            lo <= b0 <= hi,
            lo <= b1 <= hi,
            d == t1 - t0,
            num == (t - t0) * b1 + (t1 - t) * b0,
    ;
    assert(lo <= num / d <= hi) by (nonlinear_arith)
        requires
            d > 0,
            0 <= lo,
            lo * d <= num <= hi * d,
    ;
}

impl AuctionData {
    /// What `segment_from` finds: a checkpoint from `k` on, past every
    /// checkpoint that it skipped, and not past its own successor.
    pub proof fn lemma_segment_from(&self, t: int, k: int)
        requires
            0 <= k <= self.point_count(),
        ensures
            k <= self.segment_from(t, k) <= self.point_count(),
            self.segment_from(t, k) < self.point_count() ==> t <= self.point_time(
                self.segment_from(t, k) + 1,
            ),
            forall|j: int|
                k <= j < self.segment_from(t, k) ==> t > #[trigger] self.point_time(j + 1),
        decreases self.point_count() - k,
    {
        if k < self.point_count() && t > self.point_time(k + 1) {
            self.lemma_segment_from(t, k + 1);
        }
    }

    /// While the auction runs, the segment that holds `t` starts before `t`.
    pub proof fn lemma_segment_starts_before(&self, t: int)
        requires
            self.start_time < t,
        ensures
            0 <= self.segment_from(t, 0) <= self.point_count(),
            self.point_time(self.segment_from(t, 0)) < t,
            self.segment_from(t, 0) < self.point_count() ==> t <= self.point_time(
                self.segment_from(t, 0) + 1,
            ),
    {
        self.lemma_segment_from(t, 0);
        let s = self.segment_from(t, 0);
        if s > 0 {
            assert(t > self.point_time((s - 1) + 1));
        }
    }

    /// The rate bump is never negative and never above what 16 bits hold.
    pub proof fn lemma_rate_bump_bounded(&self, t: int)
        ensures
            0 <= self.rate_bump_at(t) <= 0xffff,
    {
        if self.start_time < t < self.finish_time() {
            self.lemma_segment_starts_before(t);
            let k = self.segment_from(t, 0);
            if k < self.point_count() {
                lemma_interpolate_between(
                    t,
                    self.point_time(k),
                    self.point_bump(k),
                    self.point_time(k + 1),
                    self.point_bump(k + 1),
                    0,
                    0xffff,
                );
            } else {
                lemma_interpolate_between(
                    t,
                    self.point_time(k),
                    self.point_bump(k),
                    self.finish_time(),
                    0,
                    0,
                    0xffff,
                );
            }
        }
    }
}

impl AuctionData {
    /// The curve starts at the initial rate bump.
    pub proof fn lemma_rate_bump_at_start(&self)
        ensures
            self.rate_bump_at(self.start_time as int) == self.initial_rate_bump,
    {
    }

    /// The curve ends at 0, unless the auction has no duration and so ends
    /// where it starts.
    pub proof fn lemma_rate_bump_at_finish(&self)
        requires
            self.duration > 0 || self.initial_rate_bump == 0,
        ensures
            self.rate_bump_at(self.finish_time()) == 0,
    {
    }

    /// Checkpoints do not go back in time.
    pub proof fn lemma_point_time_ascends(&self, j: int, k: int)
        requires
            0 <= j <= k <= self.point_count(),
        ensures
            self.point_time(j) <= self.point_time(k),
        decreases k - j,
    {
        if j < k {
            self.lemma_point_time_ascends(j, k - 1);
        }
    }

    /// Where no checkpoint's bump exceeds the one before it, a later
    /// checkpoint's bump does not exceed an earlier one's.
    pub proof fn lemma_point_bump_descends(&self, j: int, k: int)
        requires
            self.bumps_descend(),
            0 <= j <= k <= self.point_count(),
        ensures
            self.point_bump(k) <= self.point_bump(j),
        decreases k - j,
    {
        if j < k {
            self.lemma_point_bump_descends(j, k - 1);
            assert(self.point_bump((k - 1) + 1) <= self.point_bump(k - 1));
        }
    }

    /// A time after checkpoint `k` and not after checkpoint `k + 1` lies in
    /// the segment that starts at checkpoint `k`.
    pub proof fn lemma_segment_of(&self, t: int, k: int)
        requires
            0 <= k <= self.point_count(),
            self.point_time(k) < t,
            k < self.point_count() ==> t <= self.point_time(k + 1),
        ensures
            self.segment_from(t, 0) == k,
    {
        self.lemma_segment_from(t, 0);
        let s = self.segment_from(t, 0);
        if s < k {
            self.lemma_point_time_ascends(s + 1, k);
        } else if s > k {
            assert(t > self.point_time(k + 1));
        }
    }

    /// The curve is piecewise linear: while the auction runs, between two
    /// checkpoints that follow one another it is the line through them,
    /// rounded toward zero.
    pub proof fn lemma_rate_bump_between_points(&self, t: int, k: int)
        requires
            self.start_time < t < self.finish_time(),
            0 <= k < self.point_count(),
            self.point_time(k) < t <= self.point_time(k + 1),
        ensures
            self.rate_bump_at(t) == interpolate(
                t,
                self.point_time(k),
                self.point_bump(k),
                self.point_time(k + 1),
                self.point_bump(k + 1),
            ),
    {
        self.lemma_segment_of(t, k);
    }

    /// After the last checkpoint the curve is the line from it to 0 at the
    /// end of the auction, rounded toward zero.
    pub proof fn lemma_rate_bump_after_points(&self, t: int)
        requires
            self.start_time < t < self.finish_time(),
            self.point_time(self.point_count()) < t,
        ensures
            self.rate_bump_at(t) == interpolate(
                t,
                self.point_time(self.point_count()),
                self.point_bump(self.point_count()),
                self.finish_time(),
                0,
            ),
    {
        self.lemma_segment_of(t, self.point_count());
    }

    /// Where every checkpoint lies after the one before it, the curve takes
    /// at each checkpoint before the end of the auction that checkpoint's
    /// rate bump.
    pub proof fn lemma_rate_bump_at_point(&self, k: int)
        requires
            self.deltas_positive(),
            1 <= k <= self.point_count(),
            self.point_time(k) < self.finish_time(),
        ensures
            self.rate_bump_at(self.point_time(k)) == self.point_bump(k),
    {
        let t = self.point_time(k);
        assert(self.points_and_time_deltas@[k - 1].time_delta > 0);
        self.lemma_point_time_ascends(0, k - 1);
        self.lemma_segment_of(t, k - 1);
        let d = t - self.point_time(k - 1);
        let b0 = self.point_bump(k - 1);
        let b1 = self.point_bump(k);
        assert((d * b1 + (t - t) * b0) / d == b1) by (nonlinear_arith)
            requires
                d > 0,
        ;
    }

    /// Where no checkpoint's bump exceeds the one before it, the curve never
    /// rises: a later time has no higher rate bump.
    pub proof fn lemma_rate_bump_monotonic(&self, t1: int, t2: int)
        requires
            self.bumps_descend(),
            t1 <= t2,
        ensures
            self.rate_bump_at(t2) <= self.rate_bump_at(t1),
    {
        self.lemma_rate_bump_bounded(t1);
        self.lemma_rate_bump_bounded(t2);
        if t2 >= self.finish_time() {
        } else if t2 <= self.start_time {
        } else {
            self.lemma_segment_starts_before(t2);
            let k2 = self.segment_from(t2, 0);
            let hi2 = self.point_bump(k2);
            let end2 = if k2 < self.point_count() {
                self.point_time(k2 + 1)
            } else {
                self.finish_time()
            };
            let lo2 = if k2 < self.point_count() {
                self.point_bump(k2 + 1)
            } else {
                0
            };
            if k2 < self.point_count() {
                assert(self.point_bump(k2 + 1) <= self.point_bump(k2));
            }
            lemma_interpolate_between(t2, self.point_time(k2), hi2, end2, lo2, lo2, hi2);
            assert(self.rate_bump_at(t2) <= hi2);
            if t1 <= self.start_time {
                self.lemma_point_bump_descends(0, k2);
            } else {
                self.lemma_segment_starts_before(t1);
                self.lemma_segment_from(t1, 0);
                let k1 = self.segment_from(t1, 0);
                if k2 < k1 {
                    assert(t1 > self.point_time(k2 + 1));
                }
                let hi1 = self.point_bump(k1);
                let end1 = if k1 < self.point_count() {
                    self.point_time(k1 + 1)
                } else {
                    self.finish_time()
                };
                let lo1 = if k1 < self.point_count() {
                    self.point_bump(k1 + 1)
                } else {
                    0
                };
                if k1 < self.point_count() {
                    assert(self.point_bump(k1 + 1) <= self.point_bump(k1));
                }
                if k1 == k2 {
                    lemma_interpolate_descends(t1, t2, self.point_time(k1), hi1, end1, lo1);
                } else {
                    lemma_interpolate_between(t1, self.point_time(k1), hi1, end1, lo1, lo1, hi1);
                    self.lemma_point_bump_descends(k1 + 1, k2);
                }
            }
        }
    }
}

/// Along a line that does not rise, a later time has no higher value.
pub proof fn lemma_interpolate_descends(ta: int, tb: int, t0: int, b0: int, t1: int, b1: int)
    requires
        t0 <= ta <= tb <= t1,
        t0 < t1,
        0 <= b1 <= b0,
    ensures
        interpolate(tb, t0, b0, t1, b1) <= interpolate(ta, t0, b0, t1, b1),
{
    let d = t1 - t0;
    let na = (ta - t0) * b1 + (t1 - ta) * b0;
    let nb = (tb - t0) * b1 + (t1 - tb) * b0;
    assert(nb <= na) by (nonlinear_arith)
        requires
            ta <= tb,
            b1 <= b0,
            na == (ta - t0) * b1 + (t1 - ta) * b0,
            nb == (tb - t0) * b1 + (t1 - tb) * b0,
    ;
    assert(nb / d <= na / d) by (nonlinear_arith)
        requires
            d > 0,
            nb <= na,
    ;
}

/// The premium is nothing up to the start of the cancellation auction, grows
/// along a line while it runs, and is the whole of `max_premium` from its end
/// on. The last holds at the very start only if the premium there is nothing.
pub proof fn lemma_premium_ramp(t: int, start: int, duration: int, max_premium: int)
    requires
        0 <= duration,
        0 <= max_premium,
    ensures
        t <= start ==> premium_at(t, start, duration, max_premium) == 0,
        start < t < start + duration ==> premium_at(t, start, duration, max_premium) == ((t
            - start) * max_premium) / duration,
        t >= start + duration && (t > start || max_premium == 0) ==> premium_at(
            t,
            start,
            duration,
            max_premium,
        ) == max_premium,
        0 <= premium_at(t, start, duration, max_premium) <= max_premium,
{
    if start < t < start + duration {
        let e = t - start;
        assert(0 <= (e * max_premium) / duration <= max_premium) by (nonlinear_arith)
            requires
                0 < e < duration,
                0 <= max_premium,
        ;
    }
}

/// The premium never falls: a later time has no lower premium.
pub proof fn lemma_premium_monotonic(t1: int, t2: int, start: int, duration: int, max_premium: int)
    requires
        0 <= duration,
        0 <= max_premium,
        t1 <= t2,
    ensures
        premium_at(t1, start, duration, max_premium) <= premium_at(
            t2,
            start,
            duration,
            max_premium,
        ),
{
    lemma_premium_ramp(t1, start, duration, max_premium);
    lemma_premium_ramp(t2, start, duration, max_premium);
    if start < t1 && t2 < start + duration {
        let e1 = t1 - start;
        let e2 = t2 - start;
        assert((e1 * max_premium) / duration <= (e2 * max_premium) / duration)
            by (nonlinear_arith)
            requires
                0 < e1 <= e2,
                0 < duration,
                0 <= max_premium,
        ;
    }
}

proof fn lemma_mul_bounds(a: int, b: int, x: int, y: int)
    by (nonlinear_arith)
    requires
        0 <= a <= x,
        0 <= b <= y,
    ensures
        0 <= a * b <= x * y,
{
}

/// The rate bump that `data` gives at `timestamp`. No timestamp and no curve
/// makes the arithmetic leave 64 bits: bumps and time deltas are 16 bits
/// wide, and a timestamp that is priced along a segment lies before the end
/// of the auction, which is less than 2^33.
pub fn calculate_rate_bump(timestamp: u64, data: &AuctionData) -> (r: u64)
    ensures
        r == data.rate_bump_at(timestamp as int),
{
    if timestamp <= data.start_time as u64 {
        return data.initial_rate_bump as u64;
    }
    let auction_finish_time: u64 = data.start_time as u64 + data.duration as u64;
    if timestamp >= auction_finish_time {
        return 0;
    }
    let mut current_rate_bump: u64 = data.initial_rate_bump as u64;
    let mut current_point_time: u64 = data.start_time as u64;
    let n: usize = data.points_and_time_deltas.len();
    let mut i: usize = 0;
    while i < n
        invariant
            i <= n,
            n == data.point_count(),
            auction_finish_time == data.finish_time(),
            data.start_time < timestamp < auction_finish_time,
            current_point_time == data.point_time(i as int),
            current_rate_bump == data.point_bump(i as int),
            current_point_time < timestamp,
            data.segment_from(timestamp as int, 0) == data.segment_from(
                timestamp as int,
                i as int,
            ),
        decreases n - i,
    {
        let point: PointAndTimeDelta = data.points_and_time_deltas[i];
        let next_rate_bump: u64 = point.rate_bump as u64;
        let point_time_delta: u64 = point.time_delta as u64;
        let next_point_time: u64 = current_point_time + point_time_delta;
        assert(next_point_time == data.point_time(i + 1));
        assert(next_rate_bump == data.point_bump(i + 1));
        if timestamp <= next_point_time {
            proof {
                lemma_mul_bounds(
                    timestamp - current_point_time,
                    next_rate_bump as int,
                    0xffff,
                    0xffff,
                );
                lemma_mul_bounds(
                    next_point_time - timestamp,
                    current_rate_bump as int,
                    0xffff,
                    0xffff,
                );
            }
            return ((timestamp - current_point_time) * next_rate_bump + (next_point_time
                - timestamp) * current_rate_bump) / point_time_delta;
        }
        current_rate_bump = next_rate_bump;
        current_point_time = next_point_time;
        i += 1;
    }
    proof {
        lemma_mul_bounds(
            current_rate_bump as int,
            auction_finish_time - timestamp,
            0xffff,
            0x1_ffff_ffff,
        );
        assert((timestamp - current_point_time) * 0 == 0);
        assert((auction_finish_time - timestamp) * current_rate_bump == current_rate_bump * (
        auction_finish_time - timestamp)) by (nonlinear_arith);
    }
    current_rate_bump * (auction_finish_time - timestamp) / (auction_finish_time
        - current_point_time)
}

/// The premium that a resolver earns for cancelling at `timestamp` an order
/// whose cancellation auction starts at `auction_start_time`. The elapsed
/// share is computed in 128 bits, so that no premium is too large for it.
pub fn calculate_premium(
    timestamp: u32,
    auction_start_time: u32,
    auction_duration: u32,
    max_cancellation_premium: u64,
) -> (r: u64)
    ensures
        r == premium_at(
            timestamp as int,
            auction_start_time as int,
            auction_duration as int,
            max_cancellation_premium as int,
        ),
{
    if timestamp <= auction_start_time {
        return 0;
    }
    let time_elapsed: u32 = timestamp - auction_start_time;
    if time_elapsed >= auction_duration {
        return max_cancellation_premium;
    }
    proof {
        lemma_mul_bounds(
            time_elapsed as int,
            max_cancellation_premium as int,
            0xffff_ffff,
            0xffff_ffff_ffff_ffff,
        );
    }
    let product: u128 = time_elapsed as u128 * max_cancellation_premium as u128;
    let share: u128 = product / auction_duration as u128;
    proof {
        assert(share <= max_cancellation_premium) by (nonlinear_arith)
            requires
                share == (time_elapsed * max_cancellation_premium) / (auction_duration as int),
                0 <= time_elapsed < auction_duration,
                0 <= max_cancellation_premium,
        ;
    }
    share as u64
}

} // verus!
