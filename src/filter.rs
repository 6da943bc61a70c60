//! Two-stage position filter: a median over the last five raw samples,
//! followed by an exponential moving average of the median.
use vstd::prelude::*;

verus! {

/// Number of raw samples in the median window.
pub const HISTORY_LEN: usize = 5;

/// Fixed-point scale of the smoothed estimate: this many units make one raw count.
pub const EMA_SCALE: u32 = 1000;

/// The average moves `1 / EMA_DIVISOR` (2%) of the way to the new median on
/// each sample, rounded away from the old estimate; it keeps 98% of the old value.
pub const EMA_DIVISOR: u32 = 50;

/// How many of the five samples lie strictly below `m`.
pub open spec fn count_below(h: Seq<u16>, m: int) -> int {
    (if h[0] < m { 1int } else { 0 }) + (if h[1] < m { 1int } else { 0 }) + (if h[2] < m {
        1int
    } else {
        0
    }) + (if h[3] < m { 1int } else { 0 }) + (if h[4] < m { 1int } else { 0 })
}

/// How many of the five samples lie strictly above `m`.
pub open spec fn count_above(h: Seq<u16>, m: int) -> int {
    (if h[0] > m { 1int } else { 0 }) + (if h[1] > m { 1int } else { 0 }) + (if h[2] > m {
        1int
    } else {
        0
    }) + (if h[3] > m { 1int } else { 0 }) + (if h[4] > m { 1int } else { 0 })
}

/// `m` is the median of the five samples: one of them, with at most two
/// samples below it and at most two above it.
pub open spec fn is_median(h: Seq<u16>, m: int) -> bool {
    &&& exists|j: int| 0 <= j < 5 && h[j] == m
    &&& count_below(h, m) <= 2
    &&& count_above(h, m) <= 2
}

/// The median of five samples.
pub open spec fn median(h: Seq<u16>) -> int {
    choose|m: int| is_median(h, m)
}

/// One step of the moving average from `ema` toward `target`: 2% of the
/// distance, rounded up so that the estimate always moves while it differs.
pub open spec fn ema_toward(ema: int, target: int) -> int {
    if target >= ema {
        ema + (target - ema + EMA_DIVISOR - 1) / (EMA_DIVISOR as int)
    } else {
        ema - (ema - target + EMA_DIVISOR - 1) / (EMA_DIVISOR as int)
    }
}

/// The state of a [`PositionFilter`] as mathematical values.
pub struct FilterView {
    /// The last five raw samples, as a ring.
    pub history: Seq<u16>,
    /// The ring slot that the next sample overwrites.
    pub next: int,
    /// The smoothed estimate, in units of `1 / EMA_SCALE` raw counts.
    pub ema: int,
}

impl FilterView {
    pub open spec fn wf(self) -> bool {
        &&& self.history.len() == HISTORY_LEN
        &&& 0 <= self.next < HISTORY_LEN
        &&& 0 <= self.ema <= u16::MAX * EMA_SCALE
    }

    /// The filter after taking in `raw`.
    pub open spec fn pushed(self, raw: u16) -> FilterView {
        let h = self.history.update(self.next, raw);
        FilterView {
            history: h,
            next: (self.next + 1) % (HISTORY_LEN as int),
            ema: ema_toward(self.ema, median(h) * EMA_SCALE),
        }
    }

    /// The filtered position in raw counts.
    pub open spec fn estimate(self) -> int {
        self.ema / (EMA_SCALE as int)
    }
}

/// A filter whose window and average all hold `raw`.
pub open spec fn seeded(raw: u16) -> FilterView {
    FilterView { history: seq![raw; 5], next: 0, ema: raw * EMA_SCALE }
}

/// The filter after taking in `raw` `n` times.
pub open spec fn pushed_times(v: FilterView, raw: u16, n: nat) -> FilterView
    decreases n,
{
    if n == 0 {
        v
    } else {
        pushed_times(v, raw, (n - 1) as nat).pushed(raw)
    }
}

/// Median-then-average filter over raw position samples.
pub struct PositionFilter {
    history: [u16; 5],
    next: usize,
    ema: u32,
}

impl View for PositionFilter {
    type V = FilterView;

    closed spec fn view(&self) -> FilterView {
        FilterView { history: self.history@, next: self.next as int, ema: self.ema as int }
    }
}

proof fn lemma_median_exists(h: Seq<u16>)
    requires
        h.len() == 5,
    ensures
        exists|j: int| 0 <= j < 5 && is_median(h, h[j] as int),
{
    if !is_median(h, h[0] as int) && !is_median(h, h[1] as int) && !is_median(h, h[2] as int)
        && !is_median(h, h[3] as int) && !is_median(h, h[4] as int) {
        assert(false);
    }
}

/// There is exactly one median value.
pub proof fn lemma_median_unique(h: Seq<u16>, m: int)
    requires
        h.len() == 5,
        is_median(h, m),
    ensures
        median(h) == m,
{
    assert(is_median(h, median(h)));
    let n = median(h);
    if n < m {
        assert(count_below(h, m) >= 5 - count_above(h, n));
    } else if n > m {
        assert(count_below(h, n) >= 5 - count_above(h, m));
    }
}

fn median_of(h: &[u16; 5]) -> (r: u16)
    ensures
        r as int == median(h@),
{
    proof {
        lemma_median_exists(h@);
    }
    let mut i: usize = 0;
    while i < 5
        invariant
            0 <= i <= 5,
            h@.len() == 5,
            exists|j: int| i <= j < 5 && is_median(h@, h@[j] as int),
        decreases 5 - i,
    {
        let m = h[i];
        let below: u8 = (if h[0] < m { 1u8 } else { 0 }) + (if h[1] < m { 1u8 } else { 0 }) + (
        if h[2] < m {
            1u8
        } else {
            0
        }) + (if h[3] < m { 1u8 } else { 0 }) + (if h[4] < m { 1u8 } else { 0 });
        let above: u8 = (if h[0] > m { 1u8 } else { 0 }) + (if h[1] > m { 1u8 } else { 0 }) + (
        if h[2] > m {
            1u8
        } else {
            0
        }) + (if h[3] > m { 1u8 } else { 0 }) + (if h[4] > m { 1u8 } else { 0 });
        if below <= 2 && above <= 2 {
            proof {
                assert(h@[i as int] == m);
                lemma_median_unique(h@, m as int);
            }
            return m;
        }
        i += 1;
    }
    h[2]
}

impl PositionFilter {
    pub open spec fn wf(&self) -> bool {
        self@.wf()
    }

    /// A filter whose window and average all hold `raw`.
    pub fn new(raw: u16) -> (r: Self)
        ensures
            r.wf(),
            r@ == seeded(raw),
    {
        let r = PositionFilter { history: [raw; 5], next: 0, ema: raw as u32 * EMA_SCALE };
        assert(r.history@ =~= seq![raw; 5]);
        r
    }

    /// Takes in one raw sample and returns the filtered position in raw counts.
    pub fn push(&mut self, raw: u16) -> (r: u16)
        requires
            old(self).wf(),
        ensures
            final(self).wf(),
            final(self)@ == old(self)@.pushed(raw),
            r as int == final(self)@.estimate(),
    {
        self.history[self.next] = raw;
        self.next = if self.next + 1 == HISTORY_LEN { 0 } else { self.next + 1 };
        let m = median_of(&self.history);
        let target: u32 = m as u32 * EMA_SCALE;
        if target >= self.ema {
            self.ema = self.ema + (target - self.ema + EMA_DIVISOR - 1) / EMA_DIVISOR;
        } else {
            self.ema = self.ema - (self.ema - target + EMA_DIVISOR - 1) / EMA_DIVISOR;
        }
        (self.ema / EMA_SCALE) as u16
    }

    /// The filtered position in raw counts, without taking a sample.
    pub fn estimate(&self) -> (r: u16)
        requires
            self.wf(),
        ensures
            r as int == self@.estimate(),
    {
        (self.ema / EMA_SCALE) as u16
    }
}

/// Distance between the average and `target`.
pub open spec fn distance(ema: int, target: int) -> int {
    if ema >= target { ema - target } else { target - ema }
}

/// One step of the average lands between the old estimate and the target and
/// shortens a non-zero distance by at least one unit; at the target it stays.
pub proof fn lemma_ema_step(ema: int, target: int)
    ensures
        ema <= target ==> ema <= ema_toward(ema, target) <= target,
        target <= ema ==> target <= ema_toward(ema, target) <= ema,
        ema != target ==> distance(ema_toward(ema, target), target) <= distance(ema, target) - 1,
        ema == target ==> ema_toward(ema, target) == target,
{
}

/// The median of a sample window lies within the range of the samples' type.
proof fn lemma_median_in_range(h: Seq<u16>)
    requires
        h.len() == 5,
    ensures
        0 <= median(h) <= u16::MAX,
{
    lemma_median_exists(h);
    let j = choose|j: int| 0 <= j < 5 && is_median(h, h[j] as int);
    lemma_median_unique(h, h[j] as int);
}

/// Taking in a sample keeps the filter well formed.
pub proof fn lemma_pushed_wf(v: FilterView, raw: u16)
    requires
        v.wf(),
    ensures
        v.pushed(raw).wf(),
{
    let h = v.history.update(v.next, raw);
    lemma_median_in_range(h);
    lemma_ema_step(v.ema, median(h) * EMA_SCALE);
}

proof fn lemma_pushed_times_wf(v: FilterView, raw: u16, n: nat)
    requires
        v.wf(),
    ensures
        pushed_times(v, raw, n).wf(),
    decreases n,
{
    if n > 0 {
        lemma_pushed_times_wf(v, raw, (n - 1) as nat);
        lemma_pushed_wf(pushed_times(v, raw, (n - 1) as nat), raw);
    }
}

/// A window that holds one value five times has that value as its median.
pub proof fn lemma_median_of_constant(raw: u16)
    ensures
        median(seq![raw; 5]) == raw,
{
    let h = seq![raw; 5];
    assert(h[0] == raw);
    lemma_median_unique(h, raw as int);
}

/// Five samples of one value fill the whole window with it, and further
/// samples of that value keep it so.
proof fn lemma_constant_fills_window(v: FilterView, raw: u16, n: nat)
    requires
        v.wf(),
        n >= HISTORY_LEN,
    ensures
        pushed_times(v, raw, n).history =~= seq![raw; 5],
    decreases n,
{
    if n == HISTORY_LEN {
        reveal_with_fuel(pushed_times, 6);
        let v1 = pushed_times(v, raw, 1);
        let v2 = pushed_times(v, raw, 2);
        let v3 = pushed_times(v, raw, 3);
        let v4 = pushed_times(v, raw, 4);
        let v5 = pushed_times(v, raw, 5);
        assert(v1 == v.pushed(raw));
        assert(v5.history.len() == 5);
        assert forall|j: int| 0 <= j < 5 implies v5.history[j] == raw by {
            assert(v1.history[v.next] == raw);
            assert(v2.history[v1.next] == raw);
            assert(v3.history[v2.next] == raw);
            assert(v4.history[v3.next] == raw);
            assert(v5.history[v4.next] == raw);
        }
    } else {
        lemma_constant_fills_window(v, raw, (n - 1) as nat);
        lemma_pushed_times_wf(v, raw, (n - 1) as nat);
    }
}

proof fn lemma_constant_distance(v: FilterView, raw: u16, k: nat)
    requires
        v.wf(),
    ensures
        distance(pushed_times(v, raw, HISTORY_LEN as nat + k).ema, raw * EMA_SCALE) <= if distance(
            pushed_times(v, raw, HISTORY_LEN as nat).ema,
            raw * EMA_SCALE,
        ) >= k {
            distance(pushed_times(v, raw, HISTORY_LEN as nat).ema, raw * EMA_SCALE) - k
        } else {
            0
        },
    decreases k,
{
    if k > 0 {
        let prev = pushed_times(v, raw, (HISTORY_LEN as nat + k - 1) as nat);
        lemma_constant_distance(v, raw, (k - 1) as nat);
        lemma_pushed_times_wf(v, raw, (HISTORY_LEN as nat + k - 1) as nat);
        lemma_constant_fills_window(v, raw, HISTORY_LEN as nat + k);
        lemma_median_of_constant(raw);
        assert(prev.history.update(prev.next, raw) =~= seq![raw; 5]);
        lemma_ema_step(prev.ema, raw * EMA_SCALE);
    }
}

/// Feeding one constant sample converges the filter to it: after five samples
/// the median is that value, and from some number of samples on (at the latest
/// five plus the largest possible distance) the average equals it exactly and the
/// filtered position is that sample.
pub proof fn lemma_constant_input_converges(v: FilterView, raw: u16, n: nat)
    requires
        v.wf(),
    ensures
        n >= HISTORY_LEN ==> median(pushed_times(v, raw, n).history) == raw,
        n >= HISTORY_LEN + u16::MAX * EMA_SCALE ==> pushed_times(v, raw, n).ema == raw * EMA_SCALE,
        n >= HISTORY_LEN + u16::MAX * EMA_SCALE ==> pushed_times(v, raw, n).estimate() == raw,
{
    if n >= HISTORY_LEN {
        lemma_constant_fills_window(v, raw, n);
        lemma_median_of_constant(raw);
        lemma_pushed_times_wf(v, raw, HISTORY_LEN as nat);
        lemma_constant_distance(v, raw, (n - HISTORY_LEN) as nat);
        assert(pushed_times(v, raw, n) == pushed_times(
            v,
            raw,
            HISTORY_LEN as nat + (n - HISTORY_LEN) as nat,
        ));
    }
}

} // verus!
