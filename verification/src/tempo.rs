//! Tap-tempo tracking from detected audio onsets: onsets closer than a minimum
//! gap are ignored, the gaps between accepted onsets that look like beats are
//! kept (most recent twelve), and the tempo comes from their weighted median,
//! recent gaps weighing more.
//!
//! Times are nanoseconds on one monotonic clock.
use vstd::prelude::*;

verus! {

/// Accepted onsets must lie more than this apart (200 ms).
pub const MIN_ONSET_GAP_NANOS: u64 = 200_000_000;

/// A beat interval must be longer than this (300 ms, 200 BPM).
pub const MIN_BEAT_INTERVAL_NANOS: u64 = 300_000_000;

/// A beat interval must be shorter than this (1.5 s, 40 BPM).
pub const MAX_BEAT_INTERVAL_NANOS: u64 = 1_500_000_000;

/// A silence longer than this (2 s) forgets the intervals gathered so far.
pub const SILENCE_RESET_NANOS: u64 = 2_000_000_000;

/// How many of the latest beat intervals are kept.
pub const MAX_BEAT_INTERVALS: usize = 12;

/// Time from `since` to `now`, zero when `now` is not later.
pub open spec fn elapsed(since: u64, now: u64) -> u64 {
    if now >= since {
        (now - since) as u64
    } else {
        0
    }
}

/// Sum of the weights 1..=n.
pub open spec fn weight_total(n: nat) -> int
    decreases n,
{
    if n == 0 {
        0
    } else {
        weight_total((n - 1) as nat) + n
    }
}

/// Total weight of the intervals no longer than `v`, the interval at
/// position `i` weighing `i + 1`.
pub open spec fn weight_at_most(s: Seq<u64>, v: u64) -> int
    decreases s.len(),
{
    if s.len() == 0 {
        0
    } else {
        weight_at_most(s.drop_last(), v) + if s.last() <= v {
            s.len() as int
        } else {
            0
        }
    }
}

/// `m` is the weighted median of `s`: the least interval of `s` at or below
/// which lies at least half of the total weight.
pub open spec fn is_weighted_median(s: Seq<u64>, m: u64) -> bool {
    &&& s.contains(m)
    &&& 2 * weight_at_most(s, m) >= weight_total(s.len())
    &&& forall|k: int|
        0 <= k < s.len() && 2 * weight_at_most(s, s[k]) >= weight_total(s.len()) ==> m <= #[trigger] s[k]
}

/// The onset at `now` is far enough from the last accepted one.
pub open spec fn gap_allows(last_onset: Option<u64>, now: u64) -> bool {
    match last_onset {
        None => true,
        Some(t) => elapsed(t, now) > MIN_ONSET_GAP_NANOS,
    }
}

/// The interval from the last tap to `now` counts as a beat.
pub open spec fn is_beat_interval(last_tap: Option<u64>, now: u64) -> bool {
    match last_tap {
        None => false,
        Some(t) => MIN_BEAT_INTERVAL_NANOS < elapsed(t, now) < MAX_BEAT_INTERVAL_NANOS,
    }
}

/// The kept intervals after a tap at `now`.
pub open spec fn next_intervals(last_tap: Option<u64>, intervals: Seq<u64>, now: u64) -> Seq<u64> {
    match last_tap {
        None => intervals,
        Some(t) => {
            let d = elapsed(t, now);
            if MIN_BEAT_INTERVAL_NANOS < d < MAX_BEAT_INTERVAL_NANOS {
                let pushed = intervals.push(d);
                if pushed.len() > MAX_BEAT_INTERVALS {
                    pushed.drop_first()
                } else {
                    pushed
                }
            } else if d > SILENCE_RESET_NANOS {
                Seq::empty()
            } else {
                intervals
            }
        },
    }
}

/// The state of a tap-tempo tracker.
pub struct TapTempoView {
    pub last_onset: Option<u64>,
    pub last_tap: Option<u64>,
    pub intervals: Seq<u64>,
}

/// What the tracker made of one detected onset.
#[derive(Clone, Copy, Debug, PartialEq, Eq, Structural)]
pub struct OnsetOutcome {
    /// The onset passed the minimum gap and counted as a tap.
    pub accepted: bool,
    /// The new weighted median beat interval, when the tap added an interval
    /// and at least two are kept.
    pub median_interval: Option<u64>,
}

/// Tap-tempo tracker fed with audio onsets.
pub struct TapTempo {
    last_onset: Option<u64>,
    last_tap: Option<u64>,
    intervals: Vec<u64>,
}

impl TapTempo {
    #[verifier::type_invariant]
    spec fn kept_intervals_are_beats(&self) -> bool {
        intervals_well_formed(self.intervals@)
    }
}

impl View for TapTempo {
    type V = TapTempoView;

    closed spec fn view(&self) -> TapTempoView {
        TapTempoView { last_onset: self.last_onset, last_tap: self.last_tap, intervals: self.intervals@ }
    }
}

/// Every kept interval is a beat interval, and at most twelve are kept.
pub open spec fn intervals_well_formed(s: Seq<u64>) -> bool {
    &&& s.len() <= MAX_BEAT_INTERVALS
    &&& forall|k: int|
        0 <= k < s.len() ==> MIN_BEAT_INTERVAL_NANOS < #[trigger] s[k] < MAX_BEAT_INTERVAL_NANOS
}

fn elapsed_exec(since: u64, now: u64) -> (d: u64)
    ensures
        d == elapsed(since, now),
{
    if now >= since {
        now - since
    } else {
        0
    }
}

proof fn lemma_weight_at_most_bounds(s: Seq<u64>, v: u64)
    ensures
        0 <= weight_at_most(s, v) <= weight_total(s.len()),
        (forall|k: int| 0 <= k < s.len() ==> s[k] <= v) ==> weight_at_most(s, v) == weight_total(
            s.len(),
        ),
    decreases s.len(),
{
    if s.len() > 0 {
        lemma_weight_at_most_bounds(s.drop_last(), v);
        if forall|k: int| 0 <= k < s.len() ==> s[k] <= v {
            assert forall|k: int| 0 <= k < s.drop_last().len() implies s.drop_last()[k] <= v by {
                assert(s.drop_last()[k] == s[k]);
            }
            assert(s.last() == s[s.len() - 1]);
        }
    }
}

proof fn lemma_weight_total_bound(n: nat)
    ensures
        weight_total(n) <= n * n,
    decreases n,
{
    if n > 0 {
        lemma_weight_total_bound((n - 1) as nat);
        assert((n - 1) * (n - 1) + n <= n * n) by (nonlinear_arith)
            requires
                n >= 1,
        ;
    }
}

fn weight_at_most_exec(s: &Vec<u64>, v: u64) -> (w: u64)
    requires
        s@.len() <= MAX_BEAT_INTERVALS,
    ensures
        w == weight_at_most(s@, v),
{
    let mut w: u64 = 0;
    let mut j: usize = 0;
    while j < s.len()
        invariant
            j <= s@.len(),
            s@.len() <= MAX_BEAT_INTERVALS,
            w == weight_at_most(s@.take(j as int), v),
        decreases s@.len() - j,
    {
        proof {
            assert(s@.take(j + 1).drop_last() =~= s@.take(j as int));
            lemma_weight_at_most_bounds(s@.take(j as int), v);
            lemma_weight_total_bound(j as nat);
            assert(j * j <= 144) by (nonlinear_arith)
                requires
                    j <= 12,
            ;
        }
        if s[j] <= v {
            w = w + (j as u64 + 1);
        }
        j = j + 1;
    }
    assert(s@.take(s@.len() as int) =~= s@);
    w
}

fn weight_total_exec(n: usize) -> (t: u64)
    requires
        n <= MAX_BEAT_INTERVALS,
    ensures
        t == weight_total(n as nat),
{
    let mut t: u64 = 0;
    let mut j: usize = 0;
    while j < n
        invariant
            j <= n,
            n <= MAX_BEAT_INTERVALS,
            t == weight_total(j as nat),
        decreases n - j,
    {
        proof {
            lemma_weight_total_bound(j as nat);
            assert(j * j <= 144) by (nonlinear_arith)
                requires
                    j <= 12,
            ;
        }
        t = t + (j as u64 + 1);
        j = j + 1;
    }
    t
}

/// The weighted median of at most twelve intervals (see `is_weighted_median`).
fn weighted_median(s: &Vec<u64>) -> (m: u64)
    requires
        1 <= s@.len() <= MAX_BEAT_INTERVALS,
    ensures
        is_weighted_median(s@, m),
{
    let n = s.len();
    let total = weight_total_exec(n);
    proof {
        lemma_weight_total_bound(n as nat);
        assert(n * n <= 144) by (nonlinear_arith)
            requires
                n <= 12,
        ;
    }
    let mut best: u64 = 0;
    let mut found = false;
    let mut top: usize = 0;
    let mut k: usize = 0;
    while k < n
        invariant
            n == s@.len(),
            1 <= n <= MAX_BEAT_INTERVALS,
            total == weight_total(n as nat),
            total <= 144,
            k <= n,
            top < n,
            k > 0 ==> forall|j: int| 0 <= j < k ==> s@[j] <= s@[top as int],
            found ==> s@.contains(best) && 2 * weight_at_most(s@, best) >= total,
            forall|j: int|
                0 <= j < k && 2 * weight_at_most(s@, s@[j]) >= total ==> found && best <= #[trigger] s@[j],
        decreases n - k,
    {
        let v = s[k];
        if v > s[top] {
            top = k;
        }
        let w = weight_at_most_exec(s, v);
        proof {
            lemma_weight_at_most_bounds(s@, v);
        }
        if 2 * w >= total && (!found || v < best) {
            best = v;
            found = true;
        }
        k = k + 1;
    }
    proof {
        lemma_weight_at_most_bounds(s@, s@[top as int]);
        assert(2 * weight_at_most(s@, s@[top as int]) >= total);
    }
    best
}

impl TapTempo {
    /// A tracker that has heard nothing yet.
    pub fn new() -> (t: TapTempo)
        ensures
            t@.last_onset is None,
            t@.last_tap is None,
            t@.intervals == Seq::<u64>::empty(),
    {
        TapTempo { last_onset: None, last_tap: None, intervals: Vec::new() }
    }

    /// Number of beat intervals kept.
    pub fn interval_count(&self) -> (n: usize)
        ensures
            n == self@.intervals.len(),
            intervals_well_formed(self@.intervals),
    {
        proof {
            use_type_invariant(self);
        }
        self.intervals.len()
    }

    /// Feeds an onset detected at `now`. An onset within the minimum gap of the
    /// last accepted one is ignored. Otherwise it becomes the last onset and the
    /// last tap; a beat-like interval since the previous tap is kept (the oldest
    /// dropped beyond twelve), a silence longer than 2 s forgets the kept
    /// intervals, and once a new interval is kept and at least two are, their
    /// weighted median is reported.
    pub fn on_onset(&mut self, now: u64) -> (out: OnsetOutcome)
        ensures
            intervals_well_formed(final(self)@.intervals),
            out.accepted == gap_allows(old(self)@.last_onset, now),
            !out.accepted ==> final(self)@ == old(self)@,
            out.accepted ==> final(self)@ == (TapTempoView {
                last_onset: Some(now),
                last_tap: Some(now),
                intervals: next_intervals(old(self)@.last_tap, old(self)@.intervals, now),
            }),
            out.median_interval is Some <==> out.accepted && is_beat_interval(
                old(self)@.last_tap,
                now,
            ) && final(self)@.intervals.len() >= 2,
            out.median_interval matches Some(m) ==> is_weighted_median(final(self)@.intervals, m),
            out.accepted && old(self)@.last_tap is Some && !(300_000_000 < elapsed(
                old(self)@.last_tap->0,
                now,
            ) < 1_500_000_000) && elapsed(old(self)@.last_tap->0, now) <= 2_000_000_000
                ==> final(self)@.intervals == old(self)@.intervals,
    {
        proof {
            use_type_invariant(&*self);
        }
        let gap_ok = match self.last_onset {
            None => true,
            Some(t) => elapsed_exec(t, now) > MIN_ONSET_GAP_NANOS,
        };
        if !gap_ok {
            return OnsetOutcome { accepted: false, median_interval: None };
        }
        self.last_onset = Some(now);
        let mut median_interval: Option<u64> = None;
        let mut intervals: Vec<u64> = Vec::new();
        std::mem::swap(&mut intervals, &mut self.intervals);
        match self.last_tap {
            None => {},
            Some(t) => {
                let d = elapsed_exec(t, now);
                if MIN_BEAT_INTERVAL_NANOS < d && d < MAX_BEAT_INTERVAL_NANOS {
                    let ghost before = intervals@;
                    intervals.push(d);
                    if intervals.len() > MAX_BEAT_INTERVALS {
                        intervals.remove(0);
                        assert(intervals@ =~= before.push(d).drop_first());
                    }
                    if intervals.len() >= 2 {
                        median_interval = Some(weighted_median(&intervals));
                    }
                } else if d > SILENCE_RESET_NANOS {
                    intervals.clear();
                }
            },
        }
        self.intervals = intervals;
        self.last_tap = Some(now);
        OnsetOutcome { accepted: true, median_interval }
    }
}

/// Audio frames needed between two onsets: 120 ms of samples.
pub open spec fn spec_cooldown_samples(sample_rate: u32) -> u32 {
    (sample_rate * 12 / 100) as u32
}

/// Number of samples in 120 ms at `sample_rate`.
pub fn cooldown_samples(sample_rate: u32) -> (n: u32)
    requires
        sample_rate * 12 <= u32::MAX,
    ensures
        n == spec_cooldown_samples(sample_rate),
{
    sample_rate * 12 / 100
}

/// Debounces onsets in an audio stream: after an onset, further onsets are
/// held back until 120 ms worth of samples have gone by.
pub struct OnsetGate {
    /// Samples still to go before the next onset may fire.
    pub cooldown: u32,
}

impl OnsetGate {
    /// A gate that lets the first onset through.
    pub fn new() -> (g: OnsetGate)
        ensures
            g.cooldown == 0,
    {
        OnsetGate { cooldown: 0 }
    }

    /// Processes one audio frame of `frame_len` samples at `sample_rate`;
    /// `rising` tells whether the frame's onset strength passed its threshold.
    /// The cooldown first runs down by the frame length (saturating at 0); the
    /// frame is an onset when it is rising and the cooldown is over, and an
    /// onset restarts the cooldown.
    pub fn step(&mut self, frame_len: usize, sample_rate: u32, rising: bool) -> (is_onset: bool)
        requires
            sample_rate * 12 <= u32::MAX,
        ensures
            is_onset == (rising && old(self).cooldown.saturating_sub(frame_len as u32) == 0),
            final(self).cooldown == if is_onset {
                spec_cooldown_samples(sample_rate)
            } else {
                old(self).cooldown.saturating_sub(frame_len as u32)
            },
    {
        if self.cooldown > 0 {
            self.cooldown = self.cooldown.saturating_sub(frame_len as u32);
        }
        let is_onset = rising && self.cooldown == 0;
        if is_onset {
            self.cooldown = cooldown_samples(sample_rate);
        }
        is_onset
    }
}

/// A sequence of intervals has at most one weighted median.
pub proof fn lemma_weighted_median_unique(s: Seq<u64>, a: u64, b: u64)
    requires
        is_weighted_median(s, a),
        is_weighted_median(s, b),
    ensures
        a == b,
{
    let i = choose|i: int| 0 <= i < s.len() && s[i] == a;
    let j = choose|j: int| 0 <= j < s.len() && s[j] == b;
    assert(b <= s[i]);
    assert(a <= s[j]);
}

/// The weighted median of kept intervals is itself a beat interval, so the
/// tempo it gives lies between 40 and 200 BPM.
pub proof fn lemma_median_is_beat_interval(s: Seq<u64>, m: u64)
    requires
        intervals_well_formed(s),
        is_weighted_median(s, m),
    ensures
        MIN_BEAT_INTERVAL_NANOS < m < MAX_BEAT_INTERVAL_NANOS,
{
    let i = choose|i: int| 0 <= i < s.len() && s[i] == m;
    assert(MIN_BEAT_INTERVAL_NANOS < s[i] < MAX_BEAT_INTERVAL_NANOS);
}

/// A tap whose gap since the previous tap is neither a beat (over 300 ms and
/// under 1.5 s) nor a silence (over 2 s), such as an off-beat onset, leaves
/// the kept intervals as they were.
pub proof fn lemma_offbeat_tap_keeps_intervals(last_tap: u64, intervals: Seq<u64>, now: u64)
    requires
        !(300_000_000 < elapsed(last_tap, now) < 1_500_000_000),
        elapsed(last_tap, now) <= 2_000_000_000,
    ensures
        next_intervals(Some(last_tap), intervals, now) == intervals,
{
}

/// A tap after more than two seconds of silence forgets every kept interval.
pub proof fn lemma_silence_forgets_intervals(last_tap: u64, intervals: Seq<u64>, now: u64)
    requires
        elapsed(last_tap, now) > SILENCE_RESET_NANOS,
    ensures
        next_intervals(Some(last_tap), intervals, now) == Seq::<u64>::empty(),
{
}

/// A beat-like tap keeps its interval as the newest one, and keeps the
/// earlier intervals in order, dropping the oldest only beyond twelve.
pub proof fn lemma_beat_interval_is_kept_newest(last_tap: u64, intervals: Seq<u64>, now: u64)
    requires
        intervals_well_formed(intervals),
        is_beat_interval(Some(last_tap), now),
    ensures
        next_intervals(Some(last_tap), intervals, now).last() == elapsed(last_tap, now),
        next_intervals(Some(last_tap), intervals, now).len() == if intervals.len()
            < MAX_BEAT_INTERVALS {
            intervals.len() + 1
        } else {
            MAX_BEAT_INTERVALS as nat
        },
        intervals.len() < MAX_BEAT_INTERVALS ==> next_intervals(Some(last_tap), intervals, now)
            == intervals.push(elapsed(last_tap, now)),
        intervals.len() == MAX_BEAT_INTERVALS ==> next_intervals(Some(last_tap), intervals, now)
            == intervals.drop_first().push(elapsed(last_tap, now)),
{
    let d = elapsed(last_tap, now);
    if intervals.len() == MAX_BEAT_INTERVALS {
        assert(intervals.push(d).drop_first() =~= intervals.drop_first().push(d));
    }
}

} // verus!
