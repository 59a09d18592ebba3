//! Link-health monitor: schedules keep-alive pings and estimates the
//! round-trip time of a link.
//!
//! The tracker is a synchronous state machine driven by its caller.  All
//! instants are in microseconds on a monotone clock supplied through the
//! `now` parameter of each call; all round-trip arithmetic is in integer
//! microseconds.  Overflow in the mean or variance computation is a hard
//! failure that closes the tracker rather than silently corrupting its
//! pacing decisions.

use vstd::arithmetic::div_mod::lemma_div_basics_4;
use vstd::arithmetic::div_mod::lemma_div_nonincreasing;
use vstd::prelude::*;

verus! {

/// Minimum spacing between two keep-alive pings, in microseconds.
pub const MIN_PING_SPACING_US: u64 = 100_000;
/// Maximum spacing between two keep-alive pings, in microseconds.
pub const MAX_PING_SPACING_US: u64 = 20_000_000;
/// Round-trip samples older than this are garbage-collected, in microseconds.
pub const MAX_SAMPLE_AGE_US: u64 = 120_000_000;
/// Outstanding-ping records older than this are garbage-collected, in microseconds.
pub const MAX_PING_AGE_US: u64 = 15_000_000;
/// Latest instant the tracker accepts from its clock, in microseconds.
/// Leaves headroom so that `instant + spacing` never overflows a `u64`.
pub const MAX_INSTANT_US: u64 = 0x4000_0000_0000_0000;

/// A pong record: the requestor's ping id and the time (in microseconds)
/// the remote spent queueing before responding.
#[derive(Debug, Clone, Copy, PartialEq, Eq, Structural)]
pub struct Pong {
    /// The requestor's ping id.
    pub id: u64,
    /// The queue time (in microseconds) before responding.
    pub queue_time: u64,
}

/// One round-trip measurement: when it was taken and the measured
/// round-trip time in microseconds (never negative).
#[derive(Debug, Clone, Copy, PartialEq, Eq, Structural)]
pub struct Sample {
    /// Instant the sample was recorded, in microseconds.
    pub when: u64,
    /// Measured round-trip time, in microseconds.
    pub rtt_us: i64,
}

/// Errors of the tracker: overflow while recomputing the statistics.
/// Either closes the tracker when it occurs.
#[derive(Debug, Clone, Copy, PartialEq, Eq, Structural)]
pub enum PingTrackerError {
    /// The sum of the retained samples exceeded the `i64` range.
    MeanOverflow,
    /// A squared deviation or their sum exceeded the `i64` range.
    VarianceOverflow,
}

/// Mathematical image of a tracker's state; all contracts speak of it.
#[verifier::ext_equal]
pub struct TrackerModel {
    pub samples: Seq<Sample>,
    pub variance: int,
    pub sent_pings: Seq<(u64, u64)>,
    pub ping_spacing: int,
    pub last_ping_sent: int,
    pub timeout: Option<int>,
    pub published_mean: int,
    pub send_ping: bool,
    pub send_pong: Option<(u64, u64)>,
    pub closed: bool,
    pub next_ping_id: int,
    pub clock: int,
}

/// All round-trip times of the sequence are non-negative.
pub open spec fn samples_nonneg(s: Seq<Sample>) -> bool {
    forall|i: int| 0 <= i < s.len() ==> (#[trigger] s[i]).rtt_us >= 0
}

/// Sum of the round-trip times of a sample sequence.
pub open spec fn sum_rtt(s: Seq<Sample>) -> int
    decreases s.len(),
{
    if s.len() == 0 {
        0
    } else {
        sum_rtt(s.drop_last()) + s.last().rtt_us
    }
}

/// Mean round-trip time of a sample sequence (0 when empty).
pub open spec fn mean_of(s: Seq<Sample>) -> int {
    if s.len() == 0 {
        0
    } else {
        sum_rtt(s) / (s.len() as int)
    }
}

/// Sum of squared deviations from `mean`.
pub open spec fn var_numer(s: Seq<Sample>, mean: int) -> int
    decreases s.len(),
{
    if s.len() == 0 {
        0
    } else {
        var_numer(s.drop_last(), mean) + (s.last().rtt_us - mean) * (s.last().rtt_us - mean)
    }
}

/// Sample variance of a sample sequence (0 with fewer than two samples).
pub open spec fn variance_of(s: Seq<Sample>) -> int {
    if s.len() <= 1 {
        0
    } else {
        var_numer(s, mean_of(s)) / (s.len() - 1)
    }
}

/// The mean computation stays within the `i64` range.
pub open spec fn mean_fits(s: Seq<Sample>) -> bool {
    sum_rtt(s) <= i64::MAX
}

/// The variance computation stays within the `i64` range.
pub open spec fn variance_fits(s: Seq<Sample>) -> bool {
    s.len() >= 2 ==> {
        &&& forall|i: int|
            0 <= i < s.len() ==> (#[trigger] s[i].rtt_us - mean_of(s)) * (s[i].rtt_us - mean_of(s))
                <= i64::MAX
        &&& var_numer(s, mean_of(s)) <= i64::MAX
    }
}

/// Recomputing the statistics over `s` raises no overflow.
pub open spec fn recalc_ok(s: Seq<Sample>) -> bool {
    mean_fits(s) && variance_fits(s)
}

/// Absolute value.
pub open spec fn abs_int(x: int) -> int {
    if x < 0 {
        -x
    } else {
        x
    }
}

/// The adaptive spacing control: halve (bounded below) when the variance
/// grew, grow by a quarter (bounded above) when it shrank.
pub open spec fn next_spacing(spacing: int, var_before: int, var_after: int) -> int {
    if var_after > var_before {
        if spacing / 2 < MIN_PING_SPACING_US {
            MIN_PING_SPACING_US as int
        } else {
            spacing / 2
        }
    } else if var_after < var_before {
        if spacing * 5 / 4 > MAX_PING_SPACING_US {
            MAX_PING_SPACING_US as int
        } else {
            spacing * 5 / 4
        }
    } else {
        spacing
    }
}

/// A new mean is published only when positive and differing from the last
/// published value by more than a tenth of it (or nothing was published yet).
pub open spec fn should_publish(published_mean: int, mean: int) -> bool {
    mean > 0 && (published_mean <= 0 || abs_int(published_mean - mean) > published_mean / 10)
}

/// The statistics recomputation as a function on models: variance, spacing,
/// publication and the timer slot.  `pre.samples` must satisfy `recalc_ok`.
pub open spec fn model_recalc(pre: TrackerModel) -> TrackerModel {
    let m = mean_of(pre.samples);
    let v = variance_of(pre.samples);
    let spacing = next_spacing(pre.ping_spacing, pre.variance, v);
    TrackerModel {
        variance: v,
        ping_spacing: spacing,
        published_mean: if should_publish(pre.published_mean, m) {
            m
        } else {
            pre.published_mean
        },
        timeout: if !pre.send_ping {
            Some(pre.last_ping_sent + spacing)
        } else {
            pre.timeout
        },
        ..pre
    }
}

/// The timer slot is armed and has expired at `now`.
pub open spec fn timer_expired(m: TrackerModel, now: int) -> bool {
    match m.timeout {
        Some(t) => now >= t,
        None => false,
    }
}

/// Age-based garbage collection of samples: drop from the front while more
/// than three samples remain and the front one is older than `epoch`.
pub open spec fn gc_samples(s: Seq<Sample>, epoch: int) -> Seq<Sample>
    decreases s.len(),
{
    if s.len() > 3 && s[0].when < epoch {
        gc_samples(s.drop_first(), epoch)
    } else {
        s
    }
}

/// Age-based garbage collection of sent-ping records: drop from the front
/// while more than one record remains and the front one is older than `epoch`.
pub open spec fn gc_pings(p: Seq<(u64, u64)>, epoch: int) -> Seq<(u64, u64)>
    decreases p.len(),
{
    if p.len() > 1 && p[0].1 < epoch {
        gc_pings(p.drop_first(), epoch)
    } else {
        p
    }
}

/// Garbage collection at `now` as a function on models.
pub open spec fn model_gc(m: TrackerModel, now: int) -> TrackerModel {
    TrackerModel {
        samples: if now >= MAX_SAMPLE_AGE_US {
            gc_samples(m.samples, now - MAX_SAMPLE_AGE_US)
        } else {
            m.samples
        },
        sent_pings: if now >= MAX_PING_AGE_US {
            gc_pings(m.sent_pings, now - MAX_PING_AGE_US)
        } else {
            m.sent_pings
        },
        ..m
    }
}

/// Some outstanding ping record carries `id`.
pub open spec fn has_ping(p: Seq<(u64, u64)>, id: u64) -> bool {
    exists|i: int| 0 <= i < p.len() && p[i].0 == id
}

/// The instant at which the outstanding ping `id` was sent.
pub open spec fn ping_sent_at(p: Seq<(u64, u64)>, id: u64) -> int {
    let i = choose|i: int| 0 <= i < p.len() && p[i].0 == id;
    p[i].1 as int
}

/// Receipt of a pong at `now` as a function on models, before the
/// statistics are recomputed: a sample is recorded only when the pong's id
/// is outstanding and its self-reported queue delay does not exceed the
/// elapsed wall time.
pub open spec fn model_got_pong(m: TrackerModel, pong: Pong, now: int) -> TrackerModel {
    if has_ping(m.sent_pings, pong.id) && pong.queue_time <= now - ping_sent_at(
        m.sent_pings,
        pong.id,
    ) {
        TrackerModel {
            samples: m.samples.push(
                Sample {
                    when: now as u64,
                    rtt_us: (now - ping_sent_at(m.sent_pings, pong.id) - pong.queue_time) as i64,
                },
            ),
            clock: now,
            ..m
        }
    } else {
        TrackerModel { clock: now, ..m }
    }
}

proof fn lemma_square_nonneg(x: int)
    ensures
        x * x >= 0,
{
    assert(x * x >= 0) by (nonlinear_arith);
}

proof fn lemma_sum_nonneg(s: Seq<Sample>)
    requires
        samples_nonneg(s),
    ensures
        sum_rtt(s) >= 0,
    decreases s.len(),
{
    if s.len() > 0 {
        assert(samples_nonneg(s.drop_last())) by {
            assert forall|i: int|
                0 <= i < s.drop_last().len() implies (#[trigger] s.drop_last()[i]).rtt_us >= 0 by {
                assert(s.drop_last()[i] == s[i]);
            }
        }
        lemma_sum_nonneg(s.drop_last());
        assert(s[s.len() - 1].rtt_us >= 0);
    }
}

proof fn lemma_sum_take_succ(s: Seq<Sample>, i: int)
    requires
        0 <= i < s.len(),
    ensures
        sum_rtt(s.take(i + 1)) == sum_rtt(s.take(i)) + s[i].rtt_us,
{
    assert(s.take(i + 1).drop_last() =~= s.take(i));
    assert(s.take(i + 1).last() == s[i]);
}

proof fn lemma_sum_take_le(s: Seq<Sample>, i: int)
    requires
        samples_nonneg(s),
        0 <= i <= s.len(),
    ensures
        sum_rtt(s.take(i)) <= sum_rtt(s),
    decreases s.len() - i,
{
    if i == s.len() {
        assert(s.take(i) =~= s);
    } else {
        lemma_sum_take_succ(s, i);
        lemma_sum_take_le(s, i + 1);
        assert(s[i].rtt_us >= 0);
    }
}

proof fn lemma_elem_le_sum(s: Seq<Sample>, i: int)
    requires
        samples_nonneg(s),
        0 <= i < s.len(),
    ensures
        s[i].rtt_us <= sum_rtt(s),
{
    lemma_sum_take_succ(s, i);
    lemma_sum_take_le(s, i + 1);
    assert(samples_nonneg(s.take(i))) by {
        assert forall|j: int| 0 <= j < s.take(i).len() implies (#[trigger] s.take(i)[j]).rtt_us
            >= 0 by {
            assert(s.take(i)[j] == s[j]);
        }
    }
    lemma_sum_nonneg(s.take(i));
}

proof fn lemma_numer_nonneg(s: Seq<Sample>, mean: int)
    ensures
        var_numer(s, mean) >= 0,
    decreases s.len(),
{
    if s.len() > 0 {
        lemma_numer_nonneg(s.drop_last(), mean);
        lemma_square_nonneg(s.last().rtt_us - mean);
    }
}

proof fn lemma_numer_take_succ(s: Seq<Sample>, mean: int, i: int)
    requires
        0 <= i < s.len(),
    ensures
        var_numer(s.take(i + 1), mean) == var_numer(s.take(i), mean) + (s[i].rtt_us - mean) * (
        s[i].rtt_us - mean),
{
    assert(s.take(i + 1).drop_last() =~= s.take(i));
    assert(s.take(i + 1).last() == s[i]);
}

proof fn lemma_numer_take_le(s: Seq<Sample>, mean: int, i: int)
    requires
        0 <= i <= s.len(),
    ensures
        var_numer(s.take(i), mean) <= var_numer(s, mean),
    decreases s.len() - i,
{
    if i == s.len() {
        assert(s.take(i) =~= s);
    } else {
        lemma_numer_take_succ(s, mean, i);
        lemma_numer_take_le(s, mean, i + 1);
        lemma_square_nonneg(s[i].rtt_us - mean);
    }
}

proof fn lemma_gc_samples_props(s: Seq<Sample>, epoch: int)
    ensures
        gc_samples(s, epoch).len() <= s.len(),
        s.len() <= 3 ==> gc_samples(s, epoch) == s,
        s.len() > 3 ==> gc_samples(s, epoch).len() >= 3,
        exists|k: int|
            0 <= k <= s.len() && gc_samples(s, epoch) == #[trigger] s.skip(k),
    decreases s.len(),
{
    if s.len() > 3 && s[0].when < epoch {
        lemma_gc_samples_props(s.drop_first(), epoch);
        let g = gc_samples(s, epoch);
        let k0 = choose|k: int| 0 <= k <= s.drop_first().len() && g == s.drop_first().skip(k);
        assert(s.drop_first() =~= s.skip(1));
        assert(s.skip(1).skip(k0) =~= s.skip(1 + k0));
        assert(g == s.skip(1 + k0));
    } else {
        assert(gc_samples(s, epoch) =~= s.skip(0));
    }
}

proof fn lemma_gc_pings_props(p: Seq<(u64, u64)>, epoch: int)
    ensures
        gc_pings(p, epoch).len() <= p.len(),
        p.len() <= 1 ==> gc_pings(p, epoch) == p,
        p.len() > 1 ==> gc_pings(p, epoch).len() >= 1,
        exists|k: int|
            0 <= k <= p.len() && gc_pings(p, epoch) == #[trigger] p.skip(k),
    decreases p.len(),
{
    if p.len() > 1 && p[0].1 < epoch {
        lemma_gc_pings_props(p.drop_first(), epoch);
        let g = gc_pings(p, epoch);
        let k0 = choose|k: int| 0 <= k <= p.drop_first().len() && g == p.drop_first().skip(k);
        assert(p.drop_first() =~= p.skip(1));
        assert(p.skip(1).skip(k0) =~= p.skip(1 + k0));
        assert(g == p.skip(1 + k0));
    } else {
        assert(gc_pings(p, epoch) =~= p.skip(0));
    }
}

proof fn lemma_next_spacing_bounds(spacing: int, var_before: int, var_after: int)
    requires
        MIN_PING_SPACING_US <= spacing <= MAX_PING_SPACING_US,
    ensures
        MIN_PING_SPACING_US <= next_spacing(spacing, var_before, var_after)
            <= MAX_PING_SPACING_US,
{
    if var_after > var_before {
        vstd::arithmetic::div_mod::lemma_div_is_ordered(
            spacing,
            MAX_PING_SPACING_US as int,
            2,
        );
    } else if var_after < var_before {
        vstd::arithmetic::div_mod::lemma_div_multiples_vanish(spacing, 4);
        vstd::arithmetic::div_mod::lemma_div_is_ordered(4 * spacing, spacing * 5, 4);
    }
}

/// Schedules pings when they need to be scheduled and estimates the link's
/// round trip time.
pub struct PingTracker {
    samples: Vec<Sample>,
    variance: i64,
    /// Outstanding sent pings, oldest first: (ping id, instant sent).
    sent_pings: Vec<(u64, u64)>,
    ping_spacing: u64,
    last_ping_sent: u64,
    timeout: Option<u64>,
    published_mean: i64,
    send_ping: bool,
    send_pong: Option<(u64, u64)>,
    closed: bool,
    next_ping_id: u64,
    clock: u64,
}

impl View for PingTracker {
    type V = TrackerModel;

    closed spec fn view(&self) -> TrackerModel {
        TrackerModel {
            samples: self.samples@,
            variance: self.variance as int,
            sent_pings: self.sent_pings@,
            ping_spacing: self.ping_spacing as int,
            last_ping_sent: self.last_ping_sent as int,
            timeout: match self.timeout {
                Some(t) => Some(t as int),
                None => None,
            },
            published_mean: self.published_mean as int,
            send_ping: self.send_ping,
            send_pong: self.send_pong,
            closed: self.closed,
            next_ping_id: self.next_ping_id as int,
            clock: self.clock as int,
        }
    }
}

impl PingTracker {
    /// Well-formedness: spacing within its bounds, sample and ping records
    /// consistent with the clock, ping ids strictly increasing, and the
    /// retained samples safe to recompute while the tracker is open.
    pub closed spec fn wf(self) -> bool {
        &&& MIN_PING_SPACING_US <= self.ping_spacing <= MAX_PING_SPACING_US
        &&& forall|i: int|
            0 <= i < self.samples@.len() ==> (#[trigger] self.samples@[i]).rtt_us >= 0
                && self.samples@[i].when <= self.clock
        &&& forall|i: int|
            0 <= i < self.sent_pings@.len() ==> (#[trigger] self.sent_pings@[i]).1 <= self.clock
                && self.sent_pings@[i].0 < self.next_ping_id
        &&& forall|i: int, j: int|
            0 <= i < j < self.sent_pings@.len() ==> (#[trigger] self.sent_pings@[i]).0 < (
            #[trigger] self.sent_pings@[j]).0
        &&& self.next_ping_id >= 1
        &&& self.last_ping_sent <= self.clock
        &&& self.clock <= MAX_INSTANT_US
        &&& self.published_mean >= 0
        &&& (!self.closed ==> recalc_ok(self.samples@))
        &&& (!self.closed ==> self.variance == variance_of(self.samples@))
        &&& match self.send_pong {
            Some(p) => p.1 <= self.clock,
            None => true,
        }
    }

    /// Set up a new (empty) tracker at instant `now`.
    pub fn new(now: u64) -> (t: PingTracker)
        requires
            now <= MAX_INSTANT_US,
        ensures
            t.wf(),
            t@.samples =~= Seq::<Sample>::empty(),
            t@.sent_pings =~= Seq::<(u64, u64)>::empty(),
            t@.send_ping,
            !t@.closed,
            t@.next_ping_id == 1,
            t@.published_mean == 0,
            t@.ping_spacing == MIN_PING_SPACING_US,
            t@.clock == now,
            t@.last_ping_sent == now,
            t@.timeout is None,
            t@.send_pong is None,
    {
        PingTracker {
            samples: Vec::new(),
            variance: 0,
            sent_pings: Vec::new(),
            ping_spacing: MIN_PING_SPACING_US,
            last_ping_sent: now,
            timeout: None,
            published_mean: 0,
            send_ping: true,
            send_pong: None,
            closed: false,
            next_ping_id: 1,
            clock: now,
        }
    }

    /// Recompute mean and variance over the retained samples, adjust the
    /// ping spacing, publish the mean when it moved far enough, and re-arm
    /// the timer slot.  Overflow closes the tracker and reports which of
    /// the two computations failed.
    fn recalculate(&mut self) -> (r: Result<(), PingTrackerError>)
        requires
            samples_nonneg(old(self)@.samples),
            MIN_PING_SPACING_US <= old(self)@.ping_spacing <= MAX_PING_SPACING_US,
            old(self)@.published_mean >= 0,
            old(self)@.last_ping_sent <= MAX_INSTANT_US,
        ensures
            match r {
                Ok(()) => recalc_ok(old(self)@.samples) && final(self)@ == model_recalc(
                    old(self)@,
                ),
                Err(e) => {
                    &&& !recalc_ok(old(self)@.samples)
                    &&& final(self)@ == (TrackerModel { closed: true, ..old(self)@ })
                    &&& (e is MeanOverflow <==> !mean_fits(old(self)@.samples))
                },
            },
    {
        let ghost pre = self@;
        let n = self.samples.len();
        let mut total: i64 = 0;
        let mut idx: usize = 0;
        while idx < n
            invariant
                self@ == pre,
                pre == old(self)@,
                samples_nonneg(pre.samples),
                0 <= idx <= n,
                n == pre.samples.len(),
                total == sum_rtt(pre.samples.take(idx as int)),
                total >= 0,
            decreases n - idx,
        {
            proof {
                lemma_sum_take_succ(pre.samples, idx as int);
            }
            let s = self.samples[idx];
            match total.checked_add(s.rtt_us) {
                Some(t) => {
                    proof {
                        assert(samples_nonneg(pre.samples.take(idx as int + 1))) by {
                            assert forall|j: int|
                                0 <= j < pre.samples.take(idx as int + 1).len() implies (
                            #[trigger] pre.samples.take(idx as int + 1)[j]).rtt_us >= 0 by {
                                assert(pre.samples.take(idx as int + 1)[j] == pre.samples[j]);
                            }
                        }
                        lemma_sum_nonneg(pre.samples.take(idx as int + 1));
                    }
                    total = t;
                },
                None => {
                    proof {
                        lemma_sum_take_le(pre.samples, idx as int + 1);
                        assert(!mean_fits(pre.samples));
                    }
                    self.closed = true;
                    proof {
                        assert(self@ =~= (TrackerModel { closed: true, ..pre }));
                        assert(self@ == (TrackerModel { closed: true, ..pre }));
                    }
                    return Err(PingTrackerError::MeanOverflow);
                },
            }
            idx += 1;
        }
        proof {
            assert(pre.samples.take(n as int) =~= pre.samples);
        }
        let mean: i64 = if n == 0 {
            0
        } else {
            proof {
                lemma_div_basics_4(total as int, n as int);
                lemma_div_nonincreasing(total as int, n as int);
            }
            ((total as u64) / (n as u64)) as i64
        };
        proof {
            assert(mean == mean_of(pre.samples));
            assert(0 <= mean <= i64::MAX);
        }
        let mut variance: i64 = 0;
        if n > 1 {
            let mut numer: i64 = 0;
            let mut j: usize = 0;
            while j < n
                invariant
                    self@ == pre,
                    pre == old(self)@,
                    samples_nonneg(pre.samples),
                    mean_fits(pre.samples),
                    mean == mean_of(pre.samples),
                    0 <= mean,
                    0 <= j <= n,
                    1 < n == pre.samples.len(),
                    numer == var_numer(pre.samples.take(j as int), mean as int),
                    numer >= 0,
                    forall|i: int|
                        0 <= i < j ==> (#[trigger] pre.samples[i].rtt_us - mean_of(pre.samples))
                            * (pre.samples[i].rtt_us - mean_of(pre.samples)) <= i64::MAX,
                decreases n - j,
            {
                let s = self.samples[j];
                proof {
                    lemma_elem_le_sum(pre.samples, j as int);
                    lemma_sum_nonneg(pre.samples);
                }
                let d = s.rtt_us - mean;
                let dd = match d.checked_mul(d) {
                    Some(v) => v,
                    None => {
                        self.closed = true;
                        proof {
                            lemma_square_nonneg(d as int);
                            assert((pre.samples[j as int].rtt_us - mean_of(pre.samples)) * (
                            pre.samples[j as int].rtt_us - mean_of(pre.samples)) > i64::MAX);
                            assert(!variance_fits(pre.samples));
                            assert(self@ =~= (TrackerModel { closed: true, ..pre }));
                            assert(self@ == (TrackerModel { closed: true, ..pre }));
                        }
                        return Err(PingTrackerError::VarianceOverflow);
                    },
                };
                proof {
                    lemma_numer_take_succ(pre.samples, mean as int, j as int);
                }
                numer = match numer.checked_add(dd) {
                    Some(v) => v,
                    None => {
                        self.closed = true;
                        proof {
                            lemma_numer_take_le(pre.samples, mean as int, j as int + 1);
                            assert(!variance_fits(pre.samples));
                            assert(self@ =~= (TrackerModel { closed: true, ..pre }));
                            assert(self@ == (TrackerModel { closed: true, ..pre }));
                        }
                        return Err(PingTrackerError::VarianceOverflow);
                    },
                };
                proof {
                    lemma_numer_nonneg(pre.samples.take(j as int + 1), mean as int);
                }
                j += 1;
            }
            proof {
                assert(pre.samples.take(n as int) =~= pre.samples);
                lemma_div_basics_4(numer as int, n as int - 1);
                lemma_div_nonincreasing(numer as int, n as int - 1);
            }
            variance = ((numer as u64) / ((n - 1) as u64)) as i64;
        }
        proof {
            assert(variance == variance_of(pre.samples));
        }
        let var_before = self.variance;
        self.variance = variance;
        if variance > var_before {
            let half = self.ping_spacing / 2;
            self.ping_spacing = if half < MIN_PING_SPACING_US {
                MIN_PING_SPACING_US
            } else {
                half
            };
        } else if variance < var_before {
            let grown = self.ping_spacing * 5 / 4;
            self.ping_spacing = if grown > MAX_PING_SPACING_US {
                MAX_PING_SPACING_US
            } else {
                grown
            };
        }
        let mut publish = false;
        if mean > 0 {
            if self.published_mean <= 0 {
                publish = true;
            } else {
                let diff = self.published_mean - mean;
                let adiff = if diff < 0 {
                    -diff
                } else {
                    diff
                };
                publish = adiff > (((self.published_mean as u64) / 10) as i64);
            }
        }
        if publish {
            self.published_mean = mean;
        }
        proof {
            assert(publish == should_publish(pre.published_mean, mean_of(pre.samples)));
        }
        if !self.send_ping {
            self.timeout = Some(self.last_ping_sent + self.ping_spacing);
        }
        proof {
            assert(self@ =~= model_recalc(pre));
            assert(self@ == model_recalc(pre));
        }
        Ok(())
    }

    /// Drop samples and sent-ping records beyond their age limits, keeping
    /// at least three samples and one record.
    fn garbage_collect(&mut self, now: u64)
        ensures
            final(self)@ == model_gc(old(self)@, now as int),
    {
        let ghost pre = self@;
        if now >= MAX_SAMPLE_AGE_US {
            let epoch = now - MAX_SAMPLE_AGE_US;
            while self.samples.len() > 3 && self.samples[0].when < epoch
                invariant
                    pre == old(self)@,
                    self@ == (TrackerModel { samples: self.samples@, ..pre }),
                    gc_samples(self.samples@, epoch as int) == gc_samples(
                        pre.samples,
                        epoch as int,
                    ),
                decreases self.samples.len(),
            {
                let ghost before = self.samples@;
                self.samples.remove(0);
                proof {
                    assert(before.remove(0) =~= before.drop_first());
                }
            }
            proof {
                assert(gc_samples(self.samples@, epoch as int) == self.samples@);
            }
        }
        if now >= MAX_PING_AGE_US {
            let epoch = now - MAX_PING_AGE_US;
            let ghost mid = self@;
            while self.sent_pings.len() > 1 && self.sent_pings[0].1 < epoch
                invariant
                    pre == old(self)@,
                    mid.sent_pings == pre.sent_pings,
                    self@ == (TrackerModel { sent_pings: self.sent_pings@, ..mid }),
                    gc_pings(self.sent_pings@, epoch as int) == gc_pings(
                        pre.sent_pings,
                        epoch as int,
                    ),
                decreases self.sent_pings.len(),
            {
                let ghost before = self.sent_pings@;
                self.sent_pings.remove(0);
                proof {
                    assert(before.remove(0) =~= before.drop_first());
                }
            }
            proof {
                assert(gc_pings(self.sent_pings@, epoch as int) == self.sent_pings@);
            }
        }
        proof {
            assert(self@ =~= model_gc(pre, now as int));
            assert(self@ == model_gc(pre, now as int));
        }
    }

    /// One pass of the timer task: when the armed timer has expired at
    /// `now`, disarm it, garbage-collect, request that a ping be sent, and
    /// recompute the statistics.  Garbage collection never drops the sample
    /// count below three or the sent-ping record count below one.
    pub fn run(&mut self, now: u64) -> (r: Result<(), PingTrackerError>)
        requires
            old(self).wf(),
            old(self)@.clock <= now <= MAX_INSTANT_US,
        ensures
            final(self).wf(),
            old(self)@.closed ==> r is Ok && final(self)@ == old(self)@,
            !old(self)@.closed && !timer_expired(old(self)@, now as int) ==> r is Ok
                && final(self)@ == (TrackerModel { clock: now as int, ..old(self)@ }),
            !old(self)@.closed && timer_expired(old(self)@, now as int) ==> ({
                let g = model_gc(
                    TrackerModel {
                        clock: now as int,
                        timeout: None,
                        send_ping: true,
                        ..old(self)@
                    },
                    now as int,
                );
                &&& (r is Ok <==> recalc_ok(g.samples))
                &&& (r is Ok ==> final(self)@ == model_recalc(g))
                &&& (r is Err ==> final(self)@ == (TrackerModel { closed: true, ..g }))
            }),
            final(self)@.samples.len() >= if old(self)@.samples.len() <= 3 {
                old(self)@.samples.len() as int
            } else {
                3
            },
            final(self)@.sent_pings.len() >= if old(self)@.sent_pings.len() <= 1 {
                old(self)@.sent_pings.len() as int
            } else {
                1
            },
    {
        if self.closed {
            return Ok(());
        }
        let ghost pre = self@;
        self.clock = now;
        let mut fired = false;
        match self.timeout {
            Some(t) => {
                if now >= t {
                    fired = true;
                }
            },
            None => {},
        }
        if !fired {
            proof {
                assert(self@ =~= (TrackerModel { clock: now as int, ..pre }));
                assert(self@ == (TrackerModel { clock: now as int, ..pre }));
            }
            return Ok(());
        }
        self.timeout = None;
        self.garbage_collect(now);
        self.send_ping = true;
        let ghost g = model_gc(
            TrackerModel { clock: now as int, timeout: None, send_ping: true, ..pre },
            now as int,
        );
        proof {
            assert(self@ =~= g);
            assert(self@ == g);
            lemma_gc_samples_props(pre.samples, now as int - MAX_SAMPLE_AGE_US);
            lemma_gc_pings_props(pre.sent_pings, now as int - MAX_PING_AGE_US);
            let ks = choose|k: int|
                0 <= k <= pre.samples.len() && gc_samples(
                    pre.samples,
                    now as int - MAX_SAMPLE_AGE_US,
                ) == pre.samples.skip(k);
            let kp = choose|k: int|
                0 <= k <= pre.sent_pings.len() && gc_pings(
                    pre.sent_pings,
                    now as int - MAX_PING_AGE_US,
                ) == pre.sent_pings.skip(k);
            assert forall|i: int| 0 <= i < g.samples.len() implies (#[trigger] g.samples[i]).rtt_us
                >= 0 && g.samples[i].when <= now by {
                if now >= MAX_SAMPLE_AGE_US {
                    assert(g.samples[i] == pre.samples[ks + i]);
                } else {
                    assert(g.samples[i] == pre.samples[i]);
                }
            }
            assert forall|i: int|
                0 <= i < g.sent_pings.len() implies (#[trigger] g.sent_pings[i]).1 <= now
                && g.sent_pings[i].0 < g.next_ping_id by {
                if now >= MAX_PING_AGE_US {
                    assert(g.sent_pings[i] == pre.sent_pings[kp + i]);
                } else {
                    assert(g.sent_pings[i] == pre.sent_pings[i]);
                }
            }
            assert forall|i: int, j: int|
                0 <= i < j < g.sent_pings.len() implies (#[trigger] g.sent_pings[i]).0 < (
            #[trigger] g.sent_pings[j]).0 by {
                if now >= MAX_PING_AGE_US {
                    assert(g.sent_pings[i] == pre.sent_pings[kp + i]);
                    assert(g.sent_pings[j] == pre.sent_pings[kp + j]);
                } else {
                    assert(g.sent_pings[i] == pre.sent_pings[i]);
                    assert(g.sent_pings[j] == pre.sent_pings[j]);
                }
            }
        }
        let r = self.recalculate();
        proof {
            lemma_next_spacing_bounds(g.ping_spacing, g.variance, variance_of(g.samples));
            lemma_sum_nonneg(g.samples);
            if g.samples.len() > 0 {
                lemma_div_basics_4(sum_rtt(g.samples), g.samples.len() as int);
            }
        }
        r
    }

    /// Feed an inbound pong received at `now`.  When the pong's id matches
    /// an outstanding sent ping and its queue delay does not exceed the
    /// elapsed time, a round-trip sample is recorded; a pong referencing an
    /// unknown or expired id changes no sample and is no error.  The
    /// statistics are then recomputed.
    pub fn got_pong(&mut self, pong: Pong, now: u64) -> (r: Result<(), PingTrackerError>)
        requires
            old(self).wf(),
            old(self)@.clock <= now <= MAX_INSTANT_US,
        ensures
            final(self).wf(),
            old(self)@.closed ==> r is Ok && final(self)@ == old(self)@,
            !old(self)@.closed ==> ({
                let m1 = model_got_pong(old(self)@, pong, now as int);
                &&& (r is Ok <==> recalc_ok(m1.samples))
                &&& (r is Ok ==> final(self)@ == model_recalc(m1))
                &&& (r is Err ==> final(self)@ == (TrackerModel { closed: true, ..m1 }))
            }),
            !has_ping(old(self)@.sent_pings, pong.id) ==> r is Ok
                && final(self)@.samples == old(self)@.samples,
    {
        if self.closed {
            return Ok(());
        }
        let ghost pre = self@;
        self.clock = now;
        let count = self.sent_pings.len();
        let mut i: usize = 0;
        let mut sent_at: Option<u64> = None;
        while i < count
            invariant
                pre == old(self)@,
                count == self.sent_pings@.len(),
                self@ == (TrackerModel { clock: now as int, ..pre }),
                0 <= i <= count,
                sent_at is None ==> forall|k: int|
                    0 <= k < i ==> (#[trigger] self.sent_pings@[k]).0 != pong.id,
                sent_at matches Some(w) ==> exists|k: int|
                    0 <= k < count && (#[trigger] self.sent_pings@[k]).0 == pong.id
                        && self.sent_pings@[k].1 == w,
            decreases count - i,
        {
            if self.sent_pings[i].0 == pong.id {
                sent_at = Some(self.sent_pings[i].1);
            }
            i += 1;
        }
        let ghost m1 = model_got_pong(pre, pong, now as int);
        match sent_at {
            Some(when_sent) => {
                proof {
                    assert(has_ping(pre.sent_pings, pong.id));
                    let k = choose|k: int|
                        0 <= k < count && (#[trigger] pre.sent_pings[k]).0 == pong.id
                            && pre.sent_pings[k].1 == when_sent;
                    let c = choose|i: int|
                        0 <= i < pre.sent_pings.len() && pre.sent_pings[i].0 == pong.id;
                    if k != c {
                        assert(pre.sent_pings[k].0 != pre.sent_pings[c].0);
                    }
                    assert(ping_sent_at(pre.sent_pings, pong.id) == when_sent as int);
                    assert(when_sent <= pre.clock);
                }
                let elapsed = now - when_sent;
                if pong.queue_time <= elapsed {
                    let rtt = (elapsed - pong.queue_time) as i64;
                    self.samples.push(Sample { when: now, rtt_us: rtt });
                    proof {
                        assert(self@.samples =~= m1.samples);
                        assert(self@ =~= m1);
                        assert(self@ == m1);
                    }
                } else {
                    proof {
                        assert(self@ =~= m1);
                        assert(self@ == m1);
                    }
                }
            },
            None => {
                proof {
                    assert(!has_ping(pre.sent_pings, pong.id));
                    assert(self@ =~= m1);
                    assert(self@ == m1);
                }
            },
        }
        let r = self.recalculate();
        proof {
            lemma_next_spacing_bounds(m1.ping_spacing, m1.variance, variance_of(m1.samples));
            lemma_sum_nonneg(m1.samples);
            if m1.samples.len() > 0 {
                lemma_div_basics_4(sum_rtt(m1.samples), m1.samples.len() as int);
            }
            if !has_ping(pre.sent_pings, pong.id) {
                assert(m1.samples == pre.samples);
                assert(recalc_ok(m1.samples));
            }
        }
        r
    }

    /// Non-blocking check whether a ping or a pong needs to be transmitted
    /// now.  At most one ping id and one pong are returned per call; ping
    /// ids are strictly increasing.  Sending a ping records it as
    /// outstanding and recomputes the statistics.  A closed tracker
    /// transmits nothing.
    pub fn poll_send_ping_pong(&mut self, now: u64) -> (r: (Option<u64>, Option<Pong>))
        requires
            old(self).wf(),
            old(self)@.clock <= now <= MAX_INSTANT_US,
            old(self)@.next_ping_id < u64::MAX,
        ensures
            final(self).wf(),
            old(self)@.closed ==> r == (None::<u64>, None::<Pong>)
                && final(self)@ == old(self)@,
            !old(self)@.closed ==> ({
                let pinged = old(self)@.send_ping;
                let m1 = if pinged {
                    TrackerModel {
                        send_ping: false,
                        next_ping_id: old(self)@.next_ping_id + 1,
                        sent_pings: old(self)@.sent_pings.push(
                            (old(self)@.next_ping_id as u64, now),
                        ),
                        last_ping_sent: now as int,
                        clock: now as int,
                        ..old(self)@
                    }
                } else {
                    TrackerModel { clock: now as int, ..old(self)@ }
                };
                let m2 = TrackerModel { send_pong: None, ..m1 };
                &&& r.0 == if pinged {
                    Some(old(self)@.next_ping_id as u64)
                } else {
                    None::<u64>
                }
                &&& r.1 == match old(self)@.send_pong {
                    Some(p) => Some(Pong { id: p.0, queue_time: (now - p.1) as u64 }),
                    None => None::<Pong>,
                }
                &&& final(self)@ == if pinged {
                    model_recalc(m2)
                } else {
                    m2
                }
            }),
    {
        if self.closed {
            return (None, None);
        }
        let ghost pre = self@;
        self.clock = now;
        let ping: Option<u64> = if self.send_ping {
            self.send_ping = false;
            let id = self.next_ping_id;
            self.next_ping_id = self.next_ping_id + 1;
            self.sent_pings.push((id, now));
            self.last_ping_sent = now;
            Some(id)
        } else {
            None
        };
        let pong: Option<Pong> = match self.send_pong {
            Some((id, ping_received)) => {
                let queue_time = now - ping_received;
                self.send_pong = None;
                Some(Pong { id, queue_time })
            },
            None => None,
        };
        let ghost m2 = self@;
        if ping.is_some() {
            let r = self.recalculate();
            proof {
                assert(recalc_ok(m2.samples));
                lemma_next_spacing_bounds(m2.ping_spacing, m2.variance, variance_of(m2.samples));
                lemma_sum_nonneg(m2.samples);
                if m2.samples.len() > 0 {
                    lemma_div_basics_4(sum_rtt(m2.samples), m2.samples.len() as int);
                }
            }
            match r {
                Ok(()) => (ping, pong),
                Err(_) => {
                    // Unreachable: the samples were unchanged, so the
                    // recomputation that succeeded before succeeds again.
                    (None, None)
                },
            }
        } else {
            proof {
                assert(self@ =~= (TrackerModel {
                    send_pong: None,
                    ..(TrackerModel { clock: now as int, ..pre })
                }));
            }
            (ping, pong)
        }
    }

    /// Feed an inbound ping received at `now`; the matching pong is handed
    /// out by the next `poll_send_ping_pong`.
    pub fn got_ping(&mut self, ping: u64, now: u64)
        requires
            old(self).wf(),
            old(self)@.clock <= now <= MAX_INSTANT_US,
        ensures
            final(self).wf(),
            final(self)@ == (TrackerModel {
                send_pong: Some((ping, now)),
                clock: now as int,
                ..old(self)@
            }),
    {
        let ghost pre = self@;
        self.clock = now;
        self.send_pong = Some((ping, now));
        proof {
            assert(self@ =~= (TrackerModel {
                send_pong: Some((ping, now)),
                clock: now as int,
                ..pre
            }));
        }
    }

    /// Mark the tracker closed; the driver's tasks observe the flag and
    /// exit at their next step.
    pub fn close(&mut self)
        requires
            old(self).wf(),
        ensures
            final(self).wf(),
            final(self)@ == (TrackerModel { closed: true, ..old(self)@ }),
    {
        let ghost pre = self@;
        self.closed = true;
        proof {
            assert(self@ =~= (TrackerModel { closed: true, ..pre }));
        }
    }

    /// Number of round-trip samples currently retained.
    pub fn retained_samples(&self) -> (r: usize)
        ensures
            r == self@.samples.len(),
    {
        self.samples.len()
    }

    /// Number of outstanding sent-ping records currently retained.
    pub fn outstanding_pings(&self) -> (r: usize)
        ensures
            r == self@.sent_pings.len(),
    {
        self.sent_pings.len()
    }

    /// The instant at which the armed timer expires, if any.
    pub fn next_timeout(&self) -> (r: Option<u64>)
        ensures
            r is Some <==> self@.timeout is Some,
            r matches Some(t) ==> self@.timeout == Some(t as int),
    {
        self.timeout
    }

    /// Subscribe to the published round-trip estimate.
    pub fn new_round_trip_time_observer(&self) -> (obs: RttObserver)
        ensures
            obs.last_seen is None,
    {
        RttObserver { last_seen: None }
    }

    /// Current round-trip estimate: the last published mean, in microseconds.
    pub fn round_trip_time(&self) -> (r: Option<u64>)
        requires
            self.wf(),
        ensures
            r is Some <==> self@.published_mean > 0,
            r matches Some(m) ==> m == self@.published_mean,
    {
        if self.published_mean > 0 {
            Some(self.published_mean as u64)
        } else {
            None
        }
    }
}

/// Law: the adaptive ping spacing never leaves the closed interval from
/// `MIN_PING_SPACING_US` to `MAX_PING_SPACING_US`, regardless of how many
/// variance increases or decreases have occurred: it is part of every
/// well-formed tracker state, which every operation preserves.
pub proof fn lemma_ping_spacing_bounded(t: PingTracker)
    requires
        t.wf(),
    ensures
        MIN_PING_SPACING_US <= t@.ping_spacing <= MAX_PING_SPACING_US,
{
}

/// Law: one spacing adjustment maps a spacing within its bounds back into
/// its bounds, whichever way the variance moved.
pub proof fn lemma_spacing_step_bounded(spacing: int, var_before: int, var_after: int)
    requires
        MIN_PING_SPACING_US <= spacing <= MAX_PING_SPACING_US,
    ensures
        MIN_PING_SPACING_US <= next_spacing(spacing, var_before, var_after)
            <= MAX_PING_SPACING_US,
{
    lemma_next_spacing_bounds(spacing, var_before, var_after);
}

/// Law: once an estimate has been published, a statistics recomputation —
/// the only transition that writes the published mean — changes it only
/// when the new mean differs from it by more than a tenth of it.
pub proof fn lemma_published_rtt_stable(m: TrackerModel)
    requires
        m.published_mean > 0,
    ensures
        model_recalc(m).published_mean != m.published_mean ==> abs_int(
            m.published_mean - mean_of(m.samples),
        ) > m.published_mean / 10,
{
}

/// An observer of the broadcast round-trip estimate: `next` yields the
/// current value whenever it differs from the last one this observer saw
/// (the very first call always yields it).
pub struct RttObserver {
    /// The last value this observer saw, or `None` before the first call.
    pub last_seen: Option<Option<u64>>,
}

impl RttObserver {
    /// Poll the tracker's published estimate: `Some(current)` when it
    /// changed since this observer last looked, `None` otherwise.
    pub fn next(&mut self, tracker: &PingTracker) -> (r: Option<Option<u64>>)
        requires
            tracker.wf(),
        ensures
            ({
                let cur = if tracker@.published_mean > 0 {
                    Some(tracker@.published_mean as u64)
                } else {
                    None::<u64>
                };
                &&& (old(self).last_seen == Some(cur) ==> r is None && final(self).last_seen
                    == old(self).last_seen)
                &&& (old(self).last_seen != Some(cur) ==> r == Some(cur)
                    && final(self).last_seen == Some(cur))
            }),
    {
        let cur = tracker.round_trip_time();
        let changed = match (&self.last_seen, &cur) {
            (None, _) => true,
            (Some(None), None) => false,
            (Some(None), Some(_)) => true,
            (Some(Some(_)), None) => true,
            (Some(Some(a)), Some(b)) => *a != *b,
        };
        if changed {
            self.last_seen = Some(cur);
            Some(cur)
        } else {
            None
        }
    }
}

} // verus!
