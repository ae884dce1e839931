//! Traits for the runner's OS collaborators — restarting the machine and
//! sampling performance counters — and the idle detector built on them.
//!
//! The system is *idle* when one polling interval passes with no disk reads
//! or writes and with the CPU at least 95% idle. The detector takes up to
//! [`ATTEMPT_COUNT`] samples, half a second apart, and then times out.

use vstd::prelude::*;

use crate::ErrorMessage;

verus! {

/// A provider of the ability to restart the machine.
pub trait ShutdownProvider: Sized {
    /// Initiate a restart with the given reason.
    ///
    /// On success the machine is going down; the caller's last duty is to
    /// report it.
    fn initiate_restart(&self, reason: &str) -> Result<(), ErrorMessage>;
}

/// Raw disk I/O counters, monotonically non-decreasing.
#[derive(Clone, Copy, Debug, PartialEq, Eq, Structural)]
pub struct IoCounters {
    /// Reads completed so far.
    pub reads: u32,
    /// Writes completed so far.
    pub writes: u32,
}

impl Default for IoCounters {
    /// Counters that have seen no traffic.
    fn default() -> (r: Self)
        ensures
            r.reads == 0 && r.writes == 0,
    {
        IoCounters { reads: 0, writes: 0 }
    }
}

/// A provider of disk and CPU performance information.
///
/// The shipped implementation reads OS counters; tests substitute scripted
/// samples.
pub trait PerfProvider: Sized {
    /// Return raw read and write I/O counters.
    fn get_disk_io_counters(&mut self) -> Result<IoCounters, ErrorMessage>;

    /// Return the fraction of time the CPU is idle, in permille (0..=1000).
    fn get_cpu_idle_permille(&mut self) -> Result<u32, ErrorMessage>;

    /// How many samples the idle detector takes before timing out.
    fn attempt_count(&self) -> usize;

    /// Sleep for one polling interval before the next sample.
    fn wait_poll_interval(&mut self);
}

/// The idle threshold: at least 95% of CPU time idle.
pub const TARGET_CPU_IDLE_PERMILLE: u32 = 950;

/// The default number of samples before the idle wait times out.
pub const ATTEMPT_COUNT: usize = 30;

/// The polling cadence of the idle detector, in milliseconds.
pub const IDLE_POLL_INTERVAL_MS: u64 = 500;

/// An error from waiting for the system to become idle.
#[derive(Debug)]
pub enum WaitForIdleError {
    /// The system did not become idle within the sample budget.
    TimeoutError,
    /// The disk counters could not be sampled.
    DiskIoError(ErrorMessage),
    /// The CPU idle time could not be sampled.
    CpuTimeError(ErrorMessage),
}

/// The text of a [`WaitForIdleError`].
pub open spec fn spec_idle_error_message(e: WaitForIdleError) -> Seq<char> {
    match e {
        WaitForIdleError::TimeoutError => "timed out waiting for CPU and disk to become idle"@,
        WaitForIdleError::DiskIoError(m) => m.0@,
        WaitForIdleError::CpuTimeError(m) => m.0@,
    }
}

impl WaitForIdleError {
    /// Render the error as human-readable text.
    pub fn message(&self) -> (r: String)
        ensures
            r@ == spec_idle_error_message(*self),
    {
        match self {
            WaitForIdleError::TimeoutError => {
                let mut out = String::new();
                out.append("timed out waiting for CPU and disk to become idle");
                out
            },
            WaitForIdleError::DiskIoError(m) => m.0.clone(),
            WaitForIdleError::CpuTimeError(m) => m.0.clone(),
        }
    }
}

/// Whether one sample interval was idle: no disk reads, no disk writes,
/// and the CPU idle fraction at or above the threshold.
pub open spec fn spec_is_idle_sample(prev: IoCounters, cur: IoCounters, idle_permille: u32) -> bool {
    &&& cur.reads == prev.reads
    &&& cur.writes == prev.writes
    &&& idle_permille >= TARGET_CPU_IDLE_PERMILLE
}

/// Decide whether one sample interval was idle.
pub fn is_idle_sample(prev: IoCounters, cur: IoCounters, idle_permille: u32) -> (r: bool)
    ensures
        r == spec_is_idle_sample(prev, cur, idle_permille),
{
    cur.reads == prev.reads && cur.writes == prev.writes && idle_permille
        >= TARGET_CPU_IDLE_PERMILLE
}

/// What one observation does to the idle detector.
#[derive(Clone, Copy, Debug, PartialEq, Eq, Structural)]
pub enum IdleStep {
    /// The sample was idle; the wait is over.
    BecameIdle,
    /// The sample was busy and attempts remain.
    StillBusy,
    /// The sample was busy and the budget is exhausted.
    TimedOut,
}

/// The idle detector's state between samples: the previous counters and
/// how many samples remain.
pub struct IdleDetector {
    /// The counters from the previous sample.
    pub prev: IoCounters,
    /// How many more samples may be taken.
    pub remaining: usize,
}

impl IdleDetector {
    /// Start detecting, with a first baseline sample and a sample budget.
    pub fn new(baseline: IoCounters, attempts: usize) -> (r: Self)
        ensures
            r.prev == baseline,
            r.remaining == attempts,
    {
        IdleDetector { prev: baseline, remaining: attempts }
    }

    /// Feed one sample. Exactly one budget unit is spent per call; the
    /// detector reports idle on the first idle sample and times out when
    /// a busy sample exhausts the budget.
    pub fn observe(&mut self, cur: IoCounters, idle_permille: u32) -> (r: IdleStep)
        requires
            old(self).remaining > 0,
        ensures
            final(self).remaining == old(self).remaining - 1,
            final(self).prev == cur,
            r == IdleStep::BecameIdle <==> spec_is_idle_sample(old(self).prev, cur, idle_permille),
            r == IdleStep::TimedOut <==> !spec_is_idle_sample(old(self).prev, cur, idle_permille)
                && old(self).remaining == 1,
            r == IdleStep::StillBusy <==> !spec_is_idle_sample(old(self).prev, cur, idle_permille)
                && old(self).remaining > 1,
    {
        let idle = is_idle_sample(self.prev, cur, idle_permille);
        self.prev = cur;
        self.remaining = self.remaining - 1;
        if idle {
            IdleStep::BecameIdle
        } else if self.remaining == 0 {
            IdleStep::TimedOut
        } else {
            IdleStep::StillBusy
        }
    }
}

/// A performance provider together with the ghost log of the samples it
/// has yielded, and the sample budget it reported when wrapped.
///
/// The log is what lets the idle wait's contract speak about the samples:
/// each successful provider call appends its result.
pub struct Perf<P: PerfProvider> {
    /// The underlying provider.
    pub inner: P,
    attempts: usize,
    disk_samples: Ghost<Seq<IoCounters>>,
    cpu_samples: Ghost<Seq<u32>>,
}

impl<P: PerfProvider> Perf<P> {
    /// The disk counter samples yielded so far, in order.
    pub closed spec fn disk_log(&self) -> Seq<IoCounters> {
        self.disk_samples@
    }

    /// The CPU idle samples yielded so far, in order.
    pub closed spec fn cpu_log(&self) -> Seq<u32> {
        self.cpu_samples@
    }

    /// The sample budget the provider reported at wrapping time.
    pub closed spec fn budget(&self) -> usize {
        self.attempts
    }

    /// Read the sample budget.
    pub fn attempt_budget(&self) -> (r: usize)
        ensures
            r == self.budget(),
    {
        self.attempts
    }

    /// Wrap a provider; nothing has been sampled yet.
    pub fn new(inner: P) -> (r: Self)
        ensures
            r.disk_log() == Seq::<IoCounters>::empty(),
            r.cpu_log() == Seq::<u32>::empty(),
    {
        let attempts = inner.attempt_count();
        Perf {
            inner,
            attempts,
            disk_samples: Ghost(Seq::empty()),
            cpu_samples: Ghost(Seq::empty()),
        }
    }

    /// Sample the disk counters, logging a successful sample.
    fn get_disk_io_counters(&mut self) -> (r: Result<IoCounters, ErrorMessage>)
        ensures
            final(self).budget() == old(self).budget(),
            final(self).cpu_log() == old(self).cpu_log(),
            match r {
                Ok(c) => final(self).disk_log() == old(self).disk_log().push(c),
                Err(_) => final(self).disk_log() == old(self).disk_log(),
            },
    {
        match self.inner.get_disk_io_counters() {
            Ok(c) => {
                proof {
                    self.disk_samples@ = self.disk_samples@.push(c);
                }
                Ok(c)
            },
            Err(e) => Err(e),
        }
    }

    /// Sample the CPU idle fraction, logging a successful sample.
    fn get_cpu_idle_permille(&mut self) -> (r: Result<u32, ErrorMessage>)
        ensures
            final(self).budget() == old(self).budget(),
            final(self).disk_log() == old(self).disk_log(),
            match r {
                Ok(f) => final(self).cpu_log() == old(self).cpu_log().push(f),
                Err(_) => final(self).cpu_log() == old(self).cpu_log(),
            },
    {
        match self.inner.get_cpu_idle_permille() {
            Ok(f) => {
                proof {
                    self.cpu_samples@ = self.cpu_samples@.push(f);
                }
                Ok(f)
            },
            Err(e) => Err(e),
        }
    }

    /// Sleep for one polling interval; nothing is sampled.
    fn wait_poll_interval(&mut self)
        ensures
            final(self).budget() == old(self).budget(),
            final(self).disk_log() == old(self).disk_log(),
            final(self).cpu_log() == old(self).cpu_log(),
    {
        self.inner.wait_poll_interval();
    }
}

/// The first `upto` sampling rounds were all busy. Round `k` compares the
/// disk counters of samples `k` and `k + 1` under CPU sample `k` (sample
/// `0` is the baseline).
pub open spec fn idle_rounds_busy(d: Seq<IoCounters>, c: Seq<u32>, upto: int) -> bool {
    forall|k: int| 0 <= k < upto ==> !spec_is_idle_sample(d[k], d[k + 1], #[trigger] c[k])
}

/// What the idle wait did, in terms of the samples it took (`d` the disk
/// samples, `c` the CPU samples, appended to the log during the wait):
///
/// - `Ok` exactly on the first idle round, within the budget;
/// - `TimeoutError` after a busy round for the whole budget, or at once
///   on a zero budget (one baseline sample and nothing more);
/// - `DiskIoError` / `CpuTimeError` for the first failing provider call,
///   with no further sampling after it and no idle round before it.
pub open spec fn idle_wait_delta(
    d: Seq<IoCounters>,
    c: Seq<u32>,
    attempts: int,
    r: Result<(), WaitForIdleError>,
) -> bool {
    match r {
        Ok(()) => {
            &&& 1 <= c.len() <= attempts
            &&& d.len() == c.len() + 1
            &&& spec_is_idle_sample(d[c.len() - 1], d[c.len() as int], c[c.len() - 1])
            &&& idle_rounds_busy(d, c, c.len() - 1)
        },
        Err(e) => match e {
            WaitForIdleError::TimeoutError => {
                ||| (attempts == 0 && d.len() == 1 && c.len() == 0)
                ||| (attempts >= 1 && c.len() == attempts && d.len() == attempts + 1
                    && idle_rounds_busy(d, c, attempts))
            },
            WaitForIdleError::DiskIoError(_) => {
                ||| (d.len() == 0 && c.len() == 0)
                ||| (d.len() == c.len() + 1 && c.len() < attempts && idle_rounds_busy(
                    d,
                    c,
                    c.len() as int,
                ))
            },
            WaitForIdleError::CpuTimeError(_) => d.len() == c.len() + 2 && c.len() < attempts
                && idle_rounds_busy(d, c, c.len() as int),
        },
    }
}

/// The idle wait appended samples to the logs and decided `r` from them
/// as [`idle_wait_delta`] says.
pub open spec fn idle_wait_outcome(
    pre_d: Seq<IoCounters>,
    post_d: Seq<IoCounters>,
    pre_c: Seq<u32>,
    post_c: Seq<u32>,
    attempts: int,
    r: Result<(), WaitForIdleError>,
) -> bool {
    &&& pre_d.len() <= post_d.len()
    &&& pre_c.len() <= post_c.len()
    &&& post_d.take(pre_d.len() as int) == pre_d
    &&& post_c.take(pre_c.len() as int) == pre_c
    &&& idle_wait_delta(
        post_d.skip(pre_d.len() as int),
        post_c.skip(pre_c.len() as int),
        attempts,
        r,
    )
}

/// Logs that grew by exactly `d` and `c` under a matching decision form
/// an idle-wait outcome.
proof fn lemma_outcome_from_parts(
    pre_d: Seq<IoCounters>,
    post_d: Seq<IoCounters>,
    pre_c: Seq<u32>,
    post_c: Seq<u32>,
    d: Seq<IoCounters>,
    c: Seq<u32>,
    attempts: int,
    r: Result<(), WaitForIdleError>,
)
    requires
        post_d == pre_d + d,
        post_c == pre_c + c,
        idle_wait_delta(d, c, attempts, r),
    ensures
        idle_wait_outcome(pre_d, post_d, pre_c, post_c, attempts, r),
{
    assert(post_d.take(pre_d.len() as int) =~= pre_d);
    assert(post_c.take(pre_c.len() as int) =~= pre_c);
    assert(post_d.skip(pre_d.len() as int) =~= d);
    assert(post_c.skip(pre_c.len() as int) =~= c);
}

/// Wait for the CPU and disk to become idle.
///
/// Takes a baseline sample, then up to `p.attempts` further samples one
/// polling interval apart. Returns `Ok` on the first idle sample,
/// `TimeoutError` when the budget runs out, or the sampling error.
/// With a zero sample budget the wait times out at once.
pub fn cpu_and_disk_idle<P: PerfProvider>(p: &mut Perf<P>) -> (r: Result<(), WaitForIdleError>)
    ensures
        final(p).budget() == old(p).budget(),
        idle_wait_outcome(
            old(p).disk_log(),
            final(p).disk_log(),
            old(p).cpu_log(),
            final(p).cpu_log(),
            old(p).budget() as int,
            r,
        ),
{
    let ghost pre_d = p.disk_log();
    let ghost pre_c = p.cpu_log();
    let ghost budget = p.budget() as int;
    let baseline = match p.get_disk_io_counters() {
        Ok(c) => c,
        Err(e) => {
            proof {
                assert(p.disk_log() =~= pre_d + Seq::<IoCounters>::empty());
                assert(p.cpu_log() =~= pre_c + Seq::<u32>::empty());
                assert(idle_wait_delta(
                    Seq::<IoCounters>::empty(),
                    Seq::<u32>::empty(),
                    budget,
                    Err(WaitForIdleError::DiskIoError(e)),
                ));
                lemma_outcome_from_parts(
                    pre_d,
                    p.disk_log(),
                    pre_c,
                    p.cpu_log(),
                    Seq::<IoCounters>::empty(),
                    Seq::<u32>::empty(),
                    budget,
                    Err(WaitForIdleError::DiskIoError(e)),
                );
            }
            return Err(WaitForIdleError::DiskIoError(e));
        },
    };
    let attempts = p.attempt_budget();
    let ghost mut dd: Seq<IoCounters> = seq![baseline];
    let ghost mut cc: Seq<u32> = Seq::empty();
    proof {
        assert(p.disk_log() =~= pre_d + dd);
        assert(p.cpu_log() =~= pre_c + cc);
    }
    if attempts == 0 {
        proof {
            assert(idle_wait_delta(dd, cc, budget, Err(WaitForIdleError::TimeoutError)));
            lemma_outcome_from_parts(
                pre_d,
                p.disk_log(),
                pre_c,
                p.cpu_log(),
                dd,
                cc,
                budget,
                Err(WaitForIdleError::TimeoutError),
            );
        }
        return Err(WaitForIdleError::TimeoutError);
    }
    let mut prev = baseline;
    let mut i: usize = 0;
    #[verifier::loop_isolation(false)]
    while i < attempts
        invariant
            i <= attempts,
            attempts == p.budget(),
            p.disk_log() == pre_d + dd,
            p.cpu_log() == pre_c + cc,
            dd.len() == i + 1,
            cc.len() == i,
            dd.last() == prev,
            idle_rounds_busy(dd, cc, i as int),
        decreases attempts - i,
    {
        p.wait_poll_interval();
        let cur = match p.get_disk_io_counters() {
            Ok(c) => c,
            Err(e) => {
                proof {
                    assert(idle_wait_delta(dd, cc, budget, Err(WaitForIdleError::DiskIoError(e))));
                    lemma_outcome_from_parts(
                        pre_d,
                        p.disk_log(),
                        pre_c,
                        p.cpu_log(),
                        dd,
                        cc,
                        budget,
                        Err(WaitForIdleError::DiskIoError(e)),
                    );
                }
                return Err(WaitForIdleError::DiskIoError(e));
            },
        };
        proof {
            dd = dd.push(cur);
            assert(p.disk_log() =~= pre_d + dd);
        }
        let idle_permille = match p.get_cpu_idle_permille() {
            Ok(f) => f,
            Err(e) => {
                proof {
                    assert(idle_wait_delta(dd, cc, budget, Err(WaitForIdleError::CpuTimeError(e))));
                    lemma_outcome_from_parts(
                        pre_d,
                        p.disk_log(),
                        pre_c,
                        p.cpu_log(),
                        dd,
                        cc,
                        budget,
                        Err(WaitForIdleError::CpuTimeError(e)),
                    );
                }
                return Err(WaitForIdleError::CpuTimeError(e));
            },
        };
        proof {
            cc = cc.push(idle_permille);
            assert(p.cpu_log() =~= pre_c + cc);
        }
        if is_idle_sample(prev, cur, idle_permille) {
            proof {
                assert(dd[i as int] == prev && dd[i + 1] == cur && cc[i as int] == idle_permille);
                assert(idle_wait_delta(dd, cc, budget, Ok(())));
                lemma_outcome_from_parts(
                    pre_d,
                    p.disk_log(),
                    pre_c,
                    p.cpu_log(),
                    dd,
                    cc,
                    budget,
                    Ok(()),
                );
            }
            return Ok(());
        }
        proof {
            assert(dd[i as int] == prev && dd[i + 1] == cur && cc[i as int] == idle_permille);
            assert(idle_rounds_busy(dd, cc, i + 1));
        }
        prev = cur;
        i = i + 1;
    }
    proof {
        assert(idle_wait_delta(dd, cc, budget, Err(WaitForIdleError::TimeoutError)));
        lemma_outcome_from_parts(
            pre_d,
            p.disk_log(),
            pre_c,
            p.cpu_log(),
            dd,
            cc,
            budget,
            Err(WaitForIdleError::TimeoutError),
        );
    }
    Err(WaitForIdleError::TimeoutError)
}

} // verus!
