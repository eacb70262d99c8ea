use vstd::prelude::*;

verus! {

/// Time from `from` to `to`, or zero where `to` is earlier.
pub open spec fn elapsed(from: u64, to: u64) -> u64 {
    if to >= from {
        (to - from) as u64
    } else {
        0
    }
}

/// A progress snapshot. Durations are in the caller's clock unit.
#[derive(Clone, Copy, Debug, PartialEq, Eq, Structural)]
pub struct Report {
    /// Time since the search started.
    pub total: u64,
    /// Time since the previous report.
    pub since_last: u64,
    /// Failed attempts so far, over all workers.
    pub attempts: u64,
}

/// Shared progress accounting: the aggregate attempt counter and two timestamps,
/// read from a monotonic clock that the caller supplies.
#[derive(Clone, Copy, Debug, PartialEq, Eq, Structural)]
pub struct State {
    pub counter: u64,
    pub start: u64,
    pub iteration: u64,
}

/// Whether the `n`-th recorded attempt (counting from one) emits a report.
pub open spec fn reports_at(n: nat, interval: nat) -> bool {
    n % interval == 0
}

/// How many of the attempts `1..=n` emit a report.
pub open spec fn reports_within(n: nat, interval: nat) -> nat
    decreases n,
{
    if n == 0 {
        0
    } else {
        reports_within((n - 1) as nat, interval) + if reports_at(n, interval) {
            1nat
        } else {
            0nat
        }
    }
}

/// How many of `n` successive `record_attempt` calls, starting from counter `c0`,
/// emit a report: those whose new count `c0 + 1 ..= c0 + n` is a multiple of `interval`.
pub open spec fn reports_between(c0: nat, n: nat, interval: nat) -> nat
    decreases n,
{
    if n == 0 {
        0
    } else {
        reports_between(c0, (n - 1) as nat, interval) + if reports_at(c0 + n, interval) {
            1nat
        } else {
            0nat
        }
    }
}

fn elapsed_exec(from: u64, to: u64) -> (r: u64)
    ensures
        r == elapsed(from, to),
{
    if to >= from {
        to - from
    } else {
        0
    }
}

impl State {
    /// A fresh tracker: nothing counted, both timestamps at `now`.
    pub fn new(now: u64) -> (r: State)
        ensures
            r == (State { counter: 0, start: now, iteration: now }),
    {
        State { counter: 0, start: now, iteration: now }
    }

    /// The report for the moment `now`; the "since last report" clock restarts there.
    pub fn print_details(&mut self, now: u64) -> (r: Report)
        ensures
            r == (Report {
                total: elapsed(old(self).start, now),
                since_last: elapsed(old(self).iteration, now),
                attempts: old(self).counter,
            }),
            *final(self) == (State { iteration: now, ..*old(self) }),
    {
        let total = elapsed_exec(self.start, now);
        let since_last = elapsed_exec(self.iteration, now);
        self.iteration = now;
        Report { total, since_last, attempts: self.counter }
    }

    /// Counts one failed attempt; returns a report exactly when the new count is a
    /// multiple of `interval`.
    pub fn record_attempt(&mut self, interval: u64, now: u64) -> (r: Option<Report>)
        requires
            interval > 0,
            old(self).counter < u64::MAX,
        ensures
            final(self).counter == old(self).counter + 1,
            final(self).start == old(self).start,
            r is Some <==> reports_at(final(self).counter as nat, interval as nat),
            r matches Some(rep) ==> rep == (Report {
                total: elapsed(old(self).start, now),
                since_last: elapsed(old(self).iteration, now),
                attempts: final(self).counter,
            }) && final(self).iteration == now,
            r is None ==> final(self).iteration == old(self).iteration,
    {
        self.counter = self.counter + 1;
        if self.counter % interval == 0 {
            Some(self.print_details(now))
        } else {
            None
        }
    }
}

/// After `k * interval` recorded attempts, counted from zero, exactly `k` reports
/// have been emitted.
pub proof fn lemma_reports_per_interval(k: nat, interval: nat)
    requires
        interval > 0,
    ensures
        reports_within(k * interval, interval) == k,
{
    lemma_reports_within_div(k * interval, interval);
    assert((k * interval) / interval == k) by (nonlinear_arith)
        requires
            interval > 0,
    ;
}

/// However the calls are spread over workers, `n` successive `record_attempt` calls
/// from counter `c0` emit `(c0 + n) / interval - c0 / interval` reports, one at each
/// new count that is a multiple of `interval`.
pub proof fn lemma_reports_between(c0: nat, n: nat, interval: nat)
    requires
        interval > 0,
    ensures
        reports_between(c0, n, interval) == (c0 + n) / interval - c0 / interval,
        reports_between(c0, n, interval) == reports_within(c0 + n, interval) - reports_within(
            c0,
            interval,
        ),
    decreases n,
{
    lemma_reports_within_div(c0 + n, interval);
    lemma_reports_within_div(c0, interval);
    if n > 0 {
        lemma_reports_between(c0, (n - 1) as nat, interval);
        assert(reports_within(c0 + n, interval) == reports_within((c0 + n - 1) as nat, interval)
            + if reports_at(c0 + n, interval) {
            1nat
        } else {
            0nat
        });
    }
}

/// The number of reports among the attempts `1..=n` is `n / interval`.
pub proof fn lemma_reports_within_div(n: nat, interval: nat)
    requires
        interval > 0,
    ensures
        reports_within(n, interval) == n / interval,
    decreases n,
{
    if n > 0 {
        lemma_reports_within_div((n - 1) as nat, interval);
        let m = (n - 1) as nat;
        vstd::arithmetic::div_mod::lemma_fundamental_div_mod(m as int, interval as int);
        vstd::arithmetic::div_mod::lemma_fundamental_div_mod(n as int, interval as int);
        let q = m / interval;
        let r = m % interval;
        if r + 1 == interval {
            assert(n == (q + 1) * interval) by (nonlinear_arith)
                requires
                    m == interval * q + r,
                    r + 1 == interval,
                    n == m + 1,
            ;
            vstd::arithmetic::div_mod::lemma_div_multiples_vanish((q + 1) as int, interval as int);
            vstd::arithmetic::div_mod::lemma_mod_multiples_basic((q + 1) as int, interval as int);
            assert(n / interval == q + 1) by (nonlinear_arith)
                requires
                    n == (q + 1) * interval,
                    interval > 0,
            ;
        } else {
            assert(r + 1 < interval);
            vstd::arithmetic::div_mod::lemma_fundamental_div_mod_converse(
                n as int,
                interval as int,
                q as int,
                (r + 1) as int,
            );
        }
    }
}

} // verus!
