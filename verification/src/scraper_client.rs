//! The fetch retry state machine: one initial attempt plus up to
//! `max_retries` retries, with one statistics update per completed fetch.
//!
//! The machine decides; the caller performs the attempts (the HTTP request,
//! the inter-retry sleep) and feeds each attempt's outcome back in. Every
//! decision and every counter update is verified here, whatever the
//! attempts return.

use vstd::prelude::*;

verus! {

/// Cumulative usage counters of one client instance. Exactly one counter
/// pair is incremented per completed fetch call, never per attempt.
#[derive(Debug, Clone, Copy, PartialEq, Eq, Structural)]
pub struct ScraperClientStats {
    pub total_requests: u64,
    pub successful_requests: u64,
    pub failed_requests: u64,
}

impl ScraperClientStats {
    /// Counters of a client that has completed no fetch yet.
    pub fn new() -> (r: Self)
        ensures
            r == (ScraperClientStats {
                total_requests: 0,
                successful_requests: 0,
                failed_requests: 0,
            }),
    {
        ScraperClientStats { total_requests: 0, successful_requests: 0, failed_requests: 0 }
    }

    /// Track one successful fetch in the stats.
    pub fn record_success(&mut self)
        requires
            old(self).total_requests < u64::MAX,
            old(self).successful_requests < u64::MAX,
        ensures
            final(self).total_requests == old(self).total_requests + 1,
            final(self).successful_requests == old(self).successful_requests + 1,
            final(self).failed_requests == old(self).failed_requests,
    {
        self.total_requests = self.total_requests + 1;
        self.successful_requests = self.successful_requests + 1;
    }

    /// Track one failed fetch in the stats.
    pub fn record_failure(&mut self)
        requires
            old(self).total_requests < u64::MAX,
            old(self).failed_requests < u64::MAX,
        ensures
            final(self).total_requests == old(self).total_requests + 1,
            final(self).failed_requests == old(self).failed_requests + 1,
            final(self).successful_requests == old(self).successful_requests,
    {
        self.total_requests = self.total_requests + 1;
        self.failed_requests = self.failed_requests + 1;
    }
}

/// What the fetch loop must do after one attempt's outcome is known.
#[derive(Debug, Clone, Copy, PartialEq, Eq, Structural)]
pub enum FetchAction {
    /// The attempt succeeded: return its body; the fetch is over.
    ReturnBody,
    /// The attempt failed and attempts remain: sleep the fixed delay, retry.
    SleepThenRetry,
    /// The attempt failed and the budget is spent: the fetch fails.
    FailExhausted,
}

/// The retry state of one fetch call: attempts run 1..=(max_retries + 1).
#[derive(Debug, Clone, Copy, PartialEq, Eq, Structural)]
pub struct FetchSession {
    pub max_retries: u8,
    pub attempts: u64,
    pub finished: bool,
}

/// A session about to make its first attempt.
pub open spec fn fresh_session(max_retries: u8) -> FetchSession {
    FetchSession { max_retries, attempts: 0, finished: false }
}

/// An unfinished session never exceeds its attempt budget.
pub open spec fn session_wf(s: FetchSession) -> bool {
    !s.finished ==> s.attempts <= s.max_retries as u64
}

/// The session state after one more attempt with the given outcome.
pub open spec fn step_state(s: FetchSession, success: bool) -> FetchSession {
    FetchSession {
        max_retries: s.max_retries,
        attempts: (s.attempts + 1) as u64,
        finished: success || s.attempts >= s.max_retries as u64,
    }
}

/// The action that one more attempt with the given outcome demands.
pub open spec fn step_action(s: FetchSession, success: bool) -> FetchAction {
    if success {
        FetchAction::ReturnBody
    } else if s.attempts < s.max_retries as u64 {
        FetchAction::SleepThenRetry
    } else {
        FetchAction::FailExhausted
    }
}

/// The statistics after one action: a terminal action records exactly one
/// completed fetch; a retry records nothing.
pub open spec fn stats_after(st: ScraperClientStats, a: FetchAction) -> ScraperClientStats {
    match a {
        FetchAction::ReturnBody => ScraperClientStats {
            total_requests: (st.total_requests + 1) as u64,
            successful_requests: (st.successful_requests + 1) as u64,
            failed_requests: st.failed_requests,
        },
        FetchAction::SleepThenRetry => st,
        FetchAction::FailExhausted => ScraperClientStats {
            total_requests: (st.total_requests + 1) as u64,
            successful_requests: st.successful_requests,
            failed_requests: (st.failed_requests + 1) as u64,
        },
    }
}

impl FetchSession {
    /// A session about to make its first attempt.
    pub fn new(max_retries: u8) -> (r: Self)
        ensures
            r == fresh_session(max_retries),
    {
        FetchSession { max_retries, attempts: 0, finished: false }
    }

    /// Consume one attempt's outcome: count the attempt, decide what
    /// follows, and on a terminal action record the completed fetch in
    /// `stats` — exactly once per fetch, since the session is finished
    /// afterwards and accepts no further attempt.
    pub fn on_attempt(&mut self, success: bool, stats: &mut ScraperClientStats) -> (a:
        FetchAction)
        requires
            !old(self).finished,
            session_wf(*old(self)),
            old(stats).total_requests < u64::MAX,
            old(stats).successful_requests < u64::MAX,
            old(stats).failed_requests < u64::MAX,
        ensures
            *final(self) == step_state(*old(self), success),
            a == step_action(*old(self), success),
            *final(stats) == stats_after(*old(stats), a),
            session_wf(*final(self)),
            final(self).finished <==> !(a is SleepThenRetry),
    {
        self.attempts = self.attempts + 1;
        if success {
            self.finished = true;
            stats.record_success();
            FetchAction::ReturnBody
        } else if self.attempts <= self.max_retries as u64 {
            FetchAction::SleepThenRetry
        } else {
            self.finished = true;
            stats.record_failure();
            FetchAction::FailExhausted
        }
    }
}

/// The session state after `k` consecutive failed attempts from `s`.
pub open spec fn after_failures(s: FetchSession, k: nat) -> FetchSession
    decreases k,
{
    if k == 0 {
        s
    } else {
        step_state(after_failures(s, (k - 1) as nat), false)
    }
}

proof fn lemma_after_failures_shape(r: u8, k: nat)
    requires
        k <= r as nat,
    ensures
        after_failures(fresh_session(r), k) == (FetchSession {
            max_retries: r,
            attempts: k as u64,
            finished: false,
        }),
    decreases k,
{
    if k > 0 {
        lemma_after_failures_shape(r, (k - 1) as nat);
    }
}

/// Retry bound: with `max_retries = r`, a permanently failing target is
/// attempted exactly `r + 1` times. Every attempt but the last demands a
/// retry, which leaves the statistics untouched; the last fails the fetch,
/// finishing the session with `r + 1` attempts counted and exactly one
/// statistics update, the one that increments `failed_requests`.
pub proof fn lemma_retry_bound(r: u8)
    ensures
        forall|k: nat|
            k < r as nat ==> step_action(after_failures(fresh_session(r), k), false)
                == FetchAction::SleepThenRetry,
        forall|st: ScraperClientStats| stats_after(st, FetchAction::SleepThenRetry) == st,
        step_action(after_failures(fresh_session(r), r as nat), false)
            == FetchAction::FailExhausted,
        step_state(after_failures(fresh_session(r), r as nat), false).attempts == r as u64 + 1,
        step_state(after_failures(fresh_session(r), r as nat), false).finished,
        forall|st: ScraperClientStats|
            stats_after(st, FetchAction::FailExhausted) == (ScraperClientStats {
                total_requests: (st.total_requests + 1) as u64,
                successful_requests: st.successful_requests,
                failed_requests: (st.failed_requests + 1) as u64,
            }),
{
    assert forall|k: nat|
        k < r as nat implies step_action(after_failures(fresh_session(r), k), false)
        == FetchAction::SleepThenRetry by {
        lemma_after_failures_shape(r, k);
    }
    lemma_after_failures_shape(r, r as nat);
}

/// Success path: a target failing on attempts 1..=k and succeeding on
/// attempt `k + 1` (k <= max_retries) keeps the session unfinished through
/// the failures, then the success returns the body as attempt `k + 1` and
/// finishes the session — no further attempt is possible — with exactly one
/// statistics update, the one that increments `successful_requests`.
pub proof fn lemma_success_path(r: u8, k: nat)
    requires
        k <= r as nat,
    ensures
        !after_failures(fresh_session(r), k).finished,
        forall|j: nat|
            j < k ==> step_action(after_failures(fresh_session(r), j), false)
                == FetchAction::SleepThenRetry,
        step_action(after_failures(fresh_session(r), k), true) == FetchAction::ReturnBody,
        step_state(after_failures(fresh_session(r), k), true).attempts == k + 1,
        step_state(after_failures(fresh_session(r), k), true).finished,
        forall|st: ScraperClientStats|
            stats_after(st, FetchAction::ReturnBody) == (ScraperClientStats {
                total_requests: (st.total_requests + 1) as u64,
                successful_requests: (st.successful_requests + 1) as u64,
                failed_requests: st.failed_requests,
            }),
{
    assert forall|j: nat|
        j < k implies step_action(after_failures(fresh_session(r), j), false)
        == FetchAction::SleepThenRetry by {
        lemma_after_failures_shape(r, j);
    }
    lemma_after_failures_shape(r, k);
}

} // verus!
