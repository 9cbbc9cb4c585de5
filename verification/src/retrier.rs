//! The retry engine's decisions: bounded exponential backoff and the
//! termination rule for a per-tower retry task.
//!
//! The waiting itself, and the re-delivery calls, run outside; this
//! module decides, from the tower's state and the elapsed wall-clock,
//! what the task does next, and applies the terminal transitions.

use vstd::prelude::*;
use crate::store::{contains_app, has_tower, referenced};
use crate::types::{TowerId, TowerStatus};
use crate::wt_client::WTClient;

verus! {

/// The retrier's per-run bounds, in seconds: the cap on one waiting
/// interval, and the cap on the total wall-clock a task may spend before
/// giving a tower up.
pub struct RetryParams {
    pub max_elapsed_time: u16,
    pub max_interval: u16,
}

impl RetryParams {
    pub fn new(max_elapsed_time: u16, max_interval: u16) -> (r: RetryParams)
        ensures
            r.max_elapsed_time == max_elapsed_time,
            r.max_interval == max_interval,
    {
        RetryParams { max_elapsed_time, max_interval }
    }
}

/// The next backoff interval: doubled, capped at `max_interval`.
pub open spec fn next_interval_of(current: u64, max_interval: u64) -> u64 {
    if 2 * current <= max_interval {
        (2 * current) as u64
    } else {
        max_interval
    }
}

/// Doubles the waiting interval up to the configured cap.
pub fn next_interval(current: u64, max_interval: u64) -> (r: u64)
    requires
        current <= max_interval,
    ensures
        r == next_interval_of(current, max_interval),
        r <= max_interval,
{
    if current > max_interval / 2 {
        max_interval
    } else {
        2 * current
    }
}

/// What a retry task does next.
#[derive(Clone, Copy, Debug, PartialEq, Eq, Structural)]
pub enum RetryDecision {
    /// Wait one backoff interval and try the pending appointments again.
    Retry,
    /// Every pending appointment was delivered or moved to invalid: the
    /// tower goes back to Reachable and the task ends.
    Completed,
    /// The wall-clock cap is spent: the tower becomes Unreachable and the
    /// task ends.
    GaveUp,
    /// The tower was flagged for abandonment mid-retry: the task
    /// finalizes the removal.
    Abandoned,
    /// A fatal classification (misbehavior) landed meanwhile; the state
    /// is already updated and the task just ends.
    Halted,
}

/// The termination rule of a retry task, checked between attempts: an
/// abandon flag wins, then a fatal status, then success (nothing pending),
/// then the wall-clock cap.
pub open spec fn retry_decision_of(
    status: TowerStatus,
    pending_count: nat,
    elapsed: u64,
    max_elapsed_time: u64,
) -> RetryDecision {
    if status is Abandoned {
        RetryDecision::Abandoned
    } else if status is Misbehaving {
        RetryDecision::Halted
    } else if pending_count == 0 {
        RetryDecision::Completed
    } else if elapsed >= max_elapsed_time {
        RetryDecision::GaveUp
    } else {
        RetryDecision::Retry
    }
}

/// Decides what a retry task does next.
pub fn retry_decision(
    status: TowerStatus,
    pending_count: usize,
    elapsed: u64,
    max_elapsed_time: u64,
) -> (r: RetryDecision)
    ensures
        r == retry_decision_of(status, pending_count as nat, elapsed, max_elapsed_time),
{
    if status.is_abandoned() {
        RetryDecision::Abandoned
    } else if status.is_misbehaving() {
        RetryDecision::Halted
    } else if pending_count == 0 {
        RetryDecision::Completed
    } else if elapsed >= max_elapsed_time {
        RetryDecision::GaveUp
    } else {
        RetryDecision::Retry
    }
}

/// Retry is bounded: once the elapsed wall-clock reaches
/// `max_elapsed_time`, no decision keeps the task retrying; with
/// appointments still pending and no terminal status, the tower is given
/// up as Unreachable.
pub proof fn lemma_retry_bound(
    status: TowerStatus,
    pending_count: nat,
    elapsed: u64,
    max_elapsed_time: u64,
)
    ensures
        elapsed >= max_elapsed_time ==> retry_decision_of(
            status,
            pending_count,
            elapsed,
            max_elapsed_time,
        ) != RetryDecision::Retry,
        elapsed >= max_elapsed_time && !(status is Abandoned) && !(status is Misbehaving)
            && pending_count > 0 ==> retry_decision_of(
            status,
            pending_count,
            elapsed,
            max_elapsed_time,
        ) == RetryDecision::GaveUp,
{
}

impl WTClient {
    /// Applies a terminal retry decision to the tower: Completed returns
    /// it to Reachable, GaveUp marks it Unreachable, Abandoned purges all
    /// of its records. Retry and Halted change nothing.
    pub fn apply_retry_decision(&mut self, tower_id: &TowerId, decision: RetryDecision)
        requires
            old(self).wf(),
        ensures
            final(self).wf(),
            final(self).user_sk == old(self).user_sk,
            final(self).user_id == old(self).user_id,
            final(self).unreachable_towers == old(self).unreachable_towers,
            decision is Retry || decision is Halted ==> *final(self) == *old(self),
            !old(self).known(tower_id@) ==> *final(self) == *old(self),
            old(self).known(tower_id@) && (decision is Completed || decision is GaveUp) ==> {
                let target = if decision is Completed {
                    TowerStatus::Reachable
                } else {
                    TowerStatus::Unreachable
                };
                &&& final(self).dbm == old(self).dbm
                &&& final(self).statuses@.len() == old(self).statuses@.len()
                &&& (forall|j: int|
                    0 <= j < old(self).statuses@.len() && (#[trigger] old(
                        self,
                    ).statuses@[j]).tower_id@ != tower_id@ ==> final(self).statuses@[j] == old(
                        self,
                    ).statuses@[j])
                &&& (forall|j: int|
                    0 <= j < old(self).statuses@.len() && (#[trigger] old(
                        self,
                    ).statuses@[j]).tower_id@ == tower_id@ ==> final(self).statuses@[j].tower_id@
                        == tower_id@ && final(self).statuses@[j].status == (if old(
                        self,
                    ).statuses@[j].status is Misbehaving || old(self).statuses@[j].status
                        is Abandoned {
                        old(self).statuses@[j].status
                    } else {
                        target
                    }))
            },
            old(self).known(tower_id@) && decision is Abandoned ==> !final(self).known(tower_id@)
                && !has_tower(final(self).dbm.towers@, tower_id@) && (forall|id2: Seq<u8>|
                id2 != tower_id@ ==> #[trigger] final(self).known(id2) == old(self).known(id2)) && (
            forall|l: Seq<u8>|
                #[trigger] contains_app(final(self).dbm.appointments@, l) == (contains_app(
                    old(self).dbm.appointments@,
                    l,
                ) && referenced(final(self).dbm.towers@, l))),
    {
        match decision {
            RetryDecision::Retry | RetryDecision::Halted => {},
            RetryDecision::Completed => {
                self.set_tower_status(tower_id.clone(), TowerStatus::Reachable);
            },
            RetryDecision::GaveUp => {
                self.set_tower_status(tower_id.clone(), TowerStatus::Unreachable);
            },
            RetryDecision::Abandoned => {
                if crate::wt_client::find_status(&self.statuses, tower_id).is_some() {
                    let r = self.remove_tower(tower_id);
                    proof {
                        assert(r is Ok);
                    }
                }
            },
        }
    }
}

} // verus!
