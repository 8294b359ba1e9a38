//! Scheduler state: the single-flight lock, the per-hour execution
//! window, and the bounded pending queue.

use vstd::prelude::*;

use crate::cron_yaml::CronSchedule;

verus! {

/// The sliding execution window, in milliseconds.
pub open spec fn window_ms() -> int {
    3600000
}

/// Most executions allowed inside one window.
pub open spec fn max_jobs_per_hour() -> int {
    60
}

/// Most queued jobs.
pub open spec fn max_pending() -> int {
    100
}

/// What a scheduling attempt decided.
#[derive(Clone, Copy, Debug, PartialEq, Eq, Structural)]
pub enum ExecDecision {
    /// The lock was taken and the execution recorded: run now.
    Run,
    /// Another job holds the lock: enqueue instead.
    Busy,
    /// The hourly ceiling is reached: skip this tick.
    RateLimited,
}

/// Scheduler bookkeeping shared under one lock.
pub struct SchedulerState {
    /// The single-flight lock: true while a scheduled job runs.
    pub execution_lock: bool,
    /// Timestamps of recent executions, oldest first.
    pub executions: Vec<u64>,
    /// Queued jobs waiting for the backend.
    pub pending: Vec<CronSchedule>,
}

impl SchedulerState {
    /// The queue stays within its bound.
    pub open spec fn wf(&self) -> bool {
        self.pending@.len() <= max_pending()
    }

    /// A fresh scheduler: unlocked, nothing recorded, nothing queued.
    pub fn new_idle() -> (r: SchedulerState)
        ensures
            r.wf(),
            !r.execution_lock,
            r.executions@.len() == 0,
            r.pending@.len() == 0,
    {
        SchedulerState { execution_lock: false, executions: Vec::new(), pending: Vec::new() }
    }

    /// Drop executions older than the window.
    fn gc_executions(&mut self, now_ms: u64)
        ensures
            final(self).execution_lock == old(self).execution_lock,
            final(self).pending == old(self).pending,
    {
        loop
            invariant
                self.execution_lock == old(self).execution_lock,
                self.pending == old(self).pending,
            decreases self.executions@.len(),
        {
            if self.executions.len() == 0 {
                break ;
            }
            let front = self.executions[0];
            if !(now_ms > front && now_ms - front > 3600000) {
                break ;
            }
            self.executions.remove(0);
        }
    }

    /// Try to begin a scheduled execution at `now_ms`.
    ///
    /// Exactly one job can hold the lock: `Run` comes back only when
    /// the lock was free, and it leaves the lock held; a held lock
    /// answers `Busy` and changes nothing.  The hourly ceiling answers
    /// `RateLimited` once sixty executions sit inside the window.
    pub fn try_begin_execution(&mut self, now_ms: u64) -> (r: ExecDecision)
        requires
            old(self).wf(),
        ensures
            final(self).wf(),
            r == ExecDecision::Run ==> !old(self).execution_lock && final(self).execution_lock,
            r == ExecDecision::Busy ==> old(self).execution_lock && *final(self) == *old(self),
            r == ExecDecision::RateLimited ==> !final(self).execution_lock && final(self).executions@.len() >= max_jobs_per_hour(),
            final(self).pending == old(self).pending,
    {
        if self.execution_lock {
            return ExecDecision::Busy;
        }
        self.gc_executions(now_ms);
        if self.executions.len() >= 60 {
            return ExecDecision::RateLimited;
        }
        self.executions.push(now_ms);
        self.execution_lock = true;
        ExecDecision::Run
    }

    /// Release the single-flight lock after a job finished.
    pub fn finish_execution(&mut self)
        ensures
            !final(self).execution_lock,
            final(self).executions == old(self).executions,
            final(self).pending == old(self).pending,
    {
        self.execution_lock = false;
    }

    /// Queue a job; a full queue drops its oldest entry first.
    pub fn enqueue_job(&mut self, schedule: CronSchedule)
        requires
            old(self).wf(),
        ensures
            final(self).wf(),
            final(self).pending@ == (if old(self).pending@.len() >= 100 {
                old(self).pending@.drop_first()
            } else {
                old(self).pending@
            }).push(schedule),
            final(self).execution_lock == old(self).execution_lock,
    {
        if self.pending.len() >= 100 {
            self.pending.remove(0);
            proof {
                assert(self.pending@ =~= old(self).pending@.drop_first());
            }
        }
        self.pending.push(schedule);
    }

    /// Take one queued job, but only while the backend is idle and the
    /// lock is free.
    pub fn pop_queued(&mut self, session_running: bool) -> (r: Option<CronSchedule>)
        requires
            old(self).wf(),
        ensures
            final(self).wf(),
            session_running || old(self).execution_lock ==> r is None && *final(self) == *old(self),
            r is Some ==> old(self).pending@.len() > 0 && final(self).pending@ == old(self).pending@.drop_first(),
    {
        if session_running {
            return None;
        }
        if self.execution_lock {
            return None;
        }
        if self.pending.len() == 0 {
            return None;
        }
        let s = self.pending.remove(0);
        proof {
            assert(self.pending@ =~= old(self).pending@.drop_first());
        }
        Some(s)
    }
}

} // verus!
