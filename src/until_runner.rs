use vstd::prelude::*;

use crate::adapter::{fresh, tick_spec, Adapter, AdapterKind, Outcome, Step, Wait};

verus! {

/// Whether a runner keeps running on later ticks.
#[derive(Clone, Copy, Debug, PartialEq, Eq, Structural)]
pub enum SystemRunningStatus {
    Running,
    Finished,
}

/// A runner bound to one phase that runs its system every tick until it returns true.
pub struct AsyncSystemUntilRunner {
    pub schedule: u64,
    pub adapter: Adapter,
}

impl AsyncSystemUntilRunner {
    /// A fresh runner for the given phase.
    pub fn boxed(schedule: u64) -> (r: Box<AsyncSystemUntilRunner>)
        ensures
            r.schedule == schedule,
            r.adapter == fresh(AdapterKind::Wait(Wait { yields_value: false })),
    {
        Box::new(AsyncSystemUntilRunner { schedule, adapter: Wait::until() })
    }

    /// One tick, given what the system returned this tick: the runner finishes on the
    /// first tick whose output is true, and reports finished on every tick after.
    pub fn run(&mut self, output: bool) -> (r: SystemRunningStatus)
        requires
            !old(self).adapter.awaiting,
        ensures
            final(self).schedule == old(self).schedule,
            final(self).adapter == tick_spec(old(self).adapter, true, 0, output).0,
            r == (if tick_spec(old(self).adapter, true, 0, output).1 == Outcome::Continued {
                SystemRunningStatus::Running
            } else {
                SystemRunningStatus::Finished
            }),
    {
        match self.adapter.poll(true, 0) {
            Step::Run { .. } => {
                if self.adapter.observe(output) {
                    SystemRunningStatus::Finished
                } else {
                    SystemRunningStatus::Running
                }
            },
            Step::Wait => SystemRunningStatus::Running,
            _ => SystemRunningStatus::Finished,
        }
    }

    /// Whether the runner belongs to the given phase.
    pub fn should_run(&self, schedule: u64) -> (r: bool)
        ensures
            r == (schedule == self.schedule),
    {
        self.schedule == schedule
    }
}

} // verus!
