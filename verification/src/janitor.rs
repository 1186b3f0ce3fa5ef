//! The janitor: the periodic task that sweeps expired entries out of the cache.
//!
//! The janitor here is the task's decisions only. Whoever runs it waits one
//! interval, calls [`Janitor::tick`] with the current tick, and goes on for as
//! long as the answer is a sweep. A stop request is taken up at the next tick.

use crate::cache::{after_sweep, TtlCache};
use vstd::prelude::*;

verus! {

/// Where the janitor is in its life.
#[derive(Clone, Copy, Debug, PartialEq, Eq, Structural)]
pub enum JanitorState {
    /// Not sweeping: never started, or stopped.
    Stopped,
    /// Sweeping at every tick.
    Running,
    /// Asked to stop; the next tick ends it without a sweep.
    Stopping,
}

/// What one tick did.
#[derive(Clone, Copy, Debug, PartialEq, Eq, Structural)]
pub enum Tick {
    /// The cache was swept and this many entries stay. Tick again after
    /// another interval.
    Swept(usize),
    /// Nothing was touched and the janitor is stopped. Do not tick again.
    Stopped,
}

/// The state after a start: a stopped janitor runs, any other stays as it is.
pub open spec fn after_start(state: JanitorState) -> JanitorState {
    match state {
        JanitorState::Stopped => JanitorState::Running,
        other => other,
    }
}

/// The state after a stop request: a running janitor is stopping, any other
/// stays as it is.
pub open spec fn after_stop(state: JanitorState) -> JanitorState {
    match state {
        JanitorState::Running => JanitorState::Stopping,
        other => other,
    }
}

/// The state after a tick: a running janitor keeps running, any other is stopped.
pub open spec fn after_tick(state: JanitorState) -> JanitorState {
    match state {
        JanitorState::Running => JanitorState::Running,
        _ => JanitorState::Stopped,
    }
}

/// The state machine of the sweeping task, with the interval between its ticks.
pub struct Janitor {
    state: JanitorState,
    interval: u64,
}

impl View for Janitor {
    type V = JanitorState;

    closed spec fn view(&self) -> JanitorState {
        self.state
    }
}

impl Janitor {
    /// The interval between two ticks.
    pub closed spec fn period(&self) -> int {
        self.interval as int
    }

    /// A stopped janitor that is to tick every `interval` ticks once started.
    pub fn new(interval: u64) -> (janitor: Janitor)
        ensures
            janitor@ == JanitorState::Stopped,
            janitor.period() == interval,
    {
        Janitor { state: JanitorState::Stopped, interval }
    }

    /// The current state.
    pub fn state(&self) -> (state: JanitorState)
        ensures
            state == self@,
    {
        self.state
    }

    /// The interval to wait between two ticks.
    pub fn interval(&self) -> (interval: u64)
        ensures
            interval == self.period(),
    {
        self.interval
    }

    /// Whether the janitor is stopped, so that no tick will sweep.
    pub fn is_stopped(&self) -> (stopped: bool)
        ensures
            stopped == (self@ == JanitorState::Stopped),
    {
        self.state == JanitorState::Stopped
    }

    /// Starts a stopped janitor. In any other state nothing changes.
    pub fn start(&mut self)
        ensures
            final(self)@ == after_start(old(self)@),
            final(self).period() == old(self).period(),
    {
        if self.state == JanitorState::Stopped {
            self.state = JanitorState::Running;
        }
    }

    /// Asks a running janitor to stop; it does so at its next tick. In any
    /// other state nothing changes.
    pub fn stop(&mut self)
        ensures
            final(self)@ == after_stop(old(self)@),
            final(self).period() == old(self).period(),
    {
        if self.state == JanitorState::Running {
            self.state = JanitorState::Stopping;
        }
    }

    /// One tick at `now`. A running janitor sweeps `cache` and reports how many
    /// entries stay. A janitor that was asked to stop, or is stopped, leaves the
    /// cache alone and is stopped afterwards.
    pub fn tick(&mut self, cache: &mut TtlCache, now: u64) -> (done: Tick)
        ensures
            final(self)@ == after_tick(old(self)@),
            final(self).period() == old(self).period(),
            final(cache).ttl_ticks() == old(cache).ttl_ticks(),
            old(self)@ == JanitorState::Running ==> {
                &&& final(cache)@ == after_sweep(old(cache)@, now as int)
                &&& done matches Tick::Swept(remaining)
                &&& remaining == final(cache)@.len()
            },
            old(self)@ != JanitorState::Running ==> {
                &&& final(cache)@ == old(cache)@
                &&& done == Tick::Stopped
            },
    {
        match self.state {
            JanitorState::Running => {
                let remaining = cache.sweep(now);
                Tick::Swept(remaining)
            },
            _ => {
                self.state = JanitorState::Stopped;
                Tick::Stopped
            },
        }
    }
}

/// Stopping is idempotent: a second stop request changes nothing, and a stop
/// request to a stopped janitor leaves it stopped.
pub proof fn lemma_stop_is_idempotent(state: JanitorState)
    ensures
        after_stop(after_stop(state)) == after_stop(state),
        after_stop(JanitorState::Stopped) == JanitorState::Stopped,
{
}

/// Once stopped, a janitor stays stopped through any number of stop requests
/// and ticks, so no later tick sweeps.
pub proof fn lemma_stopped_stays_stopped()
    ensures
        after_stop(JanitorState::Stopped) == JanitorState::Stopped,
        after_tick(JanitorState::Stopped) == JanitorState::Stopped,
{
}

/// A stop request takes effect at the next tick: that tick ends the janitor
/// and does not sweep.
pub proof fn lemma_stop_takes_one_tick(state: JanitorState)
    ensures
        after_tick(after_stop(state)) == JanitorState::Stopped,
{
}

} // verus!
