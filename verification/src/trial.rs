//! One trial: the measurement loop for a fixed (chunk size, delay) pair.
//! Starting the relay, connecting the drivers and joining every thread is
//! socket and thread work that stays with the caller; the order in which
//! those steps may happen, and the round bookkeeping between them, is the
//! state machine here. The caller asks `next_action`, performs it, and
//! reports back with `advance`.

use vstd::prelude::*;

verus! {

/// Why a trial cannot be set up.
#[derive(Clone, Copy, PartialEq, Eq, Structural, Debug)]
pub enum TrialError {
    /// The chunk size is zero: the relay would forward nothing.
    InvalidChunkSize,
}

/// Where in its life a trial stands.
#[derive(Clone, Copy, PartialEq, Eq, Structural, Debug)]
pub enum Phase {
    /// Nothing started yet: the relay thread must be spawned first.
    Setup,
    /// The relay thread is starting; spin until it signals that its
    /// listener is bound, so that the drivers find someone to connect to.
    AwaitRelay,
    /// The relay is ready: start both client drivers.
    Connect,
    /// Everything runs: drive the rounds through the barrier, one at a
    /// time, under the wall-clock timer.
    Measure,
    /// All rounds are done and every thread is joined.
    Done,
}

/// What the measurement loop must do next.
#[derive(Clone, Copy, PartialEq, Eq, Structural, Debug)]
pub enum Action {
    /// Spawn the relay thread: it binds the listener, signals ready,
    /// accepts two connections and forwards between them.
    StartRelay,
    /// Poll the relay's ready flag until it is set.
    AwaitReady,
    /// Spawn both client drivers; each connects to the relay's address.
    StartDrivers,
    /// Open this round on the barrier and spin until both drivers have
    /// recorded its completion.
    RunRound(u32),
    /// Flip the relay's continue flag false, then join the drivers and the
    /// relay: no thread may outlive the trial.
    StopAndJoin,
    /// The trial is over; its elapsed time is ready to be averaged.
    Finished,
}

/// The control state of one measurement-loop call.
#[derive(Debug)]
pub struct Trial {
    /// The relay's read size for this trial; always positive.
    pub chunk_size: usize,
    /// The relay's injected per-chunk delay, in milliseconds.
    pub delay: u64,
    /// How many rounds the trial measures.
    pub iters: u32,
    /// Where the trial stands.
    pub phase: Phase,
    /// How many rounds have been opened; meaningful from `Connect` on.
    pub round: u32,
}

impl Trial {
    /// Well-formedness: the chunk size is positive and no more rounds are
    /// opened than the trial measures, none of them before the relay and
    /// the drivers stand.
    pub open spec fn wf(self) -> bool {
        &&& self.chunk_size > 0
        &&& self.round <= self.iters
        &&& (self.phase == Phase::Setup || self.phase == Phase::AwaitRelay || self.phase
            == Phase::Connect ==> self.round == 0)
    }

    /// Sets a trial up, before any thread starts. A zero chunk size is the
    /// one invalid argument, and is rejected exactly then.
    pub fn new(chunk_size: usize, delay: u64, iters: u32) -> (r: Result<Trial, TrialError>)
        ensures
            match r {
                Ok(t) => {
                    &&& chunk_size > 0
                    &&& t.wf()
                    &&& t == (Trial {
                        chunk_size,
                        delay,
                        iters,
                        phase: Phase::Setup,
                        round: 0,
                    })
                },
                Err(e) => chunk_size == 0 && e == TrialError::InvalidChunkSize,
            },
    {
        if chunk_size == 0 {
            Err(TrialError::InvalidChunkSize)
        } else {
            Ok(Trial { chunk_size, delay, iters, phase: Phase::Setup, round: 0 })
        }
    }

    /// What the measurement loop does next, given where the trial stands:
    /// relay first, then the drivers, then every round in order, then the
    /// teardown, so that no step ever runs before what it depends on.
    pub fn next_action(&self) -> (a: Action)
        requires
            self.wf(),
        ensures
            a == (match self.phase {
                Phase::Setup => Action::StartRelay,
                Phase::AwaitRelay => Action::AwaitReady,
                Phase::Connect => Action::StartDrivers,
                Phase::Measure => if self.round < self.iters {
                    Action::RunRound((self.round + 1) as u32)
                } else {
                    Action::StopAndJoin
                },
                Phase::Done => Action::Finished,
            }),
    {
        match self.phase {
            Phase::Setup => Action::StartRelay,
            Phase::AwaitRelay => Action::AwaitReady,
            Phase::Connect => Action::StartDrivers,
            Phase::Measure => {
                if self.round < self.iters {
                    Action::RunRound(self.round + 1)
                } else {
                    Action::StopAndJoin
                }
            },
            Phase::Done => Action::Finished,
        }
    }

    /// The caller reports that the action `next_action` asked for is done;
    /// the trial moves one step on. Opening a round advances the round
    /// count by exactly one; the trial is done once the teardown is.
    pub fn advance(&mut self)
        requires
            old(self).wf(),
            old(self).phase != Phase::Done,
        ensures
            final(self).wf(),
            final(self).chunk_size == old(self).chunk_size,
            final(self).delay == old(self).delay,
            final(self).iters == old(self).iters,
            final(self).phase == (match old(self).phase {
                Phase::Setup => Phase::AwaitRelay,
                Phase::AwaitRelay => Phase::Connect,
                Phase::Connect => Phase::Measure,
                Phase::Measure => if old(self).round < old(self).iters {
                    Phase::Measure
                } else {
                    Phase::Done
                },
                Phase::Done => Phase::Done,
            }),
            final(self).round == (if old(self).phase == Phase::Measure && old(self).round < old(
                self,
            ).iters {
                old(self).round + 1
            } else {
                old(self).round as int
            }),
    {
        match self.phase {
            Phase::Setup => {
                self.phase = Phase::AwaitRelay;
            },
            Phase::AwaitRelay => {
                self.phase = Phase::Connect;
            },
            Phase::Connect => {
                self.phase = Phase::Measure;
            },
            Phase::Measure => {
                if self.round < self.iters {
                    self.round = self.round + 1;
                } else {
                    self.phase = Phase::Done;
                }
            },
            Phase::Done => {},
        }
    }
}

/// The mean round latency of a finished trial, in whole milliseconds: the
/// total elapsed time of its rounds divided by how many rounds ran.
pub fn mean_round_latency(total_elapsed_ms: u64, iters: u32) -> (mean: u64)
    requires
        iters >= 1,
    ensures
        mean == total_elapsed_ms as int / iters as int,
{
    total_elapsed_ms / (iters as u64)
}

} // verus!
