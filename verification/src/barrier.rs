//! The iteration barrier: a spin barrier over two shared counters that drives
//! two client drivers through lock-step rounds.
//!
//! The shared state of one trial is a monotonically increasing round counter,
//! written only by the measurement loop, and a completion counter, reset by
//! the loop and incremented by each driver when it finishes its turn of the
//! open round. The decisions every thread takes on the values it reads are
//! the verified functions here; the atomic loads and stores themselves stay
//! with the caller. The transition system `step` describes one trial's
//! possible histories, whatever the interleaving, and the lemmas below prove
//! the two synchronization guarantees: a round is released only once both
//! drivers have recorded the round before it, and a finished trial runs each
//! driver's endpoint exactly `iters` times.

use vstd::prelude::*;

verus! {

/// What a client driver does after reading the shared round counter.
#[derive(Clone, Copy, PartialEq, Eq, Structural, Debug)]
pub enum DriverAction {
    /// Every round is completed: leave the loop and drop the connection.
    Finish,
    /// The open round is ahead of the last one this driver completed: run
    /// the endpoint once, then record the round as completed.
    Execute,
    /// Nothing new is open: poll again.
    Wait,
}

/// The decision a driver takes, knowing the last round it completed, the
/// total number of rounds, and the round counter value it just read.
pub fn driver_decide(completed: u32, iters: u32, observed: u32) -> (a: DriverAction)
    ensures
        a == (if completed >= iters {
            DriverAction::Finish
        } else if observed > completed {
            DriverAction::Execute
        } else {
            DriverAction::Wait
        }),
{
    if completed >= iters {
        DriverAction::Finish
    } else if observed > completed {
        DriverAction::Execute
    } else {
        DriverAction::Wait
    }
}

/// The measurement loop's decision: a round is closed once both drivers have
/// recorded their completion of it.
pub fn round_closed(done: u32) -> (b: bool)
    ensures
        b == (done >= 2),
{
    done >= 2
}

/// The shared state of one trial, as every thread sees it: the open round,
/// the completions recorded for that round, and the last round each driver
/// completed.
pub struct TrialState {
    /// The round counter: 0 before the first round opens, then the number of
    /// the open round.
    pub round: nat,
    /// The completion counter: completions recorded for the open round.
    pub done: nat,
    /// The last round driver A completed, 0 if none.
    pub completed_a: nat,
    /// The last round driver B completed, 0 if none.
    pub completed_b: nat,
}

/// The state before any round has been opened.
pub open spec fn init(s: TrialState) -> bool {
    s.round == 0 && s.done == 0 && s.completed_a == 0 && s.completed_b == 0
}

/// One atomic action of a trial.
pub enum TrialEvent {
    /// The measurement loop resets the completion counter and opens the next
    /// round; it does so only before the first round or once both drivers
    /// have recorded the round that is open.
    Advance,
    /// Driver A observes a round beyond the last one it completed, runs its
    /// endpoint, and records the completion.
    CompleteA,
    /// Driver B does the same.
    CompleteB,
}

/// Whether an event can happen in a given state: these guards are the
/// decisions the threads take on the counter values they read.
pub open spec fn enabled(iters: nat, pre: TrialState, ev: TrialEvent) -> bool {
    match ev {
        TrialEvent::Advance => pre.round < iters && (pre.round == 0 || pre.done >= 2),
        TrialEvent::CompleteA => pre.completed_a < pre.round,
        TrialEvent::CompleteB => pre.completed_b < pre.round,
    }
}

/// The state an event leaves behind.
pub open spec fn apply_event(pre: TrialState, ev: TrialEvent) -> TrialState {
    match ev {
        TrialEvent::Advance => TrialState { round: pre.round + 1, done: 0, ..pre },
        TrialEvent::CompleteA => TrialState {
            completed_a: pre.round,
            done: pre.done + 1,
            ..pre
        },
        TrialEvent::CompleteB => TrialState {
            completed_b: pre.round,
            done: pre.done + 1,
            ..pre
        },
    }
}

/// The transition relation of a trial with `iters` rounds.
pub open spec fn step(iters: nat, pre: TrialState, ev: TrialEvent, post: TrialState) -> bool {
    enabled(iters, pre, ev) && post == apply_event(pre, ev)
}

/// How many completions of the open round the two drivers account for.
pub open spec fn completions_for_round(s: TrialState) -> nat {
    (if s.round > 0 && s.completed_a == s.round {
        1nat
    } else {
        0nat
    }) + (if s.round > 0 && s.completed_b == s.round {
        1nat
    } else {
        0nat
    })
}

/// The invariant every reachable state of a trial satisfies. In particular
/// the completion counter is exactly the number of drivers that completed
/// the open round — it never exceeds 2 — and no driver is ever more than one
/// round behind the counter, nor ahead of it.
pub open spec fn inv(iters: nat, s: TrialState) -> bool {
    &&& s.round <= iters
    &&& s.completed_a <= s.round
    &&& s.round <= s.completed_a + 1
    &&& s.completed_b <= s.round
    &&& s.round <= s.completed_b + 1
    &&& s.done == completions_for_round(s)
}

/// The initial state satisfies the invariant.
pub proof fn lemma_init_inv(iters: nat, s: TrialState)
    requires
        init(s),
    ensures
        inv(iters, s),
{
}

/// Every step of a trial preserves the invariant.
pub proof fn lemma_step_preserves_inv(iters: nat, pre: TrialState, ev: TrialEvent, post: TrialState)
    requires
        inv(iters, pre),
        step(iters, pre, ev, post),
    ensures
        inv(iters, post),
{
}

/// Barrier strictness: the loop never releases round i+1 before both drivers
/// have recorded completion of round i. Whenever an Advance step leaves a
/// round already open, both drivers had completed exactly that round.
pub proof fn lemma_round_release_strict(iters: nat, pre: TrialState, post: TrialState)
    requires
        inv(iters, pre),
        step(iters, pre, TrialEvent::Advance, post),
        pre.round > 0,
    ensures
        pre.completed_a == pre.round,
        pre.completed_b == pre.round,
{
}

/// The state of a trial whose every round is complete: the last round is
/// open and both drivers have recorded it — unless there was none to run.
pub open spec fn all_rounds_done(iters: nat) -> TrialState {
    TrialState {
        round: iters,
        done: if iters == 0 {
            0nat
        } else {
            2nat
        },
        completed_a: iters,
        completed_b: iters,
    }
}

/// One trial's rounds driven sequentially: the measurement loop opens each
/// round in turn and both drivers' decisions are taken in place of their
/// threads, against the same counters the threads would share. It returns how
/// many endpoint turns each driver took; the barrier logic makes that exactly
/// `iters` for both, and the schedule it follows is a legal trace of the
/// trial's transition system, ending with every round completed.
pub fn simulate_rounds(iters: u32) -> (turns: (u32, u32))
    ensures
        turns.0 == iters,
        turns.1 == iters,
        exists|tr: Seq<TrialEvent>|
            #[trigger] run_trace(
                iters as nat,
                TrialState { round: 0, done: 0, completed_a: 0, completed_b: 0 },
                tr,
                all_rounds_done(iters as nat),
            ),
{
    let ghost s0 = TrialState { round: 0, done: 0, completed_a: 0, completed_b: 0 };
    let ghost mut tr: Seq<TrialEvent> = Seq::empty();
    let ghost mut cur = s0;
    let mut round: u32 = 0;
    let mut done: u32 = 0;
    let mut completed_a: u32 = 0;
    let mut completed_b: u32 = 0;
    let mut turns_a: u32 = 0;
    let mut turns_b: u32 = 0;
    while round < iters
        invariant
            round <= iters,
            completed_a == round,
            completed_b == round,
            turns_a == round,
            turns_b == round,
            cur == (TrialState {
                round: round as nat,
                done: if round == 0 {
                    0nat
                } else {
                    2nat
                },
                completed_a: round as nat,
                completed_b: round as nat,
            }),
            run_trace(iters as nat, s0, tr, cur),
        decreases iters - round,
    {
        proof {
            lemma_run_trace_snoc(iters as nat, s0, tr, cur, TrialEvent::Advance);
            tr = tr.push(TrialEvent::Advance);
            cur = apply_event(cur, TrialEvent::Advance);
        }
        round = round + 1;
        done = 0;
        let a = driver_decide(completed_a, iters, round);
        if a == DriverAction::Execute {
            completed_a = round;
            turns_a = turns_a + 1;
            done = done + 1;
            proof {
                lemma_run_trace_snoc(iters as nat, s0, tr, cur, TrialEvent::CompleteA);
                tr = tr.push(TrialEvent::CompleteA);
                cur = apply_event(cur, TrialEvent::CompleteA);
            }
        }
        let b = driver_decide(completed_b, iters, round);
        if b == DriverAction::Execute {
            completed_b = round;
            turns_b = turns_b + 1;
            done = done + 1;
            proof {
                lemma_run_trace_snoc(iters as nat, s0, tr, cur, TrialEvent::CompleteB);
                tr = tr.push(TrialEvent::CompleteB);
                cur = apply_event(cur, TrialEvent::CompleteB);
            }
        }
        let closed = round_closed(done);
        assert(closed);
    }
    proof {
        assert(cur == all_rounds_done(iters as nat));
        assert(run_trace(iters as nat, s0, tr, all_rounds_done(iters as nat)));
    }
    (turns_a, turns_b)
}

/// A trace: `tr` is a sequence of steps leading from `s0` to `sn`.
pub open spec fn run_trace(iters: nat, s0: TrialState, tr: Seq<TrialEvent>, sn: TrialState) -> bool
    decreases tr.len(),
{
    if tr.len() == 0 {
        sn == s0
    } else {
        enabled(iters, s0, tr[0]) && run_trace(iters, apply_event(s0, tr[0]), tr.drop_first(), sn)
    }
}

/// How many events of a trace are endpoint turns of driver A.
pub open spec fn count_a(tr: Seq<TrialEvent>) -> nat
    decreases tr.len(),
{
    if tr.len() == 0 {
        0
    } else {
        (if tr[0] is CompleteA {
            1nat
        } else {
            0nat
        }) + count_a(tr.drop_first())
    }
}

/// How many events of a trace are endpoint turns of driver B.
pub open spec fn count_b(tr: Seq<TrialEvent>) -> nat
    decreases tr.len(),
{
    if tr.len() == 0 {
        0
    } else {
        (if tr[0] is CompleteB {
            1nat
        } else {
            0nat
        }) + count_b(tr.drop_first())
    }
}

/// Extending a trace by one enabled step keeps it a trace.
pub proof fn lemma_run_trace_snoc(
    iters: nat,
    s0: TrialState,
    tr: Seq<TrialEvent>,
    sn: TrialState,
    ev: TrialEvent,
)
    requires
        run_trace(iters, s0, tr, sn),
        enabled(iters, sn, ev),
    ensures
        run_trace(iters, s0, tr.push(ev), apply_event(sn, ev)),
    decreases tr.len(),
{
    if tr.len() == 0 {
        assert(tr.push(ev)[0] == ev);
        assert(tr.push(ev).drop_first() =~= Seq::<TrialEvent>::empty());
        assert(run_trace(iters, apply_event(s0, ev), Seq::<TrialEvent>::empty(), apply_event(sn, ev)));
        assert(run_trace(iters, s0, tr.push(ev), apply_event(sn, ev)));
    } else {
        assert(run_trace(iters, apply_event(s0, tr[0]), tr.drop_first(), sn));
        assert(tr.push(ev)[0] == tr[0]);
        assert(tr.push(ev).drop_first() =~= tr.drop_first().push(ev));
        lemma_run_trace_snoc(iters, apply_event(s0, tr[0]), tr.drop_first(), sn, ev);
        assert(run_trace(iters, s0, tr.push(ev), apply_event(sn, ev)));
    }
}

/// Along any trace from a state satisfying the invariant, each driver's
/// completion count advances by exactly its number of endpoint turns: under
/// the invariant a driver is never more than one round behind, so every
/// completion moves it forward by exactly one round.
pub proof fn lemma_trace_counts(iters: nat, s0: TrialState, tr: Seq<TrialEvent>, sn: TrialState)
    requires
        inv(iters, s0),
        run_trace(iters, s0, tr, sn),
    ensures
        inv(iters, sn),
        sn.completed_a == s0.completed_a + count_a(tr),
        sn.completed_b == s0.completed_b + count_b(tr),
    decreases tr.len(),
{
    if tr.len() > 0 {
        let mid = apply_event(s0, tr[0]);
        lemma_step_preserves_inv(iters, s0, tr[0], mid);
        lemma_trace_counts(iters, mid, tr.drop_first(), sn);
    }
}

/// Safety of every reachable state: a trial that starts from the initial
/// state can never reach a state where the completion counter exceeds two,
/// nor one where the open round is more than one ahead of a driver's last
/// completed round — so no driver ever observes round i+1 released before
/// the other has recorded round i.
pub proof fn lemma_reachable_inv(iters: nat, s0: TrialState, tr: Seq<TrialEvent>, sn: TrialState)
    requires
        init(s0),
        run_trace(iters, s0, tr, sn),
    ensures
        inv(iters, sn),
        sn.done <= 2,
        sn.round <= sn.completed_a + 1,
        sn.round <= sn.completed_b + 1,
{
    lemma_init_inv(iters, s0);
    lemma_trace_counts(iters, s0, tr, sn);
}

/// Exact iteration count: a finished trial — one whose trace leads from the
/// initial state to a state where round `iters` is open and both completions
/// are recorded — contains exactly `iters` endpoint turns of each driver:
/// never more, never fewer.
pub proof fn lemma_exact_iterations(iters: nat, s0: TrialState, tr: Seq<TrialEvent>, sn: TrialState)
    requires
        iters >= 1,
        init(s0),
        run_trace(iters, s0, tr, sn),
        sn.round == iters,
        sn.done >= 2,
    ensures
        count_a(tr) == iters,
        count_b(tr) == iters,
{
    lemma_init_inv(iters, s0);
    lemma_trace_counts(iters, s0, tr, sn);
}

} // verus!
