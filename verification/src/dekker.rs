//! Dekker's lock for two threads over atomic flags.
//!
//! Each call of `lock_step` performs the atomic action that
//! `protocol::phase_action` names for one phase of `protocol::LockPhase` and
//! answers the next phase, chosen by
//! `protocol::next_phase` from what the action read. Repeating it from `Idle`
//! until the answer is `Critical` is `lock`; `unlock` performs the two actions
//! of `Critical` and `Release`.
//!
//! What the atomics hold is not visible to the verifier: a load may answer
//! anything, since the other thread writes concurrently. The contracts here
//! therefore say which phases may follow, and the safety of the protocol is
//! proved on `protocol::DekkerModel`, which takes the same actions
//! (`protocol::action_of`) and the same decisions (`protocol::phase_after`).
use vstd::prelude::*;
use std::sync::atomic::{AtomicBool, AtomicUsize, Ordering};
use crate::protocol::{LockAction, LockPhase, next_phase, phase_action, phase_after};

verus! {

/// Dekker's algorithm for 2 threads.
pub struct Dekker {
    want: [AtomicBool; 2],
    turn: AtomicUsize,
}

impl Dekker {
    /// Both flags down, `turn` naming thread 0.
    pub fn new() -> Self {
        Dekker { want: [AtomicBool::new(false), AtomicBool::new(false)], turn: AtomicUsize::new(0) }
    }

    /// Thread `id` (0 or 1) performs the action of `phase` and gets the phase
    /// that follows. Only the reading phases (`CheckOther`, `CheckTurn`,
    /// `WaitTurn`) have two possible successors.
    pub fn lock_step(&self, id: usize, phase: LockPhase) -> (r: LockPhase)
        requires
            id < 2,
        ensures
            r == phase_after(phase, true) || r == phase_after(phase, false),
    {
        let other = 1 - id;
        let seen = match phase_action(phase) {
            LockAction::SetOwnFlag(v) => {
                self.want[id].store(v, Ordering::SeqCst);
                false
            },
            LockAction::ReadOtherFlag => self.want[other].load(Ordering::SeqCst),
            LockAction::ReadTurn => self.turn.load(Ordering::SeqCst) == id,
            LockAction::GiveTurn => {
                self.turn.store(other, Ordering::SeqCst);
                false
            },
        };
        next_phase(phase, seen)
    }

    /// Leaves the critical section of thread `id` (0 or 1): hands `turn` to the
    /// other thread, then lowers the own flag.
    pub fn unlock(&self, id: usize)
        requires
            id < 2,
    {
        self.turn.store(1 - id, Ordering::SeqCst);
        self.want[id].store(false, Ordering::SeqCst);
    }
}

} // verus!
