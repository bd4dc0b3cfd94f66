//! Dekker's mutual-exclusion protocol for two threads, numbered 0 and 1.
//!
//! A thread runs through a fixed cycle of phases; each phase is one atomic
//! action on the shared flags `want[0]`, `want[1]` and the shared `turn`:
//!
//! - `Idle`: raise the own flag (the start of `lock`);
//! - `CheckOther`: read the other thread's flag; enter if it is down;
//! - `CheckTurn`: read `turn`; keep insisting while it names this thread,
//!   otherwise back off;
//! - `Withdraw`: lower the own flag;
//! - `WaitTurn`: read `turn` until it names this thread;
//! - `Reannounce`: raise the own flag again and re-check the other's;
//! - `Critical`: inside the critical section; leaving it (the start of
//!   `unlock`) hands `turn` to the other thread;
//! - `Release`: lower the own flag (the end of `unlock`).
//!
//! `DekkerModel` runs both threads over plain shared variables, one action per
//! step, and the proofs below show that no interleaving of steps ever lets
//! both threads hold the lock; `progress` shows that under fair scheduling
//! each thread gets in.
use vstd::prelude::*;

verus! {

/// Where a thread stands in Dekker's protocol: the next atomic action it takes.
#[derive(Clone, Copy, Debug, PartialEq, Eq, Structural)]
pub enum LockPhase {
    Idle,
    CheckOther,
    CheckTurn,
    Withdraw,
    WaitTurn,
    Reannounce,
    Critical,
    Release,
}

/// Whether a thread in phase `p` has its own flag raised.
pub open spec fn announces(p: LockPhase) -> bool {
    match p {
        LockPhase::CheckOther | LockPhase::CheckTurn | LockPhase::Withdraw
        | LockPhase::Critical | LockPhase::Release => true,
        _ => false,
    }
}

/// Whether a thread in phase `p` holds the lock: it has entered the critical
/// section and has not yet lowered its flag on the way out.
pub open spec fn holds(p: LockPhase) -> bool {
    p == LockPhase::Critical || p == LockPhase::Release
}

/// The atomic action a thread takes on the shared variables.
#[derive(Clone, Copy, Debug, PartialEq, Eq, Structural)]
pub enum LockAction {
    /// Store the value in the thread's own flag.
    SetOwnFlag(bool),
    /// Load the other thread's flag; the next phase depends on whether it is up.
    ReadOtherFlag,
    /// Load `turn`; the next phase depends on whether it names this thread.
    ReadTurn,
    /// Store the other thread's number in `turn`.
    GiveTurn,
}

/// The action of phase `p`.
pub open spec fn action_of(p: LockPhase) -> LockAction {
    match p {
        LockPhase::Idle | LockPhase::Reannounce => LockAction::SetOwnFlag(true),
        LockPhase::CheckOther => LockAction::ReadOtherFlag,
        LockPhase::CheckTurn | LockPhase::WaitTurn => LockAction::ReadTurn,
        LockPhase::Withdraw | LockPhase::Release => LockAction::SetOwnFlag(false),
        LockPhase::Critical => LockAction::GiveTurn,
    }
}

/// The action a thread in phase `p` takes (see `action_of`).
pub fn phase_action(p: LockPhase) -> (r: LockAction)
    ensures
        r == action_of(p),
{
    match p {
        LockPhase::Idle | LockPhase::Reannounce => LockAction::SetOwnFlag(true),
        LockPhase::CheckOther => LockAction::ReadOtherFlag,
        LockPhase::CheckTurn | LockPhase::WaitTurn => LockAction::ReadTurn,
        LockPhase::Withdraw | LockPhase::Release => LockAction::SetOwnFlag(false),
        LockPhase::Critical => LockAction::GiveTurn,
    }
}

/// The phase after `p`, where `seen` is the outcome of the phase's read: in
/// `CheckOther` whether the other thread's flag is up, in `CheckTurn` and
/// `WaitTurn` whether `turn` names this thread. Phases without a read ignore it.
pub open spec fn phase_after(p: LockPhase, seen: bool) -> LockPhase {
    match p {
        LockPhase::Idle => LockPhase::CheckOther,
        LockPhase::CheckOther => if seen { LockPhase::CheckTurn } else { LockPhase::Critical },
        LockPhase::CheckTurn => if seen { LockPhase::CheckOther } else { LockPhase::Withdraw },
        LockPhase::Withdraw => LockPhase::WaitTurn,
        LockPhase::WaitTurn => if seen { LockPhase::Reannounce } else { LockPhase::WaitTurn },
        LockPhase::Reannounce => LockPhase::CheckOther,
        LockPhase::Critical => LockPhase::Release,
        LockPhase::Release => LockPhase::Idle,
    }
}

/// The next phase of a thread in phase `p` that saw `seen` (see `phase_after`).
pub fn next_phase(p: LockPhase, seen: bool) -> (r: LockPhase)
    ensures
        r == phase_after(p, seen),
{
    match p {
        LockPhase::Idle => LockPhase::CheckOther,
        LockPhase::CheckOther => if seen { LockPhase::CheckTurn } else { LockPhase::Critical },
        LockPhase::CheckTurn => if seen { LockPhase::CheckOther } else { LockPhase::Withdraw },
        LockPhase::Withdraw => LockPhase::WaitTurn,
        LockPhase::WaitTurn => if seen { LockPhase::Reannounce } else { LockPhase::WaitTurn },
        LockPhase::Reannounce => LockPhase::CheckOther,
        LockPhase::Critical => LockPhase::Release,
        LockPhase::Release => LockPhase::Idle,
    }
}

/// Both threads of Dekker's protocol over plain shared variables.
#[derive(Clone, Copy, Debug, PartialEq, Eq, Structural)]
pub struct DekkerModel {
    pub want0: bool,
    pub want1: bool,
    pub turn: usize,
    pub phase0: LockPhase,
    pub phase1: LockPhase,
}

/// The state before either thread has done anything: flags down, `turn` 0.
pub open spec fn initial() -> DekkerModel {
    DekkerModel {
        want0: false,
        want1: false,
        turn: 0,
        phase0: LockPhase::Idle,
        phase1: LockPhase::Idle,
    }
}

impl DekkerModel {
    pub open spec fn want_of(self, id: int) -> bool {
        if id == 0 { self.want0 } else { self.want1 }
    }

    pub open spec fn phase_of(self, id: int) -> LockPhase {
        if id == 0 { self.phase0 } else { self.phase1 }
    }

    /// The outcome of the read that thread `id` does in its current phase.
    pub open spec fn seen_by(self, id: int) -> bool {
        match action_of(self.phase_of(id)) {
            LockAction::ReadOtherFlag => self.want_of(1 - id),
            LockAction::ReadTurn => self.turn == id,
            _ => false,
        }
    }

    /// The own flag of thread `id` after its current action.
    pub open spec fn want_after(self, id: int) -> bool {
        match action_of(self.phase_of(id)) {
            LockAction::SetOwnFlag(v) => v,
            _ => self.want_of(id),
        }
    }

    /// `turn` after the current action of thread `id`.
    pub open spec fn turn_after(self, id: int) -> usize {
        if action_of(self.phase_of(id)) == LockAction::GiveTurn {
            (1 - id) as usize
        } else {
            self.turn
        }
    }

    /// The state after thread `id` (0 or 1) takes one atomic action.
    pub open spec fn stepped(self, id: int) -> DekkerModel {
        let want = self.want_after(id);
        let phase = phase_after(self.phase_of(id), self.seen_by(id));
        DekkerModel {
            want0: if id == 0 { want } else { self.want0 },
            want1: if id == 0 { self.want1 } else { want },
            turn: self.turn_after(id),
            phase0: if id == 0 { phase } else { self.phase0 },
            phase1: if id == 0 { self.phase1 } else { phase },
        }
    }

    /// The state after the threads take the steps of `schedule` in order.
    pub open spec fn run(self, schedule: Seq<int>) -> DekkerModel
        decreases schedule.len(),
    {
        if schedule.len() == 0 {
            self
        } else {
            self.stepped(schedule[0]).run(schedule.drop_first())
        }
    }

    /// What every reachable state satisfies: each flag is up exactly in the
    /// phases that announce, `turn` names a thread (the other one while a
    /// thread is lowering its flag on the way out), and the two threads do not
    /// both hold the lock.
    pub open spec fn inv(self) -> bool {
        &&& self.want0 == announces(self.phase0)
        &&& self.want1 == announces(self.phase1)
        &&& self.turn < 2
        &&& self.phase0 == LockPhase::Release ==> self.turn == 1
        &&& self.phase1 == LockPhase::Release ==> self.turn == 0
        &&& !(holds(self.phase0) && holds(self.phase1))
    }

    /// The initial state.
    pub fn new() -> (r: Self)
        ensures
            r == initial(),
    {
        DekkerModel {
            want0: false,
            want1: false,
            turn: 0,
            phase0: LockPhase::Idle,
            phase1: LockPhase::Idle,
        }
    }

    /// Thread `id` takes one atomic action.
    pub fn step(&mut self, id: usize)
        requires
            id < 2,
        ensures
            *final(self) == old(self).stepped(id as int),
    {
        let phase = if id == 0 { self.phase0 } else { self.phase1 };
        let seen = match phase_action(phase) {
            LockAction::SetOwnFlag(v) => {
                if id == 0 { self.want0 = v; } else { self.want1 = v; }
                false
            },
            LockAction::ReadOtherFlag => if id == 0 { self.want1 } else { self.want0 },
            LockAction::ReadTurn => self.turn == id,
            LockAction::GiveTurn => {
                self.turn = 1 - id;
                false
            },
        };
        let next = next_phase(phase, seen);
        if id == 0 {
            self.phase0 = next;
        } else {
            self.phase1 = next;
        }
    }
}

/// The initial state satisfies the invariant.
pub proof fn lemma_initial_inv()
    ensures
        initial().inv(),
{
}

/// Every step of either thread keeps the invariant.
pub proof fn lemma_step_keeps_inv(s: DekkerModel, id: int)
    requires
        s.inv(),
        id == 0 || id == 1,
    ensures
        s.stepped(id).inv(),
{
}

/// Any run from a state satisfying the invariant ends in such a state.
pub proof fn lemma_run_keeps_inv(s: DekkerModel, schedule: Seq<int>)
    requires
        s.inv(),
        forall|i: int| 0 <= i < schedule.len() ==> schedule[i] == 0 || schedule[i] == 1,
    ensures
        s.run(schedule).inv(),
    decreases schedule.len(),
{
    if schedule.len() > 0 {
        lemma_step_keeps_inv(s, schedule[0]);
        let rest = schedule.drop_first();
        assert forall|i: int| 0 <= i < rest.len() implies rest[i] == 0 || rest[i] == 1 by {
            assert(rest[i] == schedule[i + 1]);
        }
        lemma_run_keeps_inv(s.stepped(schedule[0]), rest);
    }
}

/// Mutual exclusion: whatever the interleaving of the two threads' steps,
/// starting from the initial state they never both hold the lock.
pub proof fn lemma_mutual_exclusion(schedule: Seq<int>)
    requires
        forall|i: int| 0 <= i < schedule.len() ==> schedule[i] == 0 || schedule[i] == 1,
    ensures
        !(holds(initial().run(schedule).phase0) && holds(initial().run(schedule).phase1)),
{
    lemma_run_keeps_inv(initial(), schedule);
}

/// Without contention, locking does not wait: when the other thread's flag is
/// down, an idle thread is inside the critical section after two steps.
pub proof fn lemma_uncontended_lock(s: DekkerModel, id: int)
    requires
        s.inv(),
        id == 0 || id == 1,
        s.phase_of(id) == LockPhase::Idle,
        !s.want_of(1 - id),
    ensures
        s.stepped(id).stepped(id).phase_of(id) == LockPhase::Critical,
{
}

/// Unlocking (the two steps from `Critical`) gives the turn to the other
/// thread, lowers the own flag and leaves the thread idle.
pub proof fn lemma_unlock_hands_over(s: DekkerModel, id: int)
    requires
        s.inv(),
        id == 0 || id == 1,
        s.phase_of(id) == LockPhase::Critical,
    ensures
        s.stepped(id).stepped(id).turn == 1 - id,
        !s.stepped(id).stepped(id).want_of(id),
        s.stepped(id).stepped(id).phase_of(id) == LockPhase::Idle,
{
}

/// The thread named by `turn` never yields: in `CheckTurn` it goes back to
/// checking the other's flag instead of withdrawing, and in `WaitTurn` it stops
/// waiting at its next step.
pub proof fn lemma_turn_holder_insists(s: DekkerModel, id: int)
    requires
        s.inv(),
        id == 0 || id == 1,
        s.turn == id,
    ensures
        s.phase_of(id) == LockPhase::CheckTurn ==> s.stepped(id).phase_of(id) == LockPhase::CheckOther,
        s.phase_of(id) == LockPhase::WaitTurn ==> s.stepped(id).phase_of(id) == LockPhase::Reannounce,
{
}

} // verus!
