//! Starvation freedom of Dekker's protocol under fair scheduling.
//!
//! A schedule is cut into rounds: a round is a stretch of steps in which both
//! threads step at least once (`rounds` counts how many complete rounds a
//! schedule holds). The law `lemma_no_starvation` says that whatever state the
//! threads are in, a thread always gets into the critical section within 26
//! rounds: no deadlock, and no thread is passed over for ever. Over unending
//! schedules, `lemma_no_starvation_forever` says the same of every fair
//! schedule (each thread keeps getting steps): each thread gets in again and
//! again.
//!
//! The proof ranks every state by how far the chosen thread is from entering
//! (`progress_rank`) and names, for each state, the thread whose next step
//! brings it closer (`progress_helper`). No step raises the rank, a step of the
//! helper lowers it, and a step that leaves the rank as it is leaves the helper
//! as it is; so every round lowers the rank by at least one.
use vstd::prelude::*;
use crate::protocol::{DekkerModel, LockPhase};

verus! {

/// How many rounds a thread in phase `pi` may still need to enter, when the
/// other thread is in phase `pj` and `turn` names the first thread (`ours`) or
/// not. It is 0 exactly in the critical section.
spec fn progress_rank(pi: LockPhase, pj: LockPhase, ours: bool) -> nat {
    match (pi, pj) {
        (LockPhase::Critical, _) => 0,
        (LockPhase::Idle, LockPhase::Idle) => if ours { 12 } else { 25 },
        (LockPhase::Idle, LockPhase::CheckOther) => if ours { 12 } else { 24 },
        (LockPhase::Idle, LockPhase::CheckTurn) => if ours { 5 } else { 25 },
        (LockPhase::Idle, LockPhase::Withdraw) => if ours { 3 } else { 25 },
        (LockPhase::Idle, LockPhase::WaitTurn) => if ours { 2 } else { 25 },
        (LockPhase::Idle, LockPhase::Reannounce) => if ours { 12 } else { 25 },
        (LockPhase::Idle, LockPhase::Critical) => if ours { 12 } else { 17 },
        (LockPhase::Idle, LockPhase::Release) => if ours { 12 } else { 25 },
        (LockPhase::CheckOther, LockPhase::Idle) => if ours { 8 } else { 23 },
        (LockPhase::CheckOther, LockPhase::CheckOther) => if ours { 7 } else { 23 },
        (LockPhase::CheckOther, LockPhase::CheckTurn) => if ours { 5 } else { 23 },
        (LockPhase::CheckOther, LockPhase::Withdraw) => if ours { 3 } else { 23 },
        (LockPhase::CheckOther, LockPhase::WaitTurn) => if ours { 1 } else { 23 },
        (LockPhase::CheckOther, LockPhase::Reannounce) => if ours { 8 } else { 23 },
        (LockPhase::CheckOther, LockPhase::Critical) => if ours { 11 } else { 17 },
        (LockPhase::CheckOther, LockPhase::Release) => if ours { 10 } else { 23 },
        (LockPhase::CheckTurn, LockPhase::Idle) => if ours { 9 } else { 21 },
        (LockPhase::CheckTurn, LockPhase::CheckOther) => if ours { 7 } else { 21 },
        (LockPhase::CheckTurn, LockPhase::CheckTurn) => if ours { 5 } else { 21 },
        (LockPhase::CheckTurn, LockPhase::Withdraw) => if ours { 3 } else { 22 },
        (LockPhase::CheckTurn, LockPhase::WaitTurn) => if ours { 2 } else { 21 },
        (LockPhase::CheckTurn, LockPhase::Reannounce) => if ours { 9 } else { 21 },
        (LockPhase::CheckTurn, LockPhase::Critical) => if ours { 11 } else { 17 },
        (LockPhase::CheckTurn, LockPhase::Release) => if ours { 10 } else { 21 },
        (LockPhase::Withdraw, LockPhase::Idle) => if ours { 16 } else { 19 },
        (LockPhase::Withdraw, LockPhase::CheckOther) => if ours { 15 } else { 19 },
        (LockPhase::Withdraw, LockPhase::CheckTurn) => if ours { 6 } else { 19 },
        (LockPhase::Withdraw, LockPhase::Withdraw) => if ours { 6 } else { 22 },
        (LockPhase::Withdraw, LockPhase::WaitTurn) => if ours { 6 } else { 20 },
        (LockPhase::Withdraw, LockPhase::Reannounce) => if ours { 16 } else { 19 },
        (LockPhase::Withdraw, LockPhase::Critical) => if ours { 16 } else { 16 },
        (LockPhase::Withdraw, LockPhase::Release) => if ours { 16 } else { 20 },
        (LockPhase::WaitTurn, LockPhase::Idle) => if ours { 14 } else { 18 },
        (LockPhase::WaitTurn, LockPhase::CheckOther) => if ours { 14 } else { 17 },
        (LockPhase::WaitTurn, LockPhase::CheckTurn) => if ours { 5 } else { 18 },
        (LockPhase::WaitTurn, LockPhase::Withdraw) => if ours { 4 } else { 22 },
        (LockPhase::WaitTurn, LockPhase::WaitTurn) => if ours { 4 } else { 20 },
        (LockPhase::WaitTurn, LockPhase::Reannounce) => if ours { 14 } else { 18 },
        (LockPhase::WaitTurn, LockPhase::Critical) => if ours { 14 } else { 15 },
        (LockPhase::WaitTurn, LockPhase::Release) => if ours { 14 } else { 20 },
        (LockPhase::Reannounce, LockPhase::Idle) => if ours { 12 } else { 25 },
        (LockPhase::Reannounce, LockPhase::CheckOther) => if ours { 12 } else { 24 },
        (LockPhase::Reannounce, LockPhase::CheckTurn) => if ours { 5 } else { 25 },
        (LockPhase::Reannounce, LockPhase::Withdraw) => if ours { 3 } else { 25 },
        (LockPhase::Reannounce, LockPhase::WaitTurn) => if ours { 2 } else { 25 },
        (LockPhase::Reannounce, LockPhase::Reannounce) => if ours { 12 } else { 25 },
        (LockPhase::Reannounce, LockPhase::Critical) => if ours { 12 } else { 17 },
        (LockPhase::Reannounce, LockPhase::Release) => if ours { 12 } else { 25 },
        (LockPhase::Release, LockPhase::Idle) => if ours { 14 } else { 26 },
        (LockPhase::Release, LockPhase::CheckOther) => if ours { 13 } else { 26 },
        (LockPhase::Release, LockPhase::CheckTurn) => if ours { 5 } else { 26 },
        (LockPhase::Release, LockPhase::Withdraw) => if ours { 4 } else { 26 },
        (LockPhase::Release, LockPhase::WaitTurn) => if ours { 4 } else { 26 },
        (LockPhase::Release, LockPhase::Reannounce) => if ours { 14 } else { 26 },
        _ => 0,
    }
}

/// Whether it is the first thread's own step (rather than the other thread's)
/// that lowers `progress_rank` in that situation.
spec fn progress_by_self(pi: LockPhase, pj: LockPhase, ours: bool) -> bool {
    match (pi, pj) {
        (LockPhase::Idle, LockPhase::Idle) => true,
        (LockPhase::Idle, LockPhase::CheckOther) => ours,
        (LockPhase::Idle, LockPhase::CheckTurn) => !ours,
        (LockPhase::Idle, LockPhase::Withdraw) => !ours,
        (LockPhase::Idle, LockPhase::WaitTurn) => true,
        (LockPhase::Idle, LockPhase::Reannounce) => true,
        (LockPhase::Idle, LockPhase::Critical) => ours,
        (LockPhase::Idle, LockPhase::Release) => true,
        (LockPhase::CheckOther, LockPhase::Idle) => true,
        (LockPhase::CheckOther, LockPhase::CheckOther) => !ours,
        (LockPhase::CheckOther, LockPhase::CheckTurn) => !ours,
        (LockPhase::CheckOther, LockPhase::Withdraw) => !ours,
        (LockPhase::CheckOther, LockPhase::WaitTurn) => true,
        (LockPhase::CheckOther, LockPhase::Reannounce) => true,
        (LockPhase::CheckOther, LockPhase::Critical) => false,
        (LockPhase::CheckOther, LockPhase::Release) => !ours,
        (LockPhase::CheckTurn, LockPhase::Idle) => !ours,
        (LockPhase::CheckTurn, LockPhase::CheckOther) => !ours,
        (LockPhase::CheckTurn, LockPhase::CheckTurn) => !ours,
        (LockPhase::CheckTurn, LockPhase::Withdraw) => false,
        (LockPhase::CheckTurn, LockPhase::WaitTurn) => true,
        (LockPhase::CheckTurn, LockPhase::Reannounce) => !ours,
        (LockPhase::CheckTurn, LockPhase::Critical) => false,
        (LockPhase::CheckTurn, LockPhase::Release) => !ours,
        (LockPhase::Withdraw, LockPhase::Idle) => true,
        (LockPhase::Withdraw, LockPhase::CheckOther) => !ours,
        (LockPhase::Withdraw, LockPhase::CheckTurn) => true,
        (LockPhase::Withdraw, LockPhase::Withdraw) => ours,
        (LockPhase::Withdraw, LockPhase::WaitTurn) => ours,
        (LockPhase::Withdraw, LockPhase::Reannounce) => true,
        (LockPhase::Withdraw, LockPhase::Critical) => true,
        (LockPhase::Withdraw, LockPhase::Release) => ours,
        (LockPhase::WaitTurn, LockPhase::Idle) => ours,
        (LockPhase::WaitTurn, LockPhase::CheckOther) => ours,
        (LockPhase::WaitTurn, LockPhase::CheckTurn) => false,
        (LockPhase::WaitTurn, LockPhase::Withdraw) => ours,
        (LockPhase::WaitTurn, LockPhase::WaitTurn) => ours,
        (LockPhase::WaitTurn, LockPhase::Reannounce) => ours,
        (LockPhase::WaitTurn, LockPhase::Critical) => ours,
        (LockPhase::WaitTurn, LockPhase::Release) => ours,
        (LockPhase::Reannounce, LockPhase::Idle) => true,
        (LockPhase::Reannounce, LockPhase::CheckOther) => ours,
        (LockPhase::Reannounce, LockPhase::CheckTurn) => !ours,
        (LockPhase::Reannounce, LockPhase::Withdraw) => !ours,
        (LockPhase::Reannounce, LockPhase::WaitTurn) => true,
        (LockPhase::Reannounce, LockPhase::Reannounce) => true,
        (LockPhase::Reannounce, LockPhase::Critical) => ours,
        (LockPhase::Reannounce, LockPhase::Release) => true,
        (LockPhase::Release, LockPhase::Idle) => true,
        (LockPhase::Release, LockPhase::CheckOther) => !ours,
        (LockPhase::Release, LockPhase::CheckTurn) => !ours,
        (LockPhase::Release, LockPhase::Withdraw) => true,
        (LockPhase::Release, LockPhase::WaitTurn) => true,
        (LockPhase::Release, LockPhase::Reannounce) => true,
        _ => true,
    }
}

/// The rank of state `s` for thread `i`.
pub(crate) closed spec fn rank_for(s: DekkerModel, i: int) -> nat {
    progress_rank(s.phase_of(i), s.phase_of(1 - i), s.turn == i)
}

/// The thread whose next step lowers the rank of `s` for thread `i`.
pub(crate) closed spec fn helper_for(s: DekkerModel, i: int) -> int {
    if progress_by_self(s.phase_of(i), s.phase_of(1 - i), s.turn == i) { i } else { 1 - i }
}

/// How many complete rounds `schedule` holds, where the round in progress has
/// already seen a step of thread 0 (`seen0`) or thread 1 (`seen1`).
pub open spec fn rounds_from(schedule: Seq<int>, seen0: bool, seen1: bool) -> nat
    decreases schedule.len(),
{
    if schedule.len() == 0 {
        0
    } else {
        let s0 = seen0 || schedule[0] == 0;
        let s1 = seen1 || schedule[0] == 1;
        if s0 && s1 {
            1 + rounds_from(schedule.drop_first(), false, false)
        } else {
            rounds_from(schedule.drop_first(), s0, s1)
        }
    }
}

/// How many consecutive stretches, each holding a step of both threads,
/// `schedule` can be cut into.
pub open spec fn rounds(schedule: Seq<int>) -> nat {
    rounds_from(schedule, false, false)
}

/// Whether thread `i` is in the critical section after some prefix of
/// `schedule` run from `s` (the empty prefix included).
pub open spec fn enters_during(s: DekkerModel, schedule: Seq<int>, i: int) -> bool {
    exists|k: int| 0 <= k <= schedule.len() && #[trigger] s.run(schedule.take(k)).phase_of(i) == LockPhase::Critical
}

/// One step of either thread: the rank for `i` never rises, a step of the
/// helper lowers it, and the helper stays while the rank stays.
pub(crate) proof fn lemma_progress_step(s: DekkerModel, i: int, k: int)
    requires
        s.inv(),
        i == 0 || i == 1,
        k == 0 || k == 1,
        s.phase_of(i) != LockPhase::Critical,
    ensures
        rank_for(s, i) > 0,
        helper_for(s, i) == i || helper_for(s, i) == 1 - i,
        rank_for(s.stepped(k), i) <= rank_for(s, i),
        k == helper_for(s, i) ==> rank_for(s.stepped(k), i) < rank_for(s, i),
        rank_for(s.stepped(k), i) == rank_for(s, i) ==> helper_for(s.stepped(k), i) == helper_for(s, i),
{
}

/// In the critical section the rank is 0 and the thread itself is the helper.
pub(crate) proof fn lemma_critical_rank(s: DekkerModel, i: int)
    requires
        s.phase_of(i) == LockPhase::Critical,
    ensures
        rank_for(s, i) == 0,
        helper_for(s, i) == i,
{
}

/// Running `schedule` after a first step is running the whole schedule.
proof fn lemma_run_prefix(s: DekkerModel, schedule: Seq<int>, k: int)
    requires
        schedule.len() > 0,
        0 <= k < schedule.len(),
    ensures
        s.run(schedule.take(k + 1)) == s.stepped(schedule[0]).run(schedule.drop_first().take(k)),
{
    assert(schedule.take(k + 1).drop_first() =~= schedule.drop_first().take(k));
}

proof fn lemma_progress_from(s: DekkerModel, i: int, schedule: Seq<int>, seen0: bool, seen1: bool)
    requires
        s.inv(),
        i == 0 || i == 1,
        forall|n: int| 0 <= n < schedule.len() ==> schedule[n] == 0 || schedule[n] == 1,
        s.phase_of(i) != LockPhase::Critical ==> {
            let helper_seen = if helper_for(s, i) == 0 { seen0 } else { seen1 };
            (if helper_seen { rank_for(s, i) + 1 } else { rank_for(s, i) }) <= rounds_from(schedule, seen0, seen1)
        },
    ensures
        enters_during(s, schedule, i),
    decreases schedule.len(),
{
    if s.phase_of(i) == LockPhase::Critical {
        assert(schedule.take(0) =~= Seq::<int>::empty());
        assert(s.run(schedule.take(0)).phase_of(i) == LockPhase::Critical);
    } else {
        lemma_progress_step(s, i, 0);
        assert(schedule.len() > 0);
        let k0 = schedule[0];
        let rest = schedule.drop_first();
        let s2 = s.stepped(k0);
        let f0 = seen0 || k0 == 0;
        let f1 = seen1 || k0 == 1;
        lemma_progress_step(s, i, k0);
        crate::protocol::lemma_step_keeps_inv(s, k0);
        assert forall|n: int| 0 <= n < rest.len() implies rest[n] == 0 || rest[n] == 1 by {
            assert(rest[n] == schedule[n + 1]);
        }
        if s2.phase_of(i) != LockPhase::Critical {
            lemma_progress_step(s2, i, 0);
        }
        if f0 && f1 {
            lemma_progress_from(s2, i, rest, false, false);
        } else {
            lemma_progress_from(s2, i, rest, f0, f1);
        }
        let k = choose|k: int| 0 <= k <= rest.len() && #[trigger] s2.run(rest.take(k)).phase_of(i) == LockPhase::Critical;
        lemma_run_prefix(s, schedule, k);
        assert(s.run(schedule.take(k + 1)).phase_of(i) == LockPhase::Critical);
    }
}

/// Starvation freedom: from any state the protocol can be in, a thread enters
/// the critical section during every schedule that holds 26 rounds in which
/// both threads step. In particular the two threads never block each other for
/// ever, and a thread that wants the lock is not overtaken without end.
pub proof fn lemma_no_starvation(s: DekkerModel, i: int, schedule: Seq<int>)
    requires
        s.inv(),
        i == 0 || i == 1,
        forall|n: int| 0 <= n < schedule.len() ==> schedule[n] == 0 || schedule[n] == 1,
        rounds(schedule) >= 26,
    ensures
        enters_during(s, schedule, i),
{
    if s.phase_of(i) != LockPhase::Critical {
        lemma_progress_step(s, i, 0);
    }
    lemma_progress_from(s, i, schedule, false, false);
}

/// Whether thread `id` is given a step at some point from step `n` on.
pub open spec fn steps_again(schedule: spec_fn(nat) -> int, n: nat, id: int) -> bool {
    exists|m: nat| m >= n && #[trigger] schedule(m) == id
}

/// An unending schedule is fair when every step goes to thread 0 or 1 and
/// each thread keeps getting steps.
pub open spec fn fair(schedule: spec_fn(nat) -> int) -> bool {
    &&& forall|n: nat| #[trigger] schedule(n) == 0 || schedule(n) == 1
    &&& forall|n: nat, id: int| (id == 0 || id == 1) ==> #[trigger] steps_again(schedule, n, id)
}

/// The state after the first `n` steps of an unending schedule.
pub open spec fn run_steps(s: DekkerModel, schedule: spec_fn(nat) -> int, n: nat) -> DekkerModel
    decreases n,
{
    if n == 0 {
        s
    } else {
        run_steps(s, schedule, (n - 1) as nat).stepped(schedule((n - 1) as nat))
    }
}

/// Every state of a fair run from a state satisfying the invariant satisfies it.
pub proof fn lemma_run_steps_inv(s: DekkerModel, schedule: spec_fn(nat) -> int, n: nat)
    requires
        s.inv(),
        fair(schedule),
    ensures
        run_steps(s, schedule, n).inv(),
    decreases n,
{
    if n > 0 {
        lemma_run_steps_inv(s, schedule, (n - 1) as nat);
        assert(schedule((n - 1) as nat) == 0 || schedule((n - 1) as nat) == 1);
        crate::protocol::lemma_step_keeps_inv(run_steps(s, schedule, (n - 1) as nat), schedule((n - 1) as nat));
    }
}

/// From step `p`, where the helper of thread `i` gets a step at `q`, thread `i`
/// is in the critical section at some later point.
proof fn lemma_enters_after(s: DekkerModel, schedule: spec_fn(nat) -> int, i: int, p: nat, q: nat)
    requires
        s.inv(),
        fair(schedule),
        i == 0 || i == 1,
        q >= p,
        schedule(q) == helper_for(run_steps(s, schedule, p), i),
    ensures
        exists|n: nat| n >= p && #[trigger] run_steps(s, schedule, n).phase_of(i) == LockPhase::Critical,
    decreases rank_for(run_steps(s, schedule, p), i), q - p,
{
    let t = run_steps(s, schedule, p);
    lemma_run_steps_inv(s, schedule, p);
    if t.phase_of(i) == LockPhase::Critical {
        assert(run_steps(s, schedule, p).phase_of(i) == LockPhase::Critical);
    } else {
        let k = schedule(p);
        assert(k == 0 || k == 1);
        lemma_progress_step(t, i, k);
        let t2 = run_steps(s, schedule, p + 1);
        assert(t2 == t.stepped(k));
        lemma_run_steps_inv(s, schedule, p + 1);
        if rank_for(t2, i) < rank_for(t, i) {
            let h = helper_for(t2, i);
            if t2.phase_of(i) != LockPhase::Critical {
                lemma_progress_step(t2, i, 0);
            }
            assert(h == 0 || h == 1);
            assert(steps_again(schedule, p + 1, h));
            let m = choose|m: nat| m >= p + 1 && #[trigger] schedule(m) == h;
            lemma_enters_after(s, schedule, i, p + 1, m);
        } else {
            lemma_enters_after(s, schedule, i, p + 1, q);
        }
    }
}

/// Starvation freedom over unending runs: under any fair schedule, from any
/// state the protocol can be in, each thread is in the critical section again
/// and again; from every point on it gets in at some later point.
pub proof fn lemma_no_starvation_forever(s: DekkerModel, schedule: spec_fn(nat) -> int, i: int, p: nat)
    requires
        s.inv(),
        fair(schedule),
        i == 0 || i == 1,
    ensures
        exists|n: nat| n >= p && #[trigger] run_steps(s, schedule, n).phase_of(i) == LockPhase::Critical,
{
    let t = run_steps(s, schedule, p);
    lemma_run_steps_inv(s, schedule, p);
    let h = helper_for(t, i);
    if t.phase_of(i) != LockPhase::Critical {
        lemma_progress_step(t, i, 0);
    }
    assert(h == 0 || h == 1);
    assert(steps_again(schedule, p, h));
    let q = choose|m: nat| m >= p && #[trigger] schedule(m) == h;
    lemma_enters_after(s, schedule, i, p, q);
}

} // verus!
