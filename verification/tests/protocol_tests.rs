use dekker_sync::protocol::{next_phase, phase_action, DekkerModel, LockAction, LockPhase};

fn holds(p: LockPhase) -> bool {
    p == LockPhase::Critical || p == LockPhase::Release
}

#[test]
fn next_phase_follows_the_cycle() {
    assert_eq!(next_phase(LockPhase::Idle, true), LockPhase::CheckOther);
    assert_eq!(next_phase(LockPhase::CheckOther, false), LockPhase::Critical);
    assert_eq!(next_phase(LockPhase::CheckOther, true), LockPhase::CheckTurn);
    assert_eq!(next_phase(LockPhase::CheckTurn, true), LockPhase::CheckOther);
    assert_eq!(next_phase(LockPhase::CheckTurn, false), LockPhase::Withdraw);
    assert_eq!(next_phase(LockPhase::Withdraw, false), LockPhase::WaitTurn);
    assert_eq!(next_phase(LockPhase::WaitTurn, false), LockPhase::WaitTurn);
    assert_eq!(next_phase(LockPhase::WaitTurn, true), LockPhase::Reannounce);
    assert_eq!(next_phase(LockPhase::Reannounce, true), LockPhase::CheckOther);
    assert_eq!(next_phase(LockPhase::Critical, true), LockPhase::Release);
    assert_eq!(next_phase(LockPhase::Release, false), LockPhase::Idle);
}

#[test]
fn model_starts_idle() {
    let m = DekkerModel::new();
    assert_eq!(
        m,
        DekkerModel {
            want0: false,
            want1: false,
            turn: 0,
            phase0: LockPhase::Idle,
            phase1: LockPhase::Idle,
        }
    );
}

#[test]
fn uncontended_lock_takes_two_steps() {
    let mut m = DekkerModel::new();
    m.step(1);
    assert_eq!(m.phase1, LockPhase::CheckOther);
    assert!(m.want1);
    m.step(1);
    assert_eq!(m.phase1, LockPhase::Critical);
}

#[test]
fn unlock_hands_turn_over() {
    let mut m = DekkerModel::new();
    m.step(0);
    m.step(0);
    assert_eq!(m.phase0, LockPhase::Critical);
    m.step(0);
    assert_eq!(m.turn, 1);
    assert_eq!(m.phase0, LockPhase::Release);
    assert!(m.want0);
    m.step(0);
    assert!(!m.want0);
    assert_eq!(m.phase0, LockPhase::Idle);
}

#[test]
fn contender_waits_until_holder_leaves() {
    let mut m = DekkerModel::new();
    m.step(0);
    m.step(0);
    assert_eq!(m.phase0, LockPhase::Critical);
    // thread 1 announces, sees thread 0's flag, and (turn is 0) backs off
    m.step(1);
    m.step(1);
    assert_eq!(m.phase1, LockPhase::CheckTurn);
    m.step(1);
    assert_eq!(m.phase1, LockPhase::Withdraw);
    m.step(1);
    assert!(!m.want1);
    m.step(1);
    assert_eq!(m.phase1, LockPhase::WaitTurn);
    // thread 0 leaves: turn goes to 1, then its flag comes down
    m.step(0);
    m.step(1);
    assert_eq!(m.phase1, LockPhase::Reannounce);
    m.step(1);
    assert_eq!(m.phase1, LockPhase::CheckOther);
    m.step(1);
    assert_eq!(m.phase1, LockPhase::CheckTurn);
    m.step(0);
    m.step(1);
    assert_eq!(m.phase1, LockPhase::CheckOther);
    m.step(1);
    assert_eq!(m.phase1, LockPhase::Critical);
    assert_eq!(m.phase0, LockPhase::Idle);
}

#[test]
fn no_schedule_lets_both_hold() {
    // every interleaving of 12 steps
    for bits in 0u32..(1 << 12) {
        let mut m = DekkerModel::new();
        for k in 0..12 {
            m.step(((bits >> k) & 1) as usize);
            assert!(!(holds(m.phase0) && holds(m.phase1)));
            assert!(m.turn < 2);
        }
    }
}

#[test]
fn each_thread_enters_within_26_fair_rounds() {
    // pseudo-random schedules; a round ends once both threads have stepped
    let mut seed: u64 = 12345;
    for _ in 0..2000 {
        let mut m = DekkerModel::new();
        // move to a random reachable state first
        for _ in 0..(seed % 40) {
            seed = seed.wrapping_mul(6364136223846793005).wrapping_add(1442695040888963407);
            m.step(((seed >> 33) & 1) as usize);
        }
        for target in 0..2usize {
            let mut s = m;
            let mut entered = if target == 0 { s.phase0 } else { s.phase1 } == LockPhase::Critical;
            let mut rounds = 0;
            let (mut seen0, mut seen1) = (false, false);
            while !entered && rounds < 26 {
                seed = seed.wrapping_mul(6364136223846793005).wrapping_add(1442695040888963407);
                // the scheduler favours thread 1 heavily
                let id = if (seed >> 33) % 7 == 0 { 0 } else { 1 };
                s.step(id);
                if id == 0 { seen0 = true } else { seen1 = true }
                if seen0 && seen1 {
                    rounds += 1;
                    seen0 = false;
                    seen1 = false;
                }
                entered = if target == 0 { s.phase0 } else { s.phase1 } == LockPhase::Critical;
            }
            assert!(entered);
        }
    }
}

#[test]
fn each_phase_has_its_action() {
    assert_eq!(phase_action(LockPhase::Idle), LockAction::SetOwnFlag(true));
    assert_eq!(phase_action(LockPhase::CheckOther), LockAction::ReadOtherFlag);
    assert_eq!(phase_action(LockPhase::CheckTurn), LockAction::ReadTurn);
    assert_eq!(phase_action(LockPhase::Withdraw), LockAction::SetOwnFlag(false));
    assert_eq!(phase_action(LockPhase::WaitTurn), LockAction::ReadTurn);
    assert_eq!(phase_action(LockPhase::Reannounce), LockAction::SetOwnFlag(true));
    assert_eq!(phase_action(LockPhase::Critical), LockAction::GiveTurn);
    assert_eq!(phase_action(LockPhase::Release), LockAction::SetOwnFlag(false));
}
