use dekker_sync::dekker::Dekker;
use dekker_sync::protocol::LockPhase;
use dekker_sync::shared_container::SharedContainer;

fn lock(d: &Dekker, id: usize) -> usize {
    let mut phase = LockPhase::Idle;
    let mut steps = 0;
    while phase != LockPhase::Critical {
        phase = d.lock_step(id, phase);
        steps += 1;
        assert!(steps < 1000);
    }
    steps
}

#[test]
fn free_lock_is_taken_in_two_steps() {
    let d = Dekker::new();
    assert_eq!(lock(&d, 0), 2);
    d.unlock(0);
    assert_eq!(lock(&d, 1), 2);
    d.unlock(1);
    assert_eq!(lock(&d, 0), 2);
}

#[test]
fn held_lock_makes_the_other_back_off() {
    let d = Dekker::new();
    lock(&d, 0);
    let p = d.lock_step(1, LockPhase::Idle);
    assert_eq!(p, LockPhase::CheckOther);
    let p = d.lock_step(1, p);
    assert_eq!(p, LockPhase::CheckTurn);
    // turn is still 0, so thread 1 withdraws and waits
    let p = d.lock_step(1, p);
    assert_eq!(p, LockPhase::Withdraw);
    let p = d.lock_step(1, p);
    assert_eq!(p, LockPhase::WaitTurn);
    assert_eq!(d.lock_step(1, p), LockPhase::WaitTurn);
    d.unlock(0);
    let p = d.lock_step(1, p);
    assert_eq!(p, LockPhase::Reannounce);
    let p = d.lock_step(1, p);
    assert_eq!(p, LockPhase::CheckOther);
    assert_eq!(d.lock_step(1, p), LockPhase::Critical);
}

#[test]
fn unlock_steps_match_unlock() {
    let d = Dekker::new();
    lock(&d, 1);
    let p = d.lock_step(1, LockPhase::Critical);
    assert_eq!(p, LockPhase::Release);
    assert_eq!(d.lock_step(1, p), LockPhase::Idle);
    // turn now names thread 0 and both flags are down
    assert_eq!(lock(&d, 0), 2);
}

#[test]
fn container_release_paths_free_the_lock() {
    let c = SharedContainer::new(vec![1u8, 2, 3]);
    assert_eq!(lock(c.guard(), 0), 2);
    c.unlock_first();
    assert_eq!(lock(c.guard(), 1), 2);
    c.unlock_second();
    assert_eq!(lock(c.guard(), 0), 2);
    // while thread 0 holds it, thread 1 is sent round the back-off path
    let p = c.guard().lock_step(1, LockPhase::Idle);
    assert_eq!(c.guard().lock_step(1, p), LockPhase::CheckTurn);
}
