use dekker_sync::protocol::{DekkerModel, LockPhase};
use dekker_sync::limited_vec::LimitedVec;
use dekker_sync::pacing::delay_millis;
use dekker_sync::producer_consumer::{place_product, take_product, BUFFER_DEKKER_SIZE, TASK_DEKKER_SIZE};

#[test]
fn sizes() {
    assert_eq!(BUFFER_DEKKER_SIZE, 6);
    assert_eq!(TASK_DEKKER_SIZE, 100);
}

#[test]
fn producer_fills_cells_in_order_then_waits() {
    let mut buf = LimitedVec::new(BUFFER_DEKKER_SIZE);
    for i in 1..=6 {
        assert_eq!(place_product(&mut buf, i), Some(i - 1));
    }
    assert_eq!(place_product(&mut buf, 7), None);
    assert_eq!(buf.len(), 6);
}

#[test]
fn consumer_waits_on_empty_buffer() {
    let mut buf: LimitedVec<(usize, usize)> = LimitedVec::new(BUFFER_DEKKER_SIZE);
    assert_eq!(take_product(&mut buf), None);
    assert!(buf.is_empty());
}

#[test]
fn consumer_takes_oldest_product_first() {
    let mut buf = LimitedVec::new(BUFFER_DEKKER_SIZE);
    assert_eq!(place_product(&mut buf, 1), Some(0));
    assert_eq!(place_product(&mut buf, 2), Some(1));
    assert_eq!(place_product(&mut buf, 3), Some(2));
    assert_eq!(take_product(&mut buf), Some(((1, 0), 2)));
    assert_eq!(place_product(&mut buf, 4), Some(2));
    assert_eq!(take_product(&mut buf), Some(((2, 1), 2)));
    assert_eq!(take_product(&mut buf), Some(((3, 2), 1)));
    assert_eq!(take_product(&mut buf), Some(((4, 2), 0)));
    assert_eq!(take_product(&mut buf), None);
}

#[test]
fn every_product_arrives_once_and_in_order() {
    let mut buf = LimitedVec::new(BUFFER_DEKKER_SIZE);
    let mut next = 1;
    let mut taken = Vec::new();
    // the producer runs three steps for every two of the consumer
    for round in 0..400 {
        if round % 5 < 3 {
            if next <= TASK_DEKKER_SIZE && place_product(&mut buf, next).is_some() {
                next += 1;
            }
        } else if let Some(((number, _cell), _left)) = take_product(&mut buf) {
            taken.push(number);
        }
    }
    while let Some(((number, _), _)) = take_product(&mut buf) {
        taken.push(number);
    }
    assert_eq!(taken, (1..next).collect::<Vec<usize>>());
}

#[test]
fn pause_from_speed() {
    assert_eq!(delay_millis(0), None);
    assert_eq!(delay_millis(1), Some(1980));
    assert_eq!(delay_millis(50), Some(1000));
    assert_eq!(delay_millis(100), Some(0));
}

#[test]
fn both_threads_finish_under_dekker_lock() {
    // thread 0 produces, thread 1 consumes; each does its move in the step that
    // leaves its critical section, then locks again until all moves are made
    let mut seed: u64 = 99;
    for _ in 0..50 {
        let mut lock = DekkerModel::new();
        let mut buf = LimitedVec::new(BUFFER_DEKKER_SIZE);
        let mut produced = 0usize;
        let mut consumed = Vec::new();
        let mut steps = 0;
        loop {
            let done0 = produced == TASK_DEKKER_SIZE && lock.phase0 == LockPhase::Idle;
            let done1 = consumed.len() == TASK_DEKKER_SIZE && lock.phase1 == LockPhase::Idle;
            if done0 && done1 {
                break;
            }
            seed = seed.wrapping_mul(6364136223846793005).wrapping_add(1442695040888963407);
            let id = ((seed >> 33) % 3 == 0) as usize;
            if (id == 0 && done0) || (id == 1 && done1) {
                continue;
            }
            let phase = if id == 0 { lock.phase0 } else { lock.phase1 };
            if phase == LockPhase::Critical {
                if id == 0 {
                    if place_product(&mut buf, produced + 1).is_some() {
                        produced += 1;
                    }
                } else if let Some(((number, _), _)) = take_product(&mut buf) {
                    consumed.push(number);
                }
            }
            lock.step(id);
            assert!(!(lock.phase0 == LockPhase::Critical && lock.phase1 == LockPhase::Critical));
            steps += 1;
            assert!(steps < 1_000_000);
        }
        assert_eq!(consumed, (1..=TASK_DEKKER_SIZE).collect::<Vec<usize>>());
        assert!(buf.is_empty());
    }
}
