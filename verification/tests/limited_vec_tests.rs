use dekker_sync::limited_vec::{LimitedVec, PUSH_ERROR, REMOVE_ERROR};

#[test]
fn new_vector_is_empty() {
    let v: LimitedVec<u32> = LimitedVec::new(3);
    assert_eq!(v.len(), 0);
    assert!(v.is_empty());
}

#[test]
fn push_within_limit_appends() {
    let mut v = LimitedVec::new(2);
    assert_eq!(v.push(10u32), Ok(()));
    assert_eq!(v.push(20u32), Ok(()));
    assert_eq!(v.len(), 2);
    assert!(!v.is_empty());
}

#[test]
fn push_at_limit_is_refused_and_changes_nothing() {
    let mut v = LimitedVec::new(2);
    v.push(1u32).unwrap();
    v.push(2u32).unwrap();
    assert_eq!(v.push(3u32), Err(PUSH_ERROR));
    assert_eq!(PUSH_ERROR, "The maximum vector length has been exceeded");
    assert_eq!(v.len(), 2);
    assert_eq!(v.remove(0), Ok(1));
    assert_eq!(v.remove(0), Ok(2));
}

#[test]
fn zero_limit_refuses_every_push() {
    let mut v = LimitedVec::new(0);
    assert_eq!(v.push('a'), Err(PUSH_ERROR));
    assert!(v.is_empty());
}

#[test]
fn remove_shifts_later_elements_down() {
    let mut v = LimitedVec::new(5);
    for x in [1u8, 2, 3, 4] {
        v.push(x).unwrap();
    }
    assert_eq!(v.remove(1), Ok(2));
    assert_eq!(v.len(), 3);
    assert_eq!(v.remove(1), Ok(3));
    assert_eq!(v.remove(0), Ok(1));
    assert_eq!(v.remove(0), Ok(4));
    assert!(v.is_empty());
}

#[test]
fn remove_past_the_end_is_refused() {
    let mut v = LimitedVec::new(5);
    v.push(7i64).unwrap();
    assert_eq!(v.remove(1), Err(REMOVE_ERROR));
    assert_eq!(REMOVE_ERROR, "The maximum vector index has been exceeded");
    assert_eq!(v.len(), 1);
    let mut e: LimitedVec<i64> = LimitedVec::new(5);
    assert_eq!(e.remove(0), Err(REMOVE_ERROR));
}

#[test]
fn remove_last_undoes_push() {
    let mut v = LimitedVec::new(4);
    v.push(5u16).unwrap();
    v.push(6u16).unwrap();
    v.push(9u16).unwrap();
    assert_eq!(v.remove(2), Ok(9));
    assert_eq!(v.len(), 2);
    assert_eq!(v.remove(0), Ok(5));
    assert_eq!(v.remove(0), Ok(6));
}

#[test]
fn queue_use_is_first_in_first_out() {
    let mut v = LimitedVec::new(3);
    v.push("a").unwrap();
    v.push("b").unwrap();
    assert_eq!(v.remove(0), Ok("a"));
    v.push("c").unwrap();
    v.push("d").unwrap();
    assert_eq!(v.push("e"), Err(PUSH_ERROR));
    assert_eq!(v.remove(0), Ok("b"));
    assert_eq!(v.remove(0), Ok("c"));
    assert_eq!(v.remove(0), Ok("d"));
    assert_eq!(v.remove(0), Err(REMOVE_ERROR));
}

#[test]
fn max_size_is_the_limit() {
    let v: LimitedVec<u8> = LimitedVec::new(7);
    assert_eq!(v.max_size(), 7);
}

#[test]
fn k_pushes_then_k_front_removes_come_out_in_order() {
    for n in 0..6usize {
        for k in 0..=n {
            let mut v = LimitedVec::new(n);
            for x in 0..k {
                assert_eq!(v.push(x * 10), Ok(()));
            }
            for x in 0..k {
                assert_eq!(v.remove(0), Ok(x * 10));
            }
            assert!(v.is_empty());
            assert_eq!(v.remove(0), Err(REMOVE_ERROR));
        }
    }
}
