use mutexed_static_vec::reserve::{publish_step, reserve_step, Reservation, ReservingStaticVec};
use mutexed_static_vec::StaticVecError;

fn contents<const N: usize>(v: &ReservingStaticVec<char, N>) -> Vec<char> {
    v.as_slice().into_iter().copied().collect()
}

#[test]
fn reserve_step_values() {
    assert_eq!(reserve_step(0, 2, 4), Ok(2));
    assert_eq!(reserve_step(2, 2, 4), Ok(4));
    assert_eq!(reserve_step(4, 0, 4), Ok(4));
    assert_eq!(reserve_step(3, 2, 4), Err(StaticVecError::CapacityExceeded));
    assert_eq!(reserve_step(4, 1, 4), Err(StaticVecError::CapacityExceeded));
    assert_eq!(
        reserve_step(1, usize::MAX, 4),
        Err(StaticVecError::CapacityExceeded)
    );
    assert_eq!(reserve_step(5, 0, 4), Err(StaticVecError::CapacityExceeded));
}

#[test]
fn publish_step_values() {
    assert_eq!(publish_step(0, 0, 2), Some(2));
    assert_eq!(publish_step(2, 2, 2), Some(4));
    assert_eq!(publish_step(0, 2, 2), None);
    assert_eq!(publish_step(3, 2, 2), None);
    assert_eq!(publish_step(1, 1, 0), Some(1));
}

#[test]
fn new_reserving_is_empty() {
    let v: ReservingStaticVec<char, 4> = ReservingStaticVec::new();
    assert_eq!(v.len(), 0);
    assert_eq!(v.reserved(), 0);
    assert!(v.is_empty());
    assert!(v.as_slice().is_empty());
}

#[test]
fn two_writers_publish_in_reservation_order() {
    let mut v: ReservingStaticVec<char, 4> = ReservingStaticVec::new();
    let first = v.reserve(2).unwrap();
    let second = v.reserve(2).unwrap();
    assert_eq!(first, Reservation { start: 0, count: 2 });
    assert_eq!(second, Reservation { start: 2, count: 2 });
    assert_eq!(v.reserved(), 4);
    assert_eq!(v.len(), 0);

    v.write(second, 0, 'c');
    v.write(second, 1, 'd');
    assert!(v.is_filled(second));
    assert!(!v.try_publish(second));
    assert_eq!(v.len(), 0);
    assert!(v.as_slice().is_empty());

    v.write(first, 1, 'b');
    assert!(!v.is_filled(first));
    v.write(first, 0, 'a');
    assert!(v.is_filled(first));
    assert!(v.try_publish(first));
    assert_eq!(v.len(), 2);
    assert_eq!(contents(&v), vec!['a', 'b']);

    assert!(v.try_publish(second));
    assert_eq!(v.len(), 4);
    assert_eq!(contents(&v), vec!['a', 'b', 'c', 'd']);
}

#[test]
fn two_writers_first_finishes_first() {
    let mut v: ReservingStaticVec<char, 4> = ReservingStaticVec::new();
    let first = v.reserve(2).unwrap();
    let second = v.reserve(2).unwrap();
    v.write(first, 0, 'a');
    v.write(first, 1, 'b');
    assert!(v.try_publish(first));
    assert_eq!(v.len(), 2);
    v.write(second, 0, 'c');
    v.write(second, 1, 'd');
    assert!(v.try_publish(second));
    assert_eq!(v.len(), 4);
    assert_eq!(contents(&v), vec!['a', 'b', 'c', 'd']);
}

#[test]
fn reserve_beyond_capacity_changes_nothing() {
    let mut v: ReservingStaticVec<char, 3> = ReservingStaticVec::new();
    let t = v.reserve(2).unwrap();
    assert_eq!(v.reserve(2), Err(StaticVecError::CapacityExceeded));
    assert_eq!(v.reserved(), 2);
    assert_eq!(v.len(), 0);
    assert!(v.holds(t));
    assert_eq!(v.reserve(1), Ok(Reservation { start: 2, count: 1 }));
    assert_eq!(v.reserved(), 3);
    assert_eq!(v.reserve(1), Err(StaticVecError::CapacityExceeded));
    assert_eq!(v.reserve(0), Ok(Reservation { start: 3, count: 0 }));
}

#[test]
fn holds_tells_live_tickets_apart() {
    let mut v: ReservingStaticVec<char, 4> = ReservingStaticVec::new();
    let t = v.reserve(2).unwrap();
    assert!(v.holds(t));
    assert!(!v.holds(Reservation { start: 1, count: 2 }));
    assert!(!v.holds(Reservation { start: 3, count: usize::MAX }));
    v.write(t, 0, 'a');
    v.write(t, 1, 'b');
    assert!(v.try_publish(t));
    assert!(!v.holds(t));
}

#[test]
fn single_writer_push_sequence() {
    let mut v: ReservingStaticVec<char, 2> = ReservingStaticVec::new();
    for c in ['p', 'q'] {
        let t = v.reserve(1).unwrap();
        v.write(t, 0, c);
        assert!(v.try_publish(t));
    }
    assert_eq!(contents(&v), vec!['p', 'q']);
    assert_eq!(v.reserve(1), Err(StaticVecError::CapacityExceeded));
    assert_eq!(v.len(), 2);
}

#[test]
fn empty_reservation_publishes_nothing() {
    let mut v: ReservingStaticVec<char, 2> = ReservingStaticVec::new();
    let t = v.reserve(0).unwrap();
    assert!(v.is_filled(t));
    assert!(v.try_publish(t));
    assert_eq!(v.len(), 0);
}
