use mutexed_static_vec::with_locks::{KeyTrait, KeyedSlot, OptionMutexTrait, RemoveWithLocksTrait};
use mutexed_static_vec::MutexedStaticVec;

type Slot = KeyedSlot<u32, char>;

fn seeded<const N: usize>(entries: &[(u32, Option<char>)]) -> MutexedStaticVec<Slot, N> {
    let mut v: MutexedStaticVec<Slot, N> = MutexedStaticVec::new(0).unwrap();
    for (key, item) in entries {
        assert!(v.push(KeyedSlot::new(*key, *item)).is_ok());
    }
    v
}

fn snapshot<const N: usize>(v: &MutexedStaticVec<Slot, N>) -> Vec<(u32, Option<char>)> {
    v.as_slice()
        .into_iter()
        .map(|s| (s.get_key(), *s.lock_item()))
        .collect()
}

#[test]
fn keyed_slot_accessors() {
    let mut s: Slot = KeyedSlot::new(7, Some('q'));
    assert_eq!(s.get_key(), 7);
    assert_eq!(*s.lock_item(), Some('q'));
    assert_eq!(*s.get_item_lock(), Some('q'));
    s.set_key(8);
    assert_eq!(s.get_key(), 8);
    assert_eq!(*s.lock_item(), Some('q'));
    assert_eq!(s.take_item(), Some('q'));
    assert_eq!(*s.lock_item(), None);
    assert_eq!(s.take_item(), None);
    s.set_item(Some('r'));
    assert_eq!(*s.lock_item(), Some('r'));
    assert_eq!(s.get_key(), 8);
}

#[test]
fn swap_remove_moves_last_into_hole() {
    let mut v = seeded::<3>(&[(0, Some('X')), (1, Some('Y')), (2, Some('Z'))]);
    assert_eq!(v.swap_remove(1), Some('Y'));
    assert_eq!(v.len(), 2);
    assert_eq!(snapshot(&v), vec![(0, Some('X')), (2, Some('Z'))]);
}

#[test]
fn swap_remove_first_of_three() {
    let mut v = seeded::<3>(&[(0, Some('X')), (1, Some('Y')), (2, Some('Z'))]);
    assert_eq!(v.swap_remove(0), Some('X'));
    assert_eq!(snapshot(&v), vec![(2, Some('Z')), (1, Some('Y'))]);
}

#[test]
fn swap_remove_last_only_shrinks() {
    let mut v = seeded::<3>(&[(0, Some('X')), (1, Some('Y')), (2, Some('Z'))]);
    assert_eq!(v.swap_remove(2), Some('Z'));
    assert_eq!(snapshot(&v), vec![(0, Some('X')), (1, Some('Y'))]);
    assert_eq!(v.swap_remove(1), Some('Y'));
    assert_eq!(v.swap_remove(0), Some('X'));
    assert!(v.is_empty());
}

#[test]
fn swap_remove_carries_an_empty_payload() {
    let mut v = seeded::<3>(&[(0, Some('X')), (1, Some('Y')), (2, None)]);
    assert_eq!(v.swap_remove(0), Some('X'));
    assert_eq!(snapshot(&v), vec![(2, None), (1, Some('Y'))]);
}

#[test]
fn remove_with_locks_takes_first_match() {
    let mut v = seeded::<4>(&[(1, Some('a')), (2, Some('b')), (3, Some('c')), (4, Some('d'))]);
    assert!(v.remove_with_locks(|k: &u32| *k == 2, |_c: &char| true));
    assert_eq!(v.len(), 3);
    assert_eq!(
        snapshot(&v),
        vec![(1, Some('a')), (4, Some('d')), (3, Some('c'))]
    );
}

#[test]
fn remove_with_locks_removed_key_is_gone_and_moved_key_is_found() {
    let mut v = seeded::<4>(&[(1, Some('a')), (2, Some('b')), (3, Some('c')), (4, Some('d'))]);
    assert!(v.remove_with_locks(|k: &u32| *k == 1, |_c: &char| true));
    let after = snapshot(&v);
    assert!(after.iter().all(|(k, _)| *k != 1));
    assert!(after.iter().all(|(_, item)| item.is_some()));
    assert_eq!(after[0], (4, Some('d')));
    assert!(!v.remove_with_locks(|k: &u32| *k == 1, |_c: &char| true));
    assert!(v.remove_with_locks(|k: &u32| *k == 4, |c: &char| *c == 'd'));
    assert_eq!(snapshot(&v), vec![(3, Some('c')), (2, Some('b'))]);
}

#[test]
fn remove_with_locks_last_element() {
    let mut v = seeded::<3>(&[(1, Some('a')), (2, Some('b')), (3, Some('c'))]);
    assert!(v.remove_with_locks(|k: &u32| *k == 3, |_c: &char| true));
    assert_eq!(snapshot(&v), vec![(1, Some('a')), (2, Some('b'))]);
}

#[test]
fn remove_with_locks_needs_both_predicates() {
    let mut v = seeded::<3>(&[(1, Some('a')), (1, Some('b')), (2, Some('b'))]);
    assert!(v.remove_with_locks(|k: &u32| *k == 1, |c: &char| *c == 'b'));
    assert_eq!(snapshot(&v), vec![(1, Some('a')), (2, Some('b'))]);
}

#[test]
fn remove_with_locks_skips_empty_payloads() {
    let mut v = seeded::<3>(&[(1, None), (1, Some('b')), (2, Some('c'))]);
    assert!(v.remove_with_locks(|k: &u32| *k == 1, |_c: &char| true));
    assert_eq!(snapshot(&v), vec![(1, None), (2, Some('c'))]);
    assert!(!v.remove_with_locks(|k: &u32| *k == 1, |_c: &char| true));
    assert_eq!(snapshot(&v), vec![(1, None), (2, Some('c'))]);
}

#[test]
fn remove_with_locks_removes_one_match_per_call() {
    let mut v = seeded::<4>(&[(5, Some('a')), (5, Some('b')), (5, Some('c'))]);
    assert!(v.remove_with_locks(|k: &u32| *k == 5, |_c: &char| true));
    assert_eq!(v.len(), 2);
    assert_eq!(snapshot(&v), vec![(5, Some('c')), (5, Some('b'))]);
}

#[test]
fn remove_with_locks_no_match_changes_nothing() {
    let mut v = seeded::<3>(&[(1, Some('a')), (2, Some('b'))]);
    assert!(!v.remove_with_locks(|k: &u32| *k == 9, |_c: &char| true));
    assert!(!v.remove_with_locks(|k: &u32| *k == 1, |c: &char| *c == 'z'));
    assert_eq!(snapshot(&v), vec![(1, Some('a')), (2, Some('b'))]);
}

#[test]
fn remove_with_locks_on_empty_returns_false() {
    let mut v = seeded::<3>(&[]);
    assert!(!v.remove_with_locks(|_k: &u32| true, |_c: &char| true));
    assert!(v.is_empty());
}

#[test]
fn remove_with_locks_single_element() {
    let mut v = seeded::<1>(&[(1, Some('a'))]);
    assert!(v.remove_with_locks(|_k: &u32| true, |_c: &char| true));
    assert!(v.is_empty());
    assert!(v.push(KeyedSlot::new(2, Some('b'))).is_ok());
    assert_eq!(snapshot(&v), vec![(2, Some('b'))]);
}
