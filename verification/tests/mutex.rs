use std::sync::Arc;

use cookbook::mutex::NaiveMutex;

#[test]
fn new_lock_hands_out_initial_value() {
    let mut lock = NaiveMutex::new(1u64);
    let guard = lock.lock();
    assert_eq!(*guard.read(), 1);
    lock.unlock(guard);
}

#[test]
fn next_holder_sees_what_previous_holder_wrote() {
    let mut lock = NaiveMutex::new(1u64);
    let mut guard = lock.lock();
    guard.write(2);
    lock.unlock(guard);

    let guard = lock.lock();
    assert_eq!(*guard.read(), 2);
    lock.unlock(guard);
}

#[test]
fn replace_hands_back_previous_value() {
    let mut lock = NaiveMutex::new(10u64);
    let mut guard = lock.lock();
    let prev = guard.replace(20);
    assert_eq!(prev, 10);
    assert_eq!(*guard.read(), 20);
    lock.unlock(guard);
}

#[test]
fn ten_units_of_a_thousand_increments_count_ten_thousand() {
    // The concrete scenario run to completion: ten logical units, each
    // acquiring the lock a thousand times and adding one per acquisition.
    let mut lock = NaiveMutex::new(0u64);
    for _unit in 0..10 {
        for _round in 0..1000 {
            let mut guard = lock.lock();
            let v = *guard.read();
            guard.write(v + 1);
            lock.unlock(guard);
        }
    }
    let guard = lock.lock();
    assert_eq!(*guard.read(), 10_000);
    lock.unlock(guard);
}

#[test]
fn dropping_all_but_one_shared_handle_keeps_the_lock_usable() {
    // Shared-ownership handles to one lock: dropping every clone but the last
    // must leave the lock and its value alive; the survivor still uses it.
    let lock = Arc::new(NaiveMutex::new(5u64));
    let clone_one = Arc::clone(&lock);
    let clone_two = Arc::clone(&lock);
    assert_eq!(Arc::strong_count(&lock), 3);

    drop(clone_one);
    drop(lock);
    let mut survivor = clone_two;
    assert_eq!(Arc::strong_count(&survivor), 1);

    let remaining = Arc::get_mut(&mut survivor).expect("the surviving handle is the only one");
    let mut guard = remaining.lock();
    assert_eq!(*guard.read(), 5);
    guard.write(6);
    remaining.unlock(guard);

    let value = Arc::try_unwrap(survivor)
        .ok()
        .map(|mut lock| {
            let guard = lock.lock();
            let v = *guard.read();
            lock.unlock(guard);
            v
        })
        .expect("the last handle owns the lock");
    assert_eq!(value, 6);
}
