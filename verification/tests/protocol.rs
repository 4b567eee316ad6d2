use cookbook::protocol::LockRace;

#[test]
fn only_one_acquirer_wins_the_race() {
    let mut race = LockRace::new(3, 0);
    assert!(race.try_acquire(0));
    assert!(race.holds(0));
    // While unit 0 holds the lock, every other attempt loses.
    assert!(!race.try_acquire(1));
    assert!(!race.try_acquire(2));
    assert!(!race.holds(1));
    assert!(!race.holds(2));
}

#[test]
fn reacquiring_without_releasing_never_succeeds() {
    let mut race = LockRace::new(2, 0);
    assert!(race.try_acquire(0));
    // The same unit attempting again is the non-reentrant self-deadlock: the
    // attempt loses, and would lose on every retry.
    assert!(!race.try_acquire(0));
    assert!(!race.try_acquire(0));
    assert!(race.holds(0));
}

#[test]
fn release_lets_the_next_attempt_win() {
    let mut race = LockRace::new(2, 0);
    assert!(race.try_acquire(0));
    assert!(!race.try_acquire(1));
    race.release(0);
    assert!(race.try_acquire(1));
    assert!(race.holds(1));
    assert!(!race.holds(0));
}

#[test]
fn writes_by_non_holders_are_lost() {
    let mut race = LockRace::new(3, 7);
    assert!(race.try_acquire(1));
    race.write(0, 99);
    race.write(2, 100);
    assert_eq!(race.read(), 7);
    race.write(1, 8);
    assert_eq!(race.read(), 8);
    race.release(1);
    assert_eq!(race.read(), 8);
}

#[test]
fn release_by_a_non_holder_changes_nothing() {
    let mut race = LockRace::new(2, 0);
    assert!(race.try_acquire(0));
    race.release(1);
    assert!(race.holds(0));
    assert!(!race.try_acquire(1));
}

#[test]
fn interleaved_counter_reaches_ten_thousand() {
    // The concrete scenario as an interleaving of the model: ten units, each
    // acquiring a thousand times and adding one per acquisition.
    let mut race = LockRace::new(10, 0);
    for _round in 0..1000 {
        for unit in 0..10 {
            assert!(race.try_acquire(unit));
            let v = race.read();
            race.write(unit, v + 1);
            race.release(unit);
        }
    }
    assert_eq!(race.read(), 10_000);
    assert_eq!(race.units(), 10);
}
