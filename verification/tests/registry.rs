use live_users::registry::UserCounter;

fn ip(text: &str) -> String {
    text.to_string()
}

#[test]
fn new_registry_is_empty() {
    let counter = UserCounter::new();
    assert_eq!(counter.get_count(), 0);
    assert_eq!(counter.refcount("10.0.0.1"), 0);
}

#[test]
fn first_join_grows_the_count() {
    let mut counter = UserCounter::new();
    assert_eq!(counter.increment(ip("10.0.0.1")), (1, true));
    assert_eq!(counter.get_count(), 1);
    assert_eq!(counter.refcount("10.0.0.1"), 1);
}

#[test]
fn duplicate_join_keeps_the_count() {
    let mut counter = UserCounter::new();
    counter.increment(ip("10.0.0.1"));
    assert_eq!(counter.increment(ip("10.0.0.1")), (1, false));
    assert_eq!(counter.get_count(), 1);
    assert_eq!(counter.refcount("10.0.0.1"), 2);
}

#[test]
fn distinct_identities_count_separately() {
    let mut counter = UserCounter::new();
    assert_eq!(counter.increment(ip("10.0.0.1")), (1, true));
    assert_eq!(counter.increment(ip("10.0.0.2")), (2, true));
    assert_eq!(counter.increment(ip("10.0.0.3")), (3, true));
    assert_eq!(counter.get_count(), 3);
}

#[test]
fn many_joins_of_one_identity_count_once() {
    let mut counter = UserCounter::new();
    counter.increment(ip("other"));
    let mut first_joins = 0;
    for _ in 0..100 {
        let (total, changed) = counter.increment(ip("X"));
        assert_eq!(total, 2);
        if changed {
            first_joins += 1;
        }
    }
    assert_eq!(first_joins, 1);
    assert_eq!(counter.get_count(), 2);
    assert_eq!(counter.refcount("X"), 100);
    assert_eq!(counter.refcount("other"), 1);
}

#[test]
fn leave_of_absent_identity_changes_nothing() {
    let mut counter = UserCounter::new();
    assert_eq!(counter.decrement(ip("10.0.0.1")), (0, false));
    assert_eq!(counter.get_count(), 0);
    counter.increment(ip("10.0.0.2"));
    assert_eq!(counter.decrement(ip("10.0.0.1")), (1, false));
    assert_eq!(counter.get_count(), 1);
    assert_eq!(counter.refcount("10.0.0.2"), 1);
}

#[test]
fn leave_of_last_session_shrinks_the_count() {
    let mut counter = UserCounter::new();
    counter.increment(ip("10.0.0.1"));
    counter.increment(ip("10.0.0.2"));
    assert_eq!(counter.decrement(ip("10.0.0.1")), (1, true));
    assert_eq!(counter.refcount("10.0.0.1"), 0);
    assert_eq!(counter.get_count(), 1);
}

#[test]
fn leave_with_sessions_left_keeps_the_count() {
    let mut counter = UserCounter::new();
    counter.increment(ip("10.0.0.1"));
    counter.increment(ip("10.0.0.1"));
    counter.increment(ip("10.0.0.1"));
    assert_eq!(counter.decrement(ip("10.0.0.1")), (1, false));
    assert_eq!(counter.refcount("10.0.0.1"), 2);
    assert_eq!(counter.decrement(ip("10.0.0.1")), (1, false));
    assert_eq!(counter.refcount("10.0.0.1"), 1);
    assert_eq!(counter.decrement(ip("10.0.0.1")), (0, true));
    assert_eq!(counter.refcount("10.0.0.1"), 0);
}

#[test]
fn double_leave_never_goes_below_zero() {
    let mut counter = UserCounter::new();
    counter.increment(ip("10.0.0.1"));
    assert_eq!(counter.decrement(ip("10.0.0.1")), (0, true));
    assert_eq!(counter.decrement(ip("10.0.0.1")), (0, false));
    assert_eq!(counter.decrement(ip("10.0.0.1")), (0, false));
    assert_eq!(counter.get_count(), 0);
    assert_eq!(counter.increment(ip("10.0.0.1")), (1, true));
}

#[test]
fn leave_before_join_is_not_remembered() {
    let mut counter = UserCounter::new();
    assert_eq!(counter.decrement(ip("X")), (0, false));
    assert_eq!(counter.increment(ip("X")), (1, true));
    assert_eq!(counter.refcount("X"), 1);
    assert_eq!(counter.get_count(), 1);
}

#[test]
fn count_is_the_number_of_identities_with_sessions() {
    let mut counter = UserCounter::new();
    let calls: Vec<(bool, &str)> = vec![
        (true, "a"),
        (true, "b"),
        (true, "a"),
        (false, "c"),
        (false, "a"),
        (true, "c"),
        (false, "b"),
        (false, "b"),
        (false, "a"),
        (true, "d"),
        (true, "d"),
    ];
    let mut held: Vec<(&str, usize)> = vec![("a", 0), ("b", 0), ("c", 0), ("d", 0)];
    for (is_join, name) in calls {
        let before = counter.get_count();
        let (total, changed) = if is_join {
            counter.increment(ip(name))
        } else {
            counter.decrement(ip(name))
        };
        for entry in held.iter_mut() {
            if entry.0 == name {
                if is_join {
                    entry.1 += 1;
                } else if entry.1 > 0 {
                    entry.1 -= 1;
                }
            }
        }
        let present = held.iter().filter(|entry| entry.1 > 0).count();
        assert_eq!(total, present);
        assert_eq!(counter.get_count(), present);
        assert_eq!(changed, total != before);
        for entry in held.iter() {
            assert_eq!(counter.refcount(entry.0), entry.1);
        }
    }
    assert_eq!(counter.get_count(), 2);
    assert_eq!(counter.refcount("c"), 1);
    assert_eq!(counter.refcount("d"), 2);
}

#[test]
fn empty_identity_is_an_identity_like_any_other() {
    let mut counter = UserCounter::new();
    assert_eq!(counter.increment(ip("")), (1, true));
    assert_eq!(counter.increment(ip("")), (1, false));
    assert_eq!(counter.decrement(ip("")), (1, false));
    assert_eq!(counter.decrement(ip("")), (0, true));
}
