use materialist::rate_limit::moment_of;
use materialist::rate_limit::Options;
use materialist::rate_limit::OverLimit;

const SEC: u64 = 1_000_000_000;

fn limiter(capacity: u16, interval: u64, length: usize) -> materialist::rate_limit::Rated {
    Options { interval, length, capacity, ..Options::default() }.build()
}

#[test]
fn test_options() {
    let r = Options { interval: 1 * SEC, length: 3, capacity: 99, ..Options::default() }.build();
    assert_eq!(r.options().length, 3);

    let r = Options { interval: 33 * SEC, length: 3, capacity: 99, ..Options::default() }.build();
    assert_eq!(r.options().length, 3);
}

#[test]
fn test_1() {
    let now = 0u64;

    let mut r = limiter(9, SEC, 3);
    assert_eq!(r.add_this_instant(0, 9, now), Ok(()));
    assert_eq!(r.add_this_instant(0, 1, now), Err(OverLimit));
    assert_eq!(r.add_this_instant(0, 1, now + 1 * SEC), Err(OverLimit));
    assert_eq!(r.add_this_instant(0, 1, now + 2 * SEC), Err(OverLimit));
    assert_eq!(r.add_this_instant(0, 1, now + 3 * SEC), Ok(()));
}

#[test]
fn test_2() {
    let now = 0u64;

    let mut r = limiter(9, SEC, 3);
    assert_eq!(r.add_this_instant(0, 3, now + 0 * SEC), Ok(()));
    assert_eq!(r.add_this_instant(0, 6, now + 2 * SEC), Ok(()));
    assert_eq!(r.add_this_instant(0, 1, now + 2 * SEC), Err(OverLimit));
    assert_eq!(r.add_this_instant(0, 3, now + 3 * SEC), Ok(()));
    assert_eq!(r.add_this_instant(0, 9, now + 9 * SEC), Ok(()));
    assert_eq!(r.add_this_instant(0, 1, now + 11 * SEC), Err(OverLimit));
    assert_eq!(r.add_this_instant(0, 9, now + 12 * SEC), Ok(()));
    assert_eq!(r.add_this_instant(0, 10, now + 99 * SEC), Err(OverLimit));
}

#[test]
fn test_retain() {
    let now = 0u64;
    let a = 1u128;
    let b = 2u128;

    let mut r = limiter(9, SEC, 3);

    assert_eq!(r.add_this_instant(a, 1, now + 0 * SEC), Ok(()));
    assert_eq!(r.len(), 1);

    assert_eq!(r.add_this_instant(b, 1, now + 2 * SEC), Ok(()));
    assert_eq!(r.len(), 2);

    assert_eq!(r.add_this_instant(b, 1, now + 3 * SEC), Ok(()));
    assert_eq!(r.len(), 1);
}

#[test]
fn default_options() {
    let o = Options::default();
    assert_eq!(o.capacity, 1);
    assert_eq!(o.interval, SEC);
    assert_eq!(o.length, 5);
}

#[test]
fn three_of_three_then_refused() {
    let mut r = limiter(3, SEC, 3);
    assert_eq!(r.add_this_instant(7, 1, 0), Ok(()));
    assert_eq!(r.add_this_instant(7, 1, 300_000_000), Ok(()));
    assert_eq!(r.add_this_instant(7, 1, 600_000_000), Ok(()));
    assert_eq!(r.add_this_instant(7, 1, 900_000_000), Err(OverLimit));
    assert_eq!(r.entry_sum_at(&7, 900_000_000), Some(3));
}

#[test]
fn accepted_again_after_the_window() {
    let mut r = limiter(4, SEC, 3);
    assert_eq!(r.add_this_instant(5, 4, 10 * SEC), Ok(()));
    assert_eq!(r.add_this_instant(5, 4, 10 * SEC + 4 * SEC), Ok(()));
    let mut r = limiter(4, SEC, 3);
    assert_eq!(r.add_this_instant(5, 9, 10 * SEC), Err(OverLimit));
    assert_eq!(r.add_this_instant(5, 4, 14 * SEC), Ok(()));
}

#[test]
fn a_window_longer_than_the_capacity_still_remembers() {
    let mut r = limiter(1, SEC, 5);
    assert_eq!(r.add_this_instant(5, 1, 0), Ok(()));
    assert_eq!(r.add_this_instant(5, 1, 1 * SEC), Err(OverLimit));
    assert_eq!(r.add_this_instant(5, 1, 5 * SEC), Ok(()));
}

#[test]
fn no_buckets_accept_nothing() {
    let mut r = limiter(9, SEC, 0);
    assert_eq!(r.add_this_instant(1, 0, 0), Err(OverLimit));
    assert_eq!(r.len(), 1);
}

#[test]
fn a_refused_charge_still_leaves_an_entry() {
    let mut r = limiter(2, SEC, 3);
    assert_eq!(r.add_this_instant(1, 3, 0), Err(OverLimit));
    assert_eq!(r.len(), 1);
    assert_eq!(r.entry_sum_at(&1, 0), Some(0));
    assert_eq!(r.entry_sum_at(&2, 0), None);
}

#[test]
fn reading_ages_the_window() {
    let mut r = limiter(9, SEC, 3);
    assert_eq!(r.add_this_instant(1, 2, 0), Ok(()));
    assert_eq!(r.add_this_instant(1, 3, 1 * SEC), Ok(()));
    assert_eq!(r.entry_sum_at(&1, 1 * SEC), Some(5));
    assert_eq!(r.entry_sum_at(&1, 2 * SEC), Some(5));
    assert_eq!(r.entry_sum_at(&1, 3 * SEC), Some(3));
    assert_eq!(r.entry_sum_at(&1, 4 * SEC), Some(0));
    assert_eq!(r.len(), 1);
}

#[test]
fn a_moment_before_the_window_changes_nothing() {
    let mut r = limiter(9, SEC, 3);
    assert_eq!(r.add_this_instant(1, 9, 5 * SEC), Ok(()));
    assert_eq!(r.add_this_instant(1, 1, 0), Err(OverLimit));
    assert_eq!(r.entry_sum_at(&1, 0), Some(9));
}

#[test]
fn an_interval_of_nothing_never_ages() {
    let mut r = limiter(9, 0, 3);
    assert_eq!(r.add_this_instant(1, 9, 0), Ok(()));
    assert_eq!(r.add_this_instant(1, 1, u64::MAX), Err(OverLimit));
}

#[test]
fn the_present_moment_is_charged() {
    let mut r = limiter(2, 3600 * SEC, 3);
    assert_eq!(r.add(1, 1), Ok(()));
    assert_eq!(r.add(1, 1), Ok(()));
    assert_eq!(r.add(1, 1), Err(OverLimit));
    assert_eq!(r.entry_sum(&1), Some(2));
    assert_eq!(r.entry_sum(&9), None);
}

#[test]
fn the_table_is_shown_key_by_key() {
    let mut r = limiter(9, SEC, 3);
    assert!(r.entries().is_empty());
    assert_eq!(r.add_this_instant(7, 2, 0), Ok(()));
    assert_eq!(r.add_this_instant(3, 1, 0), Ok(()));
    assert_eq!(r.add_this_instant(7, 4, SEC / 2), Ok(()));
    assert_eq!(r.add_this_instant(u128::MAX, 10, SEC / 2), Err(OverLimit));
    assert_eq!(r.entries(), vec![(3, 1), (7, 6), (u128::MAX, 0)]);
    assert_eq!(r.len(), 3);
    assert!(r.now() < 3600 * SEC);
}

#[test]
fn moments_are_held_at_the_largest() {
    assert_eq!(moment_of(0), 0);
    assert_eq!(moment_of(1_500_000_000), 1_500_000_000);
    assert_eq!(moment_of(u64::MAX as u128), u64::MAX);
    assert_eq!(moment_of(u64::MAX as u128 + 1), u64::MAX);
    assert_eq!(moment_of(u128::MAX), u64::MAX);
}

#[test]
fn a_charge_now_depends_on_the_moment_only_within_the_window() {
    let mut r = limiter(4, SEC, 3);
    assert_eq!(r.add(1, 5), Err(OverLimit));
    assert_eq!(r.entry_sum(&1), Some(0));
    assert_eq!(r.add(1, 4), Ok(()));
    assert_eq!(r.add(2, 4), Ok(()));
    assert_eq!(r.entry_sum(&3), None);
    assert_eq!(r.len(), 2);
    let mut none = limiter(4, SEC, 0);
    assert_eq!(none.add(1, 0), Err(OverLimit));
    assert_eq!(none.add(1, 1), Err(OverLimit));
    assert_eq!(none.entry_sum(&1), Some(0));
}

