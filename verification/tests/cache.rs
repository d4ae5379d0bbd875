use nix_bucks::{times_until, Date, InvalidRule, OccurrenceCache, Recurrence};

fn ymd(year: i32, month: u32, day: u32) -> Date {
    Date::from_ymd(year, month, day).unwrap()
}

#[test]
fn a_new_cache_is_empty() {
    assert_eq!(OccurrenceCache::new().len(), 0);
}

#[test]
fn the_cache_counts_as_times_until_does() {
    let mut cache = OccurrenceCache::new();
    let rules = [
        Recurrence::Day(1),
        Recurrence::Day(40),
        Recurrence::Month(1, 1),
        Recurrence::Month(31, 2),
        Recurrence::Year(29, 2, 1),
        Recurrence::Year(1, 1, 255),
    ];
    let days = [ymd(2021, 1, 1), ymd(2021, 1, 31), ymd(2022, 1, 1), ymd(2024, 2, 29)];
    for round in 0..2 {
        for rule in rules {
            for from in days {
                for to in days {
                    assert_eq!(cache.times_until(rule, from, to), times_until(rule, from, to));
                }
            }
        }
        assert_eq!(cache.len(), 6 * 4 * 4, "round {}", round);
    }
}

#[test]
fn the_cache_keeps_each_window_once() {
    let mut cache = OccurrenceCache::new();
    let from = ymd(2021, 1, 1);
    let to = ymd(2022, 1, 1);
    assert_eq!(cache.times_until(Recurrence::Month(1, 1), from, to), Ok(14));
    assert_eq!(cache.len(), 1);
    assert_eq!(cache.times_until(Recurrence::Month(1, 1), from, to), Ok(14));
    assert_eq!(cache.len(), 1);
    assert_eq!(cache.times_until(Recurrence::Month(1, 1), to, from), Ok(1));
    assert_eq!(cache.len(), 2);
    assert_eq!(cache.times_until(Recurrence::Month(1, 2), from, to), Ok(8));
    assert_eq!(cache.len(), 3);
    assert_eq!(cache.times_until(Recurrence::Year(1, 1, 2), from, to), Ok(2));
    assert_eq!(cache.len(), 4);
    assert_eq!(cache.times_until(Recurrence::Day(1), from, to), Ok(365));
    assert_eq!(cache.len(), 5);
}

#[test]
fn the_cache_keeps_nothing_of_an_unusable_rule() {
    let mut cache = OccurrenceCache::new();
    let from = ymd(2021, 1, 1);
    let to = ymd(2022, 1, 1);
    assert_eq!(cache.times_until(Recurrence::Day(0), from, to), Err(InvalidRule::ZeroInterval));
    assert_eq!(
        cache.times_until(Recurrence::Year(1, 13, 1), from, to),
        Err(InvalidRule::MonthOutOfRange)
    );
    assert_eq!(cache.len(), 0);
}

#[test]
fn the_cache_tells_windows_at_the_ends_of_the_range_apart() {
    let mut cache = OccurrenceCache::new();
    let first = ymd(-262143, 1, 1);
    let last = ymd(262142, 12, 31);
    assert_eq!(cache.times_until(Recurrence::Day(255), first, last), Ok(191_491_528 / 255));
    assert_eq!(cache.times_until(Recurrence::Day(255), last, first), Ok(0));
    assert_eq!(cache.times_until(Recurrence::Year(31, 12, 255), last, last), Ok(2));
    assert_eq!(cache.times_until(Recurrence::Year(31, 12, 255), first, first), Ok(1));
    assert_eq!(cache.len(), 4);
}
