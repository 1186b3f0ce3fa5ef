use shortlink::cache::TtlCache;

fn cache(ttl: i64) -> TtlCache {
    TtlCache::new(ttl, 1).0
}

fn s(text: &str) -> String {
    text.to_string()
}

#[test]
fn new_cache_is_empty() {
    let c = cache(60);
    assert_eq!(c.len(), 0);
    assert!(c.is_empty());
    assert_eq!(c.ttl(), 60);
}

#[test]
fn insert_then_get_returns_the_value() {
    let mut c = cache(10);
    c.insert(s("k"), s("http://example.org"), 5);
    assert_eq!(c.len(), 1);
    assert!(!c.is_empty());
    assert_eq!(c.get("k", 5), Some(s("http://example.org")));
}

#[test]
fn get_of_an_absent_key_returns_nothing() {
    let mut c = cache(10);
    c.insert(s("k"), s("v"), 0);
    assert_eq!(c.get("other", 0), None);
    assert_eq!(c.len(), 1);
}

#[test]
fn insert_overwrites_value_and_deadline() {
    let mut c = cache(10);
    c.insert(s("k"), s("first"), 0);
    c.insert(s("k"), s("second"), 8);
    assert_eq!(c.len(), 1);
    // The deadline is 18 now, not 10.
    assert_eq!(c.get("k", 18), Some(s("second")));
}

#[test]
fn entry_is_served_up_to_its_deadline_and_not_after() {
    let mut c = cache(10);
    c.insert(s("a"), s("v"), 100);
    c.insert(s("b"), s("w"), 100);
    assert_eq!(c.get("a", 110), Some(s("v")));
    assert_eq!(c.get("b", 111), None);
}

#[test]
fn expired_read_removes_the_entry() {
    let mut c = cache(10);
    c.insert(s("k"), s("v"), 0);
    assert_eq!(c.len(), 1);
    assert_eq!(c.get("k", 11), None);
    assert_eq!(c.len(), 0);
    // Gone for good, also at a tick at which it would have been live.
    assert_eq!(c.get("k", 5), None);
}

#[test]
fn successful_read_gives_a_full_time_to_live_again() {
    let mut c = cache(10);
    c.insert(s("k"), s("v"), 0);
    assert_eq!(c.get("k", 9), Some(s("v")));
    // Without the refresh the deadline would have been 10.
    assert_eq!(c.get("k", 19), Some(s("v")));
    assert_eq!(c.get("k", 29), Some(s("v")));
    assert_eq!(c.get("k", 40), None);
}

#[test]
fn reading_every_half_ttl_keeps_the_key_alive() {
    let mut c = cache(10);
    c.insert(s("hot"), s("v"), 0);
    c.insert(s("cold"), s("w"), 0);
    let mut now = 0;
    for _ in 0..1000 {
        now += 5;
        assert_eq!(c.get("hot", now), Some(s("v")));
    }
    assert_eq!(c.get("cold", now), None);
    assert_eq!(c.len(), 1);
}

#[test]
fn scenario_ttl_two_sweep_one() {
    // Half a time unit is one tick: TTL = 2 units = 4 ticks.
    let (mut c, mut janitor) = TtlCache::new(4, 2);
    c.insert(s("a"), s("http://x"), 0);
    // t = 1
    assert_eq!(c.get("a", 2), Some(s("http://x")));
    // The deadline is t = 3 now: a read at t = 3 would still be served.
    // t = 3.5, no reads since t = 1
    assert_eq!(c.get("a", 7), None);
    // sweep at t = 4
    assert_eq!(janitor.tick(&mut c, 8), shortlink::janitor::Tick::Swept(0));
    assert_eq!(c.len(), 0);
}

#[test]
fn scenario_deadline_after_read_is_three() {
    let mut c = cache(4);
    c.insert(s("a"), s("http://x"), 0);
    assert_eq!(c.get("a", 2), Some(s("http://x")));
    let mut d = cache(4);
    d.insert(s("a"), s("http://x"), 0);
    assert_eq!(d.get("a", 2), Some(s("http://x")));
    // Served at t = 3 (tick 6), not at the tick after.
    assert_eq!(c.get("a", 6), Some(s("http://x")));
    assert_eq!(d.get("a", 7), None);
}

#[test]
fn zero_ttl_expires_at_the_next_tick() {
    let mut c = cache(0);
    c.insert(s("k"), s("v"), 7);
    assert_eq!(c.get("k", 8), None);
    assert_eq!(c.len(), 0);
    c.insert(s("k"), s("v"), 7);
    // At the very tick of the insert the deadline has not passed yet.
    assert_eq!(c.get("k", 7), Some(s("v")));
}

#[test]
fn negative_ttl_expires_at_once() {
    let mut c = cache(-1);
    c.insert(s("k"), s("v"), 7);
    assert_eq!(c.len(), 1);
    assert_eq!(c.get("k", 7), None);
    assert_eq!(c.len(), 0);
    c.insert(s("k"), s("v"), 7);
    assert_eq!(c.sweep(7), 0);
}

#[test]
fn sweep_removes_exactly_the_expired_entries() {
    let mut c = cache(10);
    c.insert(s("a"), s("1"), 0);
    c.insert(s("b"), s("2"), 5);
    c.insert(s("c"), s("3"), 10);
    assert_eq!(c.len(), 3);
    // Deadlines are 10, 15 and 20.
    assert_eq!(c.sweep(9), 3);
    assert_eq!(c.sweep(15), 1);
    assert_eq!(c.len(), 1);
    assert_eq!(c.get("a", 15), None);
    assert_eq!(c.get("b", 15), None);
    assert_eq!(c.get("c", 15), Some(s("3")));
}

#[test]
fn sweep_at_the_deadline_removes_what_a_read_would_serve() {
    let mut c = cache(10);
    c.insert(s("k"), s("v"), 0);
    let mut d = cache(10);
    d.insert(s("k"), s("v"), 0);
    assert_eq!(c.get("k", 10), Some(s("v")));
    assert_eq!(d.sweep(10), 0);
    assert_eq!(d.get("k", 10), None);
}

#[test]
fn sweep_leaves_live_entries_unchanged() {
    let mut c = cache(10);
    c.insert(s("k"), s("v"), 0);
    assert_eq!(c.sweep(5), 1);
    // The sweep is no read: the deadline is still 10.
    assert_eq!(c.get("k", 11), None);
}

#[test]
fn sweep_of_an_empty_cache_is_harmless() {
    let mut c = cache(10);
    assert_eq!(c.sweep(0), 0);
    assert_eq!(c.sweep(u64::MAX), 0);
}

#[test]
fn table_shrinks_when_unread_keys_are_swept() {
    let mut c = cache(10);
    for i in 0..100 {
        c.insert(format!("key{i}"), format!("value{i}"), i);
    }
    assert_eq!(c.len(), 100);
    // Deadlines are 10..110; 50 of them lie after tick 59.
    assert_eq!(c.sweep(59), 50);
    assert_eq!(c.len(), 50);
    assert_eq!(c.sweep(200), 0);
    assert_eq!(c.len(), 0);
}

#[test]
fn key_that_expired_by_a_read_and_came_back_is_swept_once() {
    let mut c = cache(10);
    for round in 0..50u64 {
        let now = round * 100;
        c.insert(s("k"), format!("v{round}"), now);
        assert_eq!(c.get("k", now + 11), None);
    }
    c.insert(s("k"), s("last"), 10_000);
    c.insert(s("other"), s("x"), 10_000);
    assert_eq!(c.len(), 2);
    assert_eq!(c.sweep(10_005), 2);
    assert_eq!(c.get("k", 10_005), Some(s("last")));
    assert_eq!(c.sweep(20_000), 0);
    assert_eq!(c.len(), 0);
}

#[test]
fn sweeps_and_writes_can_alternate() {
    let mut c = cache(10);
    c.insert(s("a"), s("1"), 0);
    assert_eq!(c.sweep(20), 0);
    c.insert(s("a"), s("2"), 20);
    c.insert(s("b"), s("3"), 25);
    assert_eq!(c.sweep(30), 1);
    assert_eq!(c.get("b", 30), Some(s("3")));
    assert_eq!(c.get("a", 30), None);
}

#[test]
fn ticks_near_the_end_of_the_clock_do_not_overflow() {
    let mut c = cache(i64::MAX);
    c.insert(s("k"), s("v"), u64::MAX);
    assert_eq!(c.get("k", u64::MAX), Some(s("v")));
    assert_eq!(c.sweep(u64::MAX), 1);
    // The deadline is u64::MAX - 2^63 = 2^63 - 1.
    let mut d = cache(i64::MIN);
    d.insert(s("k"), s("v"), u64::MAX);
    assert_eq!(d.get("k", (1u64 << 63) - 1), Some(s("v")));
    d.insert(s("k"), s("v"), u64::MAX);
    assert_eq!(d.get("k", 1u64 << 63), None);
    // The deadline is below zero: no tick is early enough.
    let mut e = cache(i64::MIN);
    e.insert(s("k"), s("v"), 0);
    assert_eq!(e.get("k", 0), None);
}

#[test]
fn keys_and_values_may_be_any_strings() {
    let mut c = cache(10);
    c.insert(s(""), s(""), 0);
    c.insert(s("ключ"), s("значение ✓"), 0);
    assert_eq!(c.get("", 1), Some(s("")));
    assert_eq!(c.get("ключ", 1), Some(s("значение ✓")));
    assert_eq!(c.len(), 2);
}

#[test]
fn operations_on_other_keys_do_not_disturb_a_key() {
    let mut alone = cache(10);
    alone.insert(s("k"), s("v"), 0);
    let alone_at_9 = alone.get("k", 9);
    let alone_at_19 = alone.get("k", 19);

    let mut busy = cache(10);
    busy.insert(s("x"), s("1"), 0);
    busy.insert(s("k"), s("v"), 0);
    busy.insert(s("y"), s("2"), 3);
    assert_eq!(busy.get("x", 4), Some(s("1")));
    let busy_at_9 = busy.get("k", 9);
    assert_eq!(busy.get("y", 30), None);
    busy.insert(s("x"), s("3"), 12);
    let busy_at_19 = busy.get("k", 19);

    assert_eq!(alone_at_9, busy_at_9);
    assert_eq!(alone_at_19, busy_at_19);
    assert_eq!(busy_at_19, Some(s("v")));
}
