use midi_patcher::absolute_sleep::AbsoluteSleep;

const MS: u64 = 1_000_000;

#[test]
fn sleep() {
    let start = 5 * MS;
    let mut abs_sleep = AbsoluteSleep::new(start);
    let sleep_time = abs_sleep.sleep(100 * MS, start);
    let woke = start + sleep_time;
    assert_eq!(woke - start, 100 * MS);
}

#[test]
fn sleep_more() {
    let start = 5 * MS;
    let mut abs_sleep = AbsoluteSleep::new(start);
    let first = abs_sleep.sleep(100 * MS, start);
    let now = start + first;
    let second = abs_sleep.sleep(100 * MS, now);
    assert_eq!(now + second - start, 200 * MS);
}

#[test]
fn sleep_less_if_time_has_elapsed() {
    let start = 5 * MS;
    let mut abs_sleep = AbsoluteSleep::new(start);
    let now = start + 75 * MS;
    let sleep_time = abs_sleep.sleep(100 * MS, now);
    assert_eq!(sleep_time, 25 * MS);
}

#[test]
fn late_steps_do_not_add_up() {
    let mut abs_sleep = AbsoluteSleep::new(0);
    let first = abs_sleep.sleep(100 * MS, 3 * MS);
    assert_eq!(first, 97 * MS);
    let second = abs_sleep.sleep(100 * MS, 3 * MS + first + 2 * MS);
    assert_eq!(second, 98 * MS);
    assert_eq!(3 * MS + first + 2 * MS + second, 200 * MS);
}
