use analog_clock::angle::{cosine_exec, hand_angles, sine_exec, WallTime};


fn time(h: u32, m: u32, s: u32, ms: u32) -> WallTime {
    WallTime::new(h, m, s, ms).unwrap()
}

#[test]
fn three_oclock_angles() {
    let a = hand_angles(&time(3, 0, 0, 0), 1000);
    assert_eq!(a.hour, 900_000);
    assert_eq!(a.minute, 0);
    assert_eq!(a.second, 0);
}

#[test]
fn half_past_midnight_angles() {
    let a = hand_angles(&time(0, 30, 0, 0), 1000);
    assert_eq!(a.minute, 1_800_000);
    assert_eq!(a.hour, 150_000);
}

#[test]
fn afternoon_hours_wrap_at_twelve() {
    assert_eq!(hand_angles(&time(15, 0, 0, 0), 1000).hour, 900_000);
    assert_eq!(hand_angles(&time(12, 0, 0, 0), 1000).hour, 0);
}

#[test]
fn milliseconds_count_only_below_one_second_ticks() {
    let t = time(0, 0, 1, 500);
    assert_eq!(hand_angles(&t, 100).second, 90_000);
    assert_eq!(hand_angles(&t, 100).minute, 1_500);
    assert_eq!(hand_angles(&t, 1000).second, 60_000);
    assert_eq!(hand_angles(&t, 1000).minute, 1_000);
}

#[test]
fn wall_time_rejects_out_of_range_parts() {
    assert!(WallTime::new(24, 0, 0, 0).is_none());
    assert!(WallTime::new(0, 60, 0, 0).is_none());
    assert!(WallTime::new(0, 0, 60, 0).is_none());
    assert!(WallTime::new(0, 0, 0, 1000).is_none());
    assert!(WallTime::new(23, 59, 59, 999).is_some());
}

#[test]
fn wall_time_now_is_in_range() {
    let t = WallTime::now();
    assert!(t.hour < 24 && t.minute < 60 && t.second < 60 && t.millisecond < 1000);
}

#[test]
fn sine_and_cosine_at_quarter_turns() {
    assert_eq!(sine_exec(0), 0);
    assert_eq!(sine_exec(900_000), 1_000_000);
    assert_eq!(sine_exec(1_800_000), 0);
    assert_eq!(sine_exec(2_700_000), -1_000_000);
    assert_eq!(cosine_exec(0), 1_000_000);
    assert_eq!(cosine_exec(1_800_000), -1_000_000);
    assert_eq!(sine_exec(300_000), 500_000);
}

#[test]
fn sine_interpolates_between_degrees() {
    // halfway between 0 and 1 degree: (0 + 17452) / 2
    assert_eq!(sine_exec(5_000), 8_726);
    assert_eq!(sine_exec(3_600_000 - 5_000), -8_726);
}

#[test]
fn reading_takes_the_millisecond_from_the_unix_time() {
    let t = WallTime::from_reading(7, 8, 9, 1_700_000_123_456);
    assert_eq!(t, WallTime::new(7, 8, 9, 456).unwrap());
    assert_eq!(WallTime::from_reading(0, 0, 0, 0).millisecond, 0);
    assert_eq!(WallTime::from_reading(0, 0, 0, -1).millisecond, 999);
    assert_eq!(WallTime::from_reading(0, 0, 0, -1000).millisecond, 0);
    assert_eq!(WallTime::from_reading(0, 0, 0, -1001).millisecond, 999);
    assert_eq!(WallTime::from_reading(23, 59, 59, i64::MIN).millisecond, 192);
}
