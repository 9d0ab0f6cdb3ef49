use lib::time::{nanos_to_ticks, ticks_to_nanos, timer_clock_speed, CalendarTime, DateTime, SystemTime};

const CLOCK: u32 = 62_156_250;

#[test]
fn clock_speed_is_a_quarter_of_the_bus() {
    assert_eq!(timer_clock_speed(248_625_000), CLOCK);
}

#[test]
fn ticks_of_one_second() {
    assert_eq!(nanos_to_ticks(1_000_000_000, CLOCK), CLOCK as u64);
    assert_eq!(ticks_to_nanos(CLOCK as u64, CLOCK), 1_000_000_000);
    assert_eq!(nanos_to_ticks(0, CLOCK), 0);
}

#[test]
fn ticks_round_down() {
    assert_eq!(nanos_to_ticks(1, CLOCK), 0);
    assert_eq!(nanos_to_ticks(1_000, CLOCK), 62);
    assert_eq!(ticks_to_nanos(1, CLOCK), 16);
}

#[test]
fn system_time_differences() {
    let a = SystemTime::from_ticks(100);
    let b = SystemTime::from_ticks(100 + CLOCK as i64);
    assert_eq!(b.duration_since(a, CLOCK), Ok(1_000_000_000));
    assert_eq!(a.duration_since(b, CLOCK), Err(()));
    assert_eq!(a.elapsed(b, CLOCK), Ok(1_000_000_000));
    assert_eq!(a.add_nanos(1_000_000_000, CLOCK), b);
    assert_eq!(b.sub_nanos(1_000_000_000, CLOCK).ticks(), 100);
}

fn date(year: i32, month: i32, day: i32, hour: i32, min: i32, sec: i32) -> DateTime {
    DateTime {
        sec,
        min,
        hour,
        day,
        month,
        year,
        weekday: 0,
        yearday: 0,
        millisec: 0,
        microsec: 0,
    }
}

#[test]
fn date_default() {
    let d = DateTime::default();
    assert_eq!((d.year, d.month, d.day, d.hour), (1, 0, 1, 0));
}

#[test]
fn date_from_calendar_time() {
    let c = CalendarTime {
        tm_sec: 1,
        tm_min: 2,
        tm_hour: 3,
        tm_mday: 4,
        tm_mon: 5,
        tm_year: 2024,
        tm_wday: 6,
        tm_yday: 7,
        tm_msec: 8,
        tm_usec: 9,
    };
    let d = DateTime::from(c);
    assert_eq!((d.sec, d.min, d.hour, d.day, d.month, d.year), (1, 2, 3, 4, 5, 2024));
    assert_eq!((d.weekday, d.yearday, d.millisec, d.microsec), (6, 7, 8, 9));
}

#[test]
fn dates_order_by_year_first() {
    let a = date(2023, 11, 31, 23, 59, 59);
    let b = date(2024, 0, 1, 0, 0, 0);
    assert!(a < b);
    assert!(b > a);
    assert_eq!(a.cmp(&b), std::cmp::Ordering::Less);
    assert_eq!(b.cmp(&a), std::cmp::Ordering::Greater);
}

#[test]
fn dates_order_ignores_weekday() {
    let mut a = date(2024, 1, 2, 3, 4, 5);
    let b = a;
    a.weekday = 3;
    assert_eq!(a.partial_cmp(&b), Some(std::cmp::Ordering::Equal));
    assert!(a != b);
    let mut c = b;
    c.microsec = 1;
    assert!(b < c);
}

#[test]
fn date_as_text() {
    assert_eq!(date(2024, 0, 5, 7, 8, 9).to_string(), "2024/01/05 07:08:09");
    assert_eq!(date(7, 11, 31, 23, 59, 0).to_string(), "0007/12/31 23:59:00");
    assert_eq!(date(-5, 0, 1, 0, 0, 0).to_string(), "-005/01/01 00:00:00");
    assert_eq!(date(12345, 0, 1, 100, 0, 0).to_string(), "12345/01/01 100:00:00");
}
