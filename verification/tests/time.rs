use akjo_os::clock::SimpleClock;
use akjo_os::cmos::DateTime as Rtc;
use akjo_os::event::{Event, EventHandler};
use akjo_os::time::{Date, DateTime, Duration, Month, Time, TimeApi, TimeOffset, Weekday};

#[test]
fn month_from_number() {
    assert_eq!(Month::from_u8(0), None);
    assert_eq!(Month::from_u8(1), Some(Month::January));
    assert_eq!(Month::from_u8(2), Some(Month::February));
    assert_eq!(Month::from_u8(7), Some(Month::July));
    assert_eq!(Month::from_u8(12), Some(Month::December));
    assert_eq!(Month::from_u8(13), None);
    for n in 1..=12u8 {
        assert_eq!(Month::from_u8(n).unwrap().as_u8(), n);
    }
}

#[test]
fn weekday_from_number() {
    assert_eq!(Weekday::from_u8(0), Some(Weekday::Saturday));
    assert_eq!(Weekday::from_u8(1), Some(Weekday::Sunday));
    assert_eq!(Weekday::from_u8(2), Some(Weekday::Monday));
    assert_eq!(Weekday::from_u8(6), Some(Weekday::Friday));
    assert_eq!(Weekday::from_u8(7), None);
    for n in 0..=6u8 {
        assert_eq!(Weekday::from_u8(n).unwrap().as_u8(), n);
    }
}

#[test]
fn duration_constructors() {
    let d = Duration::new(5, 7);
    assert_eq!((d.nanos(), d.seconds()), (5, 7));
    assert_eq!(Duration::from_nanos(42), Duration::new(42, 0));
    assert_eq!(Duration::from_micros(3), Duration::new(3_000, 0));
    assert_eq!(Duration::from_millis(3), Duration::new(3_000_000, 0));
    assert_eq!(Duration::from_seconds(9), Duration::new(0, 9));
    assert_eq!(Duration::from_minutes(2), Duration::new(0, 120));
    assert_eq!(Duration::from_hours(2), Duration::new(0, 7200));
    assert_eq!(Duration::from_hms(1, 2, 3), Duration::new(0, 3723));
    assert_eq!(Duration::from_days(2), Duration::new(0, 172_800));
    assert_eq!(Duration::from_micros(u64::MAX / 1000).nanos(), u64::MAX / 1000 * 1000);
}

#[test]
fn duration_parts_are_counted_apart() {
    let d = Duration::new(2_500_000_999, 200_000);
    assert_eq!(d.nanos(), 2_500_000_999);
    assert_eq!(d.micros(), 2_500_000);
    assert_eq!(d.millis(), 2_500);
    assert_eq!(d.seconds(), 200_000);
    assert_eq!(d.minutes(), 3_333);
    assert_eq!(d.hours(), 55);
    assert_eq!(d.days(), 2);
}

#[test]
fn duration_arithmetic_is_checked() {
    let a = Duration::new(10, 20);
    let b = Duration::new(3, 4);
    assert_eq!(a.add(b), Some(Duration::new(13, 24)));
    assert_eq!(a.sub(b), Some(Duration::new(7, 16)));
    assert_eq!(b.sub(a), None);
    assert_eq!(Duration::new(1, 9).sub(Duration::new(2, 1)), None);
    assert_eq!(Duration::new(9, 1).sub(Duration::new(1, 2)), None);
    assert_eq!(a.sub(a), Some(Duration::new(0, 0)));
    assert_eq!(a.mul(3), Some(Duration::new(30, 60)));
    assert_eq!(a.mul(0), Some(Duration::new(0, 0)));
    assert_eq!(a.div(3), Some(Duration::new(3, 6)));
    assert_eq!(a.div(0), None);
    assert_eq!(Duration::new(u64::MAX, 0).add(Duration::new(1, 0)), None);
    assert_eq!(Duration::new(0, u64::MAX).add(Duration::new(0, 1)), None);
    assert_eq!(
        Duration::new(u64::MAX - 1, 5).add(Duration::new(1, 5)),
        Some(Duration::new(u64::MAX, 10))
    );
    assert_eq!(Duration::new(u64::MAX, 1).mul(2), None);
    assert_eq!(Duration::new(1, u64::MAX).mul(2), None);
    assert_eq!(Duration::new(u64::MAX / 2, 1).mul(2), Some(Duration::new(u64::MAX - 1, 2)));
}

#[test]
fn time_offsets_by_number() {
    assert_eq!(TimeOffset::from_u8(0), Some(TimeOffset::Y));
    assert_eq!(TimeOffset::from_u8(14), Some(TimeOffset::Z));
    assert_eq!(TimeOffset::from_u8(37), Some(TimeOffset::Mt2));
    assert_eq!(TimeOffset::from_u8(38), None);
    assert_eq!(TimeOffset::from_u8(255), None);
    for n in 0..=37u8 {
        assert_eq!(TimeOffset::from_u8(n).unwrap().as_u8(), n);
    }
    assert_eq!(TimeOffset::Vt.as_u8(), 4);
    assert_eq!(TimeOffset::Mm.as_u8(), 35);
}

#[test]
fn time_offsets_have_direction_and_distance() {
    assert_eq!(TimeOffset::Y.get_offset(), (false, Duration::from_hms(12, 0, 0)));
    assert_eq!(TimeOffset::Vt.get_offset(), (false, Duration::new(0, 34_200)));
    assert_eq!(TimeOffset::Pt.get_offset(), (false, Duration::new(0, 12_600)));
    assert_eq!(TimeOffset::N.get_offset(), (false, Duration::new(0, 3_600)));
    assert_eq!(TimeOffset::Z.get_offset(), (true, Duration::new(0, 0)));
    assert_eq!(TimeOffset::A.get_offset(), (true, Duration::new(0, 3_600)));
    assert_eq!(TimeOffset::Ee.get_offset(), (true, Duration::new(0, 20_700)));
    assert_eq!(TimeOffset::Hh.get_offset(), (true, Duration::new(0, 31_500)));
    assert_eq!(TimeOffset::Mm.get_offset(), (true, Duration::new(0, 45_900)));
    assert_eq!(TimeOffset::Mt2.get_offset(), (true, Duration::new(0, 50_400)));
    for n in 0..=37u8 {
        let (ahead, distance) = TimeOffset::from_u8(n).unwrap().get_offset();
        assert_eq!(ahead, n >= 14);
        assert_eq!(distance.nanos(), 0);
        assert_eq!(distance.seconds() % 900, 0);
        assert!(distance.seconds() <= 14 * 3600);
    }
}

#[test]
fn time_fields() {
    let t = Time::new(123_456_789, 7, 8, 9);
    assert_eq!(t.nano(), 123_456_789);
    assert_eq!(t.micro(), 123_456);
    assert_eq!(t.milli(), 123);
    assert_eq!(t.seconds(), 7);
    assert_eq!(t.minutes(), 8);
    assert_eq!(t.hours(), 9);
    assert_eq!(t.as_hms(), (9, 8, 7));
    assert_eq!(t.as_hms_milli(), (9, 8, 7, 123));
    assert_eq!(t.as_hms_micro(), (9, 8, 7, 123_456));
    assert_eq!(t.as_hms_nano(), (9, 8, 7, 123_456_789));
    let rtc = Rtc { seconds: 1, minutes: 2, hours: 3, day: 4, month: 5, year: 2006 };
    assert_eq!(Time::from_rtc(rtc), Time::new(0, 1, 2, 3));
}

#[test]
fn time_add_carries_round_the_clock() {
    assert_eq!(Time::new(0, 30, 59, 23).add(Duration::from_seconds(45)), Time::new(0, 15, 0, 0));
    assert_eq!(
        Time::new(999_999_999, 59, 59, 23).add(Duration::from_nanos(1)),
        Time::new(0, 0, 0, 0)
    );
    assert_eq!(Time::new(5, 6, 7, 8).add(Duration::new(0, 0)), Time::new(5, 6, 7, 8));
    assert_eq!(Time::new(0, 0, 0, 0).add(Duration::from_hms(49, 1, 1)), Time::new(0, 1, 1, 1));
    assert_eq!(Time::new(0, 0, 0, 0).add(Duration::from_nanos(3_500_000_000)), Time::new(500_000_000, 3, 0, 0));
    assert_eq!(Time::new(0, 90, 0, 0).add(Duration::new(0, 0)), Time::new(0, 30, 1, 0));
    assert_eq!(Time::new(0, 0, 200, 30).add(Duration::new(0, 0)), Time::new(0, 0, 20, 9));
}

#[test]
fn time_sub_takes_from_the_seconds_only() {
    assert_eq!(Time::new(0, 30, 10, 5).sub(Duration::from_seconds(10)), Time::new(0, 20, 10, 5));
    assert_eq!(Time::new(0, 30, 10, 5).sub(Duration::from_seconds(45)), Time::new(0, 0, 10, 5));
    assert_eq!(Time::new(0, 30, 10, 5).sub(Duration::from_seconds(30)), Time::new(0, 0, 10, 5));
    assert_eq!(Time::new(500, 2, 0, 0).sub(Duration::new(600, 1)), Time::new(999_999_900, 0, 0, 0));
    assert_eq!(Time::new(7, 8, 9, 10).sub(Duration::new(0, 0)), Time::new(7, 8, 9, 10));
    assert_eq!(Time::new(0, 120, 59, 23).sub(Duration::new(0, 0)), Time::new(0, 0, 1, 0));
}

#[test]
fn date_fields_and_rtc() {
    let d = Date::new(29, Month::February, 2024);
    assert_eq!(d.day(), 29);
    assert_eq!(d.month(), Month::February);
    assert_eq!(d.year(), 2024);
    assert_eq!(d.as_calendar_date(), (2024, Month::February, 29));
    let rtc = Rtc { seconds: 1, minutes: 2, hours: 3, day: 4, month: 5, year: 2006 };
    assert_eq!(Date::from_rtc(rtc), Date::new(4, Month::May, 2006));
}

#[test]
fn date_leap_years_and_month_lengths() {
    assert!(Date::new(1, Month::January, 2000).is_leap_year());
    assert!(!Date::new(1, Month::January, 1900).is_leap_year());
    assert!(Date::new(1, Month::January, 2024).is_leap_year());
    assert!(!Date::new(1, Month::January, 2023).is_leap_year());
    assert!(Date::new(1, Month::January, -4).is_leap_year());
    assert!(!Date::new(1, Month::January, -1).is_leap_year());
    assert!(Date::new(1, Month::January, 0).is_leap_year());
    let lengths = [31u8, 28, 31, 30, 31, 30, 31, 31, 30, 31, 30, 31];
    for (i, len) in lengths.iter().enumerate() {
        let month = Month::from_u8(i as u8 + 1).unwrap();
        assert_eq!(Date::new(1, month, 2023).days_in_month(), *len);
    }
    assert_eq!(Date::new(1, Month::February, 2024).days_in_month(), 29);
    assert_eq!(Date::new(1, Month::February, 2100).days_in_month(), 28);
}

#[test]
fn date_ordinal_and_week() {
    assert_eq!(Date::new(1, Month::January, 2023).ordinal(), 1);
    assert_eq!(Date::new(1, Month::March, 2023).ordinal(), 60);
    assert_eq!(Date::new(1, Month::March, 2024).ordinal(), 61);
    assert_eq!(Date::new(31, Month::December, 2023).ordinal(), 365);
    assert_eq!(Date::new(31, Month::December, 2024).ordinal(), 366);
    assert_eq!(Date::new(255, Month::December, 2024).ordinal(), 590);
    assert_eq!(Date::new(31, Month::December, 2024).as_ordinal_date(), (2024, 366));
    assert_eq!(Date::new(1, Month::January, 2023).week(), 1);
    assert_eq!(Date::new(7, Month::January, 2023).week(), 1);
    assert_eq!(Date::new(8, Month::January, 2023).week(), 2);
    assert_eq!(Date::new(14, Month::January, 2023).week(), 2);
    assert_eq!(Date::new(31, Month::December, 2023).week(), 53);
    assert_eq!(Date::new(0, Month::January, 2023).week(), 1);
}

#[test]
fn date_weekday() {
    assert_eq!(Date::new(1, Month::January, 2024).weekday(), Weekday::Monday);
    assert_eq!(Date::new(1, Month::January, 1970).weekday(), Weekday::Thursday);
    assert_eq!(Date::new(29, Month::February, 2024).weekday(), Weekday::Thursday);
    assert_eq!(Date::new(1, Month::January, 2000).weekday(), Weekday::Saturday);
    assert_eq!(Date::new(31, Month::December, 2023).weekday(), Weekday::Sunday);
    assert_eq!(Date::new(4, Month::July, 1776).weekday(), Weekday::Thursday);
    assert_eq!(
        Date::new(8, Month::January, 2024).as_week_date(),
        (2024, 2, Weekday::Monday)
    );
}

#[test]
fn date_add_walks_over_months_and_years() {
    let day = Duration::from_days(1);
    assert_eq!(Date::new(28, Month::February, 2024).add(Duration::from_days(2)), Date::new(1, Month::March, 2024));
    assert_eq!(Date::new(28, Month::February, 2023).add(day), Date::new(1, Month::March, 2023));
    assert_eq!(Date::new(28, Month::February, 2024).add(day), Date::new(29, Month::February, 2024));
    assert_eq!(Date::new(31, Month::December, 2023).add(day), Date::new(1, Month::January, 2024));
    assert_eq!(Date::new(1, Month::January, 2024).add(Duration::from_days(366)), Date::new(1, Month::January, 2025));
    assert_eq!(Date::new(1, Month::January, 2023).add(Duration::from_days(365)), Date::new(1, Month::January, 2024));
    assert_eq!(Date::new(15, Month::June, 2024).add(Duration::from_seconds(86_399)), Date::new(15, Month::June, 2024));
    assert_eq!(Date::new(15, Month::June, 2024).add(Duration::new(u64::MAX, 86_400)), Date::new(16, Month::June, 2024));
    assert_eq!(Date::new(1, Month::January, 1970).add(Duration::from_days(19_723)), Date::new(1, Month::January, 2024));
    assert_eq!(Date::new(0, Month::March, 2024).add(day), Date::new(1, Month::March, 2024));
    assert_eq!(Date::new(31, Month::February, 2024).add(Duration::from_days(0)), Date::new(31, Month::February, 2024));
}

#[test]
fn date_sub_walks_back_over_months_and_years() {
    let day = Duration::from_days(1);
    assert_eq!(Date::new(1, Month::March, 2024).sub(day), Date::new(29, Month::February, 2024));
    assert_eq!(Date::new(1, Month::March, 2023).sub(day), Date::new(28, Month::February, 2023));
    assert_eq!(Date::new(1, Month::January, 2024).sub(day), Date::new(31, Month::December, 2023));
    assert_eq!(Date::new(15, Month::June, 2024).sub(Duration::from_days(15)), Date::new(31, Month::May, 2024));
    assert_eq!(Date::new(15, Month::June, 2024).sub(Duration::from_days(14)), Date::new(1, Month::June, 2024));
    assert_eq!(Date::new(1, Month::January, 2024).sub(Duration::from_days(19_723)), Date::new(1, Month::January, 1970));
    assert_eq!(Date::new(1, Month::January, 2025).sub(Duration::from_days(366)), Date::new(1, Month::January, 2024));
    assert_eq!(Date::new(15, Month::June, 2024).sub(Duration::from_seconds(86_399)), Date::new(15, Month::June, 2024));
    assert_eq!(Date::new(0, Month::March, 2024).sub(day), Date::new(28, Month::February, 2024));
    assert_eq!(Date::new(1, Month::January, 1).sub(day), Date::new(31, Month::December, 0));
}

#[test]
fn date_add_then_sub_returns() {
    let start = Date::new(17, Month::August, 1999);
    for days in [1u64, 14, 15, 31, 59, 365, 366, 1461, 36_524, 146_097] {
        let there = start.add(Duration::from_days(days));
        assert_eq!(there.sub(Duration::from_days(days)), start);
    }
}

#[test]
fn date_time_delegates_to_its_parts() {
    let m = DateTime::new(123_456_789, 7, 8, 9, 29, Month::February, 2024);
    assert_eq!(m.time(), Time::new(123_456_789, 7, 8, 9));
    assert_eq!(m.date(), Date::new(29, Month::February, 2024));
    assert_eq!(m.nano(), 123_456_789);
    assert_eq!(m.micro(), 123_456);
    assert_eq!(m.milli(), 123);
    assert_eq!(m.seconds(), 7);
    assert_eq!(m.minutes(), 8);
    assert_eq!(m.hours(), 9);
    assert_eq!(m.day(), 29);
    assert_eq!(m.ordinal(), 60);
    assert_eq!(m.week(), 9);
    assert_eq!(m.weekday(), Weekday::Thursday);
    assert_eq!(m.month(), Month::February);
    assert_eq!(m.year(), 2024);
    assert!(m.is_leap_year());
    assert_eq!(m.days_in_month(), 29);
    assert_eq!(m.as_hms(), (9, 8, 7));
    assert_eq!(m.as_hms_milli(), (9, 8, 7, 123));
    assert_eq!(m.as_hms_micro(), (9, 8, 7, 123_456));
    assert_eq!(m.as_hms_nano(), (9, 8, 7, 123_456_789));
    assert_eq!(m.as_calendar_date(), (2024, Month::February, 29));
    assert_eq!(m.as_ordinal_date(), (2024, 60));
    assert_eq!(m.as_week_date(), (2024, 9, Weekday::Thursday));
    let rtc = Rtc { seconds: 1, minutes: 2, hours: 3, day: 4, month: 5, year: 2006 };
    assert_eq!(DateTime::from_rtc(rtc), DateTime::new(0, 1, 2, 3, 4, Month::May, 2006));
}

#[test]
fn date_time_add_moves_the_time_and_keeps_the_date() {
    let m = DateTime::new(0, 0, 0, 23, 31, Month::December, 2023);
    assert_eq!(
        m.add(Duration::from_hours(2)),
        DateTime::new(0, 0, 0, 1, 31, Month::December, 2023)
    );
    assert_eq!(
        m.add(Duration::from_days(3)),
        DateTime::new(0, 0, 0, 23, 31, Month::December, 2023)
    );
    let n = DateTime::new(0, 0, 30, 10, 15, Month::June, 2024);
    assert_eq!(n.add(Duration::from_minutes(45)), DateTime::new(0, 0, 15, 11, 15, Month::June, 2024));
}

#[test]
fn date_time_sub_steps_back_a_day_when_the_hour_grows() {
    let m = DateTime::new(0, 0, 0, 1, 1, Month::January, 2024);
    assert_eq!(m.sub(Duration::from_hours(2)), m);
    let n = DateTime::new(0, 30, 10, 5, 15, Month::June, 2024);
    assert_eq!(n.sub(Duration::from_seconds(10)), DateTime::new(0, 20, 10, 5, 15, Month::June, 2024));
    let odd = DateTime::new(0, 120, 59, 5, 1, Month::March, 2024);
    assert_eq!(
        odd.sub(Duration::from_seconds(0)),
        DateTime::new(0, 0, 1, 6, 29, Month::February, 2024)
    );
}

#[test]
fn date_time_with_offset() {
    let noon = DateTime::new(0, 30, 0, 12, 15, Month::June, 2024);
    assert_eq!(noon.with_offset(TimeOffset::Z), noon);
    assert_eq!(noon.with_offset(TimeOffset::A), DateTime::new(0, 30, 0, 13, 15, Month::June, 2024));
    assert_eq!(noon.with_offset(TimeOffset::Ee), DateTime::new(0, 30, 45, 17, 15, Month::June, 2024));
    assert_eq!(noon.with_offset(TimeOffset::Mt2), DateTime::new(0, 30, 0, 2, 15, Month::June, 2024));
    assert_eq!(noon.with_offset(TimeOffset::N), DateTime::new(0, 0, 0, 12, 15, Month::June, 2024));
    assert_eq!(noon.with_offset(TimeOffset::Y), DateTime::new(0, 0, 0, 12, 15, Month::June, 2024));
}

#[test]
fn simple_clock_follows_the_real_time_clock() {
    let mut clock = SimpleClock::new();
    assert_eq!(clock.now(), DateTime::new(0, 0, 0, 0, 1, Month::January, 1970));
    assert_eq!(
        clock.with_offset(TimeOffset::B),
        DateTime::new(0, 0, 0, 2, 1, Month::January, 1970)
    );
    clock.handle(Event::Timer);
    assert_eq!(clock.now(), DateTime::new(0, 0, 0, 0, 1, Month::January, 1970));
    let rtc = Rtc { seconds: 59, minutes: 58, hours: 22, day: 28, month: 10, year: 2026 };
    clock.handle(Event::Rtc(rtc));
    assert_eq!(clock.now(), DateTime::new(0, 59, 58, 22, 28, Month::October, 2026));
    assert_eq!(
        clock.with_offset(TimeOffset::C),
        DateTime::new(0, 59, 58, 1, 28, Month::October, 2026)
    );
    assert_eq!(
        clock.with_offset(TimeOffset::N),
        DateTime::new(0, 0, 58, 22, 28, Month::October, 2026)
    );
}

#[test]
fn times_and_dates_are_written_out() {
    assert_eq!(Time::new(5_000_000, 7, 8, 9).to_string(), "09:08:07.005");
    assert_eq!(Time::new(0, 0, 0, 0).to_string(), "00:00:00.000");
    assert_eq!(Time::new(999_999_999, 59, 59, 23).to_string(), "23:59:59.999");
    assert_eq!(Time::new(u32::MAX, 255, 100, 7).to_string(), "07:100:255.4294");
    assert_eq!(Date::new(5, Month::March, 2024).to_string(), "05/03/2024");
    assert_eq!(Date::new(31, Month::December, 24).to_string(), "31/12/0024");
    assert_eq!(Date::new(1, Month::January, 0).to_string(), "01/01/0000");
    assert_eq!(Date::new(1, Month::January, -5).to_string(), "01/01/-005");
    assert_eq!(Date::new(1, Month::January, -12345).to_string(), "01/01/-12345");
    assert_eq!(Date::new(200, Month::January, 12345).to_string(), "200/01/12345");
    assert_eq!(Date::new(1, Month::January, i32::MIN).to_string(), "01/01/-2147483648");
    assert_eq!(
        DateTime::new(5_000_000, 7, 8, 9, 5, Month::March, 2024).to_string(),
        "05/03/2024 09:08:07.005"
    );
    let rtc = Rtc { seconds: 7, minutes: 8, hours: 9, day: 5, month: 3, year: 2024 };
    assert_eq!(rtc.to_string(), "03/05/2024 09:08:07");
    let rtc = Rtc { seconds: 0, minutes: 0, hours: 0, day: 0, month: 0, year: 0 };
    assert_eq!(rtc.to_string(), "00/00/0000 00:00:00");
}

#[test]
fn numbers_are_padded_with_zeros() {
    let mut text = String::from("n=");
    akjo_os::decimal::push_padded(&mut text, 0, 0);
    assert_eq!(text, "n=0");
    akjo_os::decimal::push_padded(&mut text, 42, 5);
    assert_eq!(text, "n=000042");
    akjo_os::decimal::push_padded(&mut text, u64::MAX, 3);
    assert_eq!(text, "n=00004218446744073709551615");
    let mut text = String::new();
    akjo_os::decimal::push_padded_signed(&mut text, -7, 1);
    akjo_os::decimal::push_padded_signed(&mut text, -7, 0);
    akjo_os::decimal::push_padded_signed(&mut text, 7, 3);
    akjo_os::decimal::push_padded_signed(&mut text, -70, 5);
    assert_eq!(text, "-7-7007-0070");
}
