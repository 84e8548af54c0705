use flight_scribe::clock::{format_flight_time, parse_flight_time};

fn reference(n: i32) -> String {
    let hours = n / 3600;
    let mins = (n / 60) % 60;
    let secs = n % 60;
    format!("{hours:02}:{mins:02}:{secs:02}")
}

fn reference_parse(s: &str) -> Option<i64> {
    let parts: Vec<&str> = s.split(':').collect();
    if parts.len() != 3 {
        return None;
    }
    let h = parts[0].parse::<i32>().ok()? as i64;
    let m = parts[1].parse::<i32>().ok()? as i64;
    let s = parts[2].parse::<i32>().ok()? as i64;
    Some(h * 3600 + m * 60 + s)
}

#[test]
fn formats_hours_minutes_seconds() {
    assert_eq!(format_flight_time(0), "00:00:00");
    assert_eq!(format_flight_time(1), "00:00:01");
    assert_eq!(format_flight_time(59), "00:00:59");
    assert_eq!(format_flight_time(60), "00:01:00");
    assert_eq!(format_flight_time(3600), "01:00:00");
    assert_eq!(format_flight_time(3723), "01:02:03");
    assert_eq!(format_flight_time(36_610), "10:10:10");
    assert_eq!(format_flight_time(86_399), "23:59:59");
}

#[test]
fn hours_grow_beyond_two_digits() {
    assert_eq!(format_flight_time(360_000), "100:00:00");
    assert_eq!(format_flight_time(i32::MAX), "596523:14:07");
}

#[test]
fn negative_seconds_carry_their_sign_in_each_part() {
    assert_eq!(format_flight_time(-1), "00:00:-1");
    assert_eq!(format_flight_time(-60), "00:-1:00");
    assert_eq!(format_flight_time(-3661), "-1:-1:-1");
    assert_eq!(format_flight_time(-45_296), "-12:-34:-56");
    assert_eq!(format_flight_time(i32::MIN), "-596523:-14:-8");
}

#[test]
fn formatting_agrees_with_the_standard_formatter() {
    let mut n: i64 = i32::MIN as i64;
    while n <= i32::MAX as i64 {
        assert_eq!(format_flight_time(n as i32), reference(n as i32));
        n += 7_654_321;
    }
    for n in -4000..4000 {
        assert_eq!(format_flight_time(n), reference(n));
    }
    for n in 86_000..87_000 {
        assert_eq!(format_flight_time(n), reference(n));
    }
}

#[test]
fn reads_hours_minutes_seconds() {
    assert_eq!(parse_flight_time("00:00:00"), Some(0));
    assert_eq!(parse_flight_time("01:02:03"), Some(3723));
    assert_eq!(parse_flight_time("1:2:3"), Some(3723));
    assert_eq!(parse_flight_time("23:59:59"), Some(86_399));
    assert_eq!(parse_flight_time("100:00:00"), Some(360_000));
    assert_eq!(parse_flight_time("0:90:0"), Some(5400));
    assert_eq!(parse_flight_time("0:0:3600"), Some(3600));
    assert_eq!(parse_flight_time("0000000000000000000001:000:0000000"), Some(3600));
}

#[test]
fn reads_signed_fields() {
    assert_eq!(parse_flight_time("+1:+2:+3"), Some(3723));
    assert_eq!(parse_flight_time("-1:-1:-1"), Some(-3661));
    assert_eq!(parse_flight_time("1:-30:0"), Some(1800));
    assert_eq!(parse_flight_time("-0:00:-0"), Some(0));
    assert_eq!(parse_flight_time("00:00:-1"), Some(-1));
}

#[test]
fn refuses_what_is_not_three_fields() {
    assert_eq!(parse_flight_time(""), None);
    assert_eq!(parse_flight_time("12"), None);
    assert_eq!(parse_flight_time("12:34"), None);
    assert_eq!(parse_flight_time("1:2:3:4"), None);
    assert_eq!(parse_flight_time(":"), None);
    assert_eq!(parse_flight_time("::"), None);
    assert_eq!(parse_flight_time("1::3"), None);
    assert_eq!(parse_flight_time(":2:3"), None);
    assert_eq!(parse_flight_time("1:2:"), None);
}

#[test]
fn refuses_what_is_not_a_number() {
    assert_eq!(parse_flight_time("a:b:c"), None);
    assert_eq!(parse_flight_time("1:2:3s"), None);
    assert_eq!(parse_flight_time(" 1:2:3"), None);
    assert_eq!(parse_flight_time("1:2:3 "), None);
    assert_eq!(parse_flight_time("1: 2:3"), None);
    assert_eq!(parse_flight_time("1.5:2:3"), None);
    assert_eq!(parse_flight_time("-:2:3"), None);
    assert_eq!(parse_flight_time("+:2:3"), None);
    assert_eq!(parse_flight_time("--1:2:3"), None);
    assert_eq!(parse_flight_time("+-1:2:3"), None);
    assert_eq!(parse_flight_time("1-:2:3"), None);
    assert_eq!(parse_flight_time("0x10:2:3"), None);
    assert_eq!(parse_flight_time("1_0:2:3"), None);
}

#[test]
fn refuses_text_beyond_ascii() {
    assert_eq!(parse_flight_time("１:２:３"), None);
    assert_eq!(parse_flight_time("1:2:3é"), None);
    assert_eq!(parse_flight_time("1：2：3"), None);
    assert_eq!(parse_flight_time("٣:٢:١"), None);
}

#[test]
fn refuses_a_field_beyond_32_bits() {
    assert_eq!(parse_flight_time("0:0:2147483647"), Some(i32::MAX));
    assert_eq!(parse_flight_time("0:0:2147483648"), None);
    assert_eq!(parse_flight_time("0:0:-2147483648"), Some(i32::MIN));
    assert_eq!(parse_flight_time("0:0:-2147483649"), None);
    assert_eq!(parse_flight_time("99999999999999999999:0:0"), None);
    assert_eq!(parse_flight_time("0:0:99999999999999999999x"), None);
}

#[test]
fn refuses_a_total_beyond_32_bits() {
    assert_eq!(parse_flight_time("596523:14:07"), Some(i32::MAX));
    assert_eq!(parse_flight_time("596523:14:08"), None);
    assert_eq!(parse_flight_time("-596523:-14:-8"), Some(i32::MIN));
    assert_eq!(parse_flight_time("-596523:-14:-9"), None);
    assert_eq!(parse_flight_time("596524:00:00"), None);
    assert_eq!(parse_flight_time("2147483647:2147483647:2147483647"), None);
    assert_eq!(parse_flight_time("600000:0:-2147483648"), Some(12_516_352));
}

#[test]
fn reading_agrees_with_the_standard_parser() {
    let fields = ["0", "7", "07", "59", "60", "-3", "+4", "", "-", "x", "2147483647", "-2147483648", "2147483648", "1 "];
    for h in fields {
        for m in fields {
            for s in fields {
                let text = format!("{h}:{m}:{s}");
                let expected = reference_parse(&text)
                    .filter(|t| *t >= i32::MIN as i64 && *t <= i32::MAX as i64)
                    .map(|t| t as i32);
                assert_eq!(parse_flight_time(&text), expected, "{}", text);
            }
        }
    }
}

#[test]
fn reading_undoes_writing() {
    let mut n: i64 = i32::MIN as i64;
    while n <= i32::MAX as i64 {
        let text = format_flight_time(n as i32);
        assert_eq!(parse_flight_time(&text), Some(n as i32));
        n += 1_234_567;
    }
    for n in -7300..7300 {
        assert_eq!(parse_flight_time(&format_flight_time(n)), Some(n));
    }
    assert_eq!(parse_flight_time(&format_flight_time(i32::MAX)), Some(i32::MAX));
    assert_eq!(parse_flight_time(&format_flight_time(i32::MIN)), Some(i32::MIN));
}
