use mkube_console::helpers::{
    human_bytes, human_duration_secs, human_time, parse_age, relative_time,
};
use mkube_console::text::{decimal_string, parse_i64, signed_decimal_string};
use mkube_console::time::{whole_seconds_between, Timestamp};

fn at(secs: i64) -> Timestamp {
    Timestamp { secs, nanos: 0 }
}

fn with_floats(b: i64) -> String {
    if b == 0 {
        return "0 B".to_string();
    }
    if b < 1024 {
        return format!("{} B", b);
    }
    let suffixes = ["KB", "MB", "GB", "TB"];
    let mut div: i64 = 1024;
    let mut exp = 0;
    let mut n = b / 1024;
    while n >= 1024 && exp < suffixes.len() - 1 {
        div *= 1024;
        exp += 1;
        n /= 1024;
    }
    format!("{:.1} {}", b as f64 / div as f64, suffixes[exp])
}

#[test]
fn human_bytes_small_counts_are_bytes() {
    assert_eq!(human_bytes(0), "0 B");
    assert_eq!(human_bytes(1), "1 B");
    assert_eq!(human_bytes(1023), "1023 B");
    assert_eq!(human_bytes(-5), "-5 B");
    assert_eq!(human_bytes(i64::MIN), "-9223372036854775808 B");
}

#[test]
fn human_bytes_picks_the_unit() {
    assert_eq!(human_bytes(1024), "1.0 KB");
    assert_eq!(human_bytes(1536), "1.5 KB");
    assert_eq!(human_bytes(1048575), "1024.0 KB");
    assert_eq!(human_bytes(1048576), "1.0 MB");
    assert_eq!(human_bytes(1073741824), "1.0 GB");
    assert_eq!(human_bytes(3 * 1073741824), "3.0 GB");
    assert_eq!(human_bytes(1099511627776), "1.0 TB");
    assert_eq!(human_bytes(1024 * 1099511627776), "1024.0 TB");
}

#[test]
fn human_bytes_rounds_ties_to_even() {
    assert_eq!(human_bytes(1280), "1.2 KB");
    assert_eq!(human_bytes(1382), "1.3 KB");
    assert_eq!(human_bytes(1383), "1.4 KB");
    assert_eq!(human_bytes(1792), "1.8 KB");
    assert_eq!(human_bytes(1075), "1.0 KB");
    assert_eq!(human_bytes(1076), "1.1 KB");
}

#[test]
fn human_bytes_agrees_with_float_formatting() {
    let mut samples: Vec<i64> = vec![
        1024,
        1075,
        1076,
        1280,
        1281,
        1792,
        2047,
        2048,
        10_000,
        123_456,
        1_048_575,
        1_048_576,
        1_100_000,
        1_310_720,
        1_073_741_823,
        1_073_741_824,
        1_342_177_280,
        1_099_511_627_775,
        1_099_511_627_776,
        1_374_389_534_720,
        9_007_199_254_740_991,
        9_007_199_254_740_992,
        9_007_199_254_740_993,
        9_007_199_254_740_995,
        18_014_398_509_481_985,
        18_014_398_509_481_986,
        18_014_398_509_481_987,
        i64::MAX - 1,
        i64::MAX,
    ];
    let mut x: i64 = 1025;
    while x < i64::MAX / 7 {
        samples.push(x);
        samples.push(x + 1);
        samples.push(x - 1);
        x = x / 3 * 7 + 13;
    }
    let tb: i64 = 1_099_511_627_776;
    for k in 0..2000i64 {
        samples.push(tb + k * (tb / 20) + tb / 40);
        samples.push(tb + k * (tb / 20) + tb / 40 + 1);
        samples.push(tb + k * (tb / 20) + tb / 40 - 1);
        samples.push(1024 + k * 51);
        samples.push(1024 + k * 51 + 1);
        samples.push(8_000_000_000_000_000_000 + k * 54_975_581_388 + 511);
        samples.push(9_000_000_000_000_000_000 + k * 109_951_162_777 + 512);
    }
    for b in samples {
        assert_eq!(human_bytes(b), with_floats(b), "for {}", b);
    }
}

#[test]
fn human_duration_in_two_units() {
    assert_eq!(human_duration_secs(0), "0s");
    assert_eq!(human_duration_secs(59), "59s");
    assert_eq!(human_duration_secs(-7), "-7s");
    assert_eq!(human_duration_secs(60), "1m0s");
    assert_eq!(human_duration_secs(187), "3m7s");
    assert_eq!(human_duration_secs(3599), "59m59s");
    assert_eq!(human_duration_secs(3600), "1h0m");
    assert_eq!(human_duration_secs(18_720), "5h12m");
    assert_eq!(human_duration_secs(86_399), "23h59m");
    assert_eq!(human_duration_secs(86_400), "1d0h");
    assert_eq!(human_duration_secs(2 * 86_400 + 3 * 3600 + 59), "2d3h");
    assert_eq!(human_duration_secs(i64::MAX), "106751991167300d15h");
    assert_eq!(human_duration_secs(i64::MIN), "-9223372036854775808s");
}

#[test]
fn relative_time_in_words() {
    assert_eq!(relative_time(-10).as_deref(), Some("just now"));
    assert_eq!(relative_time(59).as_deref(), Some("just now"));
    assert_eq!(relative_time(60).as_deref(), Some("1 minute ago"));
    assert_eq!(relative_time(119).as_deref(), Some("1 minute ago"));
    assert_eq!(relative_time(120).as_deref(), Some("2 minutes ago"));
    assert_eq!(relative_time(3600).as_deref(), Some("1 hour ago"));
    assert_eq!(relative_time(7300).as_deref(), Some("2 hours ago"));
    assert_eq!(relative_time(86_400).as_deref(), Some("1 day ago"));
    assert_eq!(relative_time(29 * 86_400 + 5).as_deref(), Some("29 days ago"));
    assert_eq!(relative_time(30 * 86_400), None);
}

#[test]
fn human_time_never_recent_and_dated() {
    let now = at(1_700_000_000);
    assert_eq!(human_time(None, now), "never");
    assert_eq!(human_time(Some(at(1_700_000_000 - 30)), now), "just now");
    assert_eq!(human_time(Some(at(1_700_000_000 - 300)), now), "5 minutes ago");
    assert_eq!(human_time(Some(at(1_700_000_000 + 300)), now), "just now");
    assert_eq!(human_time(Some(at(1_700_000_000 - 2 * 86_400)), now), "2 days ago");
    assert_eq!(human_time(Some(at(1_431_648_000)), now), "May 15, 2015");
    assert_eq!(human_time(Some(at(1_704_412_800)), at(1_800_000_000)), "Jan  5, 2024");
    assert_eq!(human_time(Some(at(i64::MIN)), now), "");
}

#[test]
fn human_time_counts_whole_seconds() {
    let then = Timestamp { secs: 10, nanos: 900_000_000 };
    let now = Timestamp { secs: 70, nanos: 100_000_000 };
    assert_eq!(whole_seconds_between(then, now), 59);
    assert_eq!(human_time(Some(then), now), "just now");
    assert_eq!(whole_seconds_between(now, then), -59);
    assert_eq!(whole_seconds_between(at(i64::MIN), at(i64::MAX)), i64::MAX);
    assert_eq!(whole_seconds_between(at(i64::MAX), at(i64::MIN)), i64::MIN);
}

#[test]
fn parse_age_reads_rfc3339() {
    let now = at(1_704_067_200 + 90);
    assert_eq!(parse_age(&Some("2024-01-01T00:00:00Z".to_string()), now), "1m30s");
    assert_eq!(parse_age(&Some("2024-01-01T01:00:00+01:00".to_string()), now), "1m30s");
    assert_eq!(parse_age(&Some("2023-12-30T00:00:00Z".to_string()), now), "2d0h");
    assert_eq!(parse_age(&Some("2024-01-01T00:02:00Z".to_string()), now), "-30s");
}

#[test]
fn parse_age_is_empty_without_a_usable_start() {
    let now = at(1_704_067_290);
    assert_eq!(parse_age(&None, now), "");
    assert_eq!(parse_age(&Some(String::new()), now), "");
    assert_eq!(parse_age(&Some("yesterday".to_string()), now), "");
    assert_eq!(parse_age(&Some("2024-01-01 00:00:00".to_string()), now), "");
}

#[test]
fn decimal_strings() {
    assert_eq!(decimal_string(0), "0");
    assert_eq!(decimal_string(9), "9");
    assert_eq!(decimal_string(10), "10");
    assert_eq!(decimal_string(9090), "9090");
    assert_eq!(decimal_string(u64::MAX), "18446744073709551615");
    assert_eq!(signed_decimal_string(-1), "-1");
    assert_eq!(signed_decimal_string(i64::MIN), "-9223372036854775808");
    assert_eq!(signed_decimal_string(i64::MAX), "9223372036854775807");
}

#[test]
fn parse_i64_accepts_what_an_integer_looks_like() {
    assert_eq!(parse_i64("0"), Some(0));
    assert_eq!(parse_i64("42"), Some(42));
    assert_eq!(parse_i64("+42"), Some(42));
    assert_eq!(parse_i64("-42"), Some(-42));
    assert_eq!(parse_i64("-0"), Some(0));
    assert_eq!(parse_i64("007"), Some(7));
    assert_eq!(parse_i64("9223372036854775807"), Some(i64::MAX));
    assert_eq!(parse_i64("-9223372036854775808"), Some(i64::MIN));
    assert_eq!(parse_i64("00000000000000000000000000000012"), Some(12));
}

#[test]
fn parse_i64_refuses_the_rest() {
    for text in [
        "",
        "+",
        "-",
        "--1",
        "+-1",
        "1-",
        " 1",
        "1 ",
        "1.5",
        "12a",
        "a12",
        "1Gi",
        "9223372036854775808",
        "-9223372036854775809",
        "99999999999999999999999999999999999999999999",
        "٣",
    ] {
        assert_eq!(parse_i64(text), None, "for {:?}", text);
        assert!(text.parse::<i64>().is_err(), "for {:?}", text);
    }
}
