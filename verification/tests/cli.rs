use pipeline::cli::commands::{parse_key_value, SchedulingStrategyArg};
use pipeline::cli::output::format_duration;
use pipeline::execution::SchedulingStrategy;
use pipeline::text;

#[test]
fn key_value_pairs_split_at_the_first_equals_sign() {
    assert_eq!(parse_key_value("key=value"), Ok(("key".to_string(), "value".to_string())));
    assert_eq!(parse_key_value("a=b=c"), Ok(("a".to_string(), "b=c".to_string())));
    assert_eq!(parse_key_value("=x"), Ok(("".to_string(), "x".to_string())));
    assert_eq!(parse_key_value("x="), Ok(("x".to_string(), "".to_string())));
    assert_eq!(parse_key_value("ключ=✅"), Ok(("ключ".to_string(), "✅".to_string())));
    assert_eq!(parse_key_value("novalue"), Err("Invalid key=value pair: novalue".to_string()));
    assert_eq!(parse_key_value(""), Err("Invalid key=value pair: ".to_string()));
}

#[test]
fn strategies_are_named_on_the_command_line() {
    assert_eq!(
        SchedulingStrategy::from(SchedulingStrategyArg::Sequential),
        SchedulingStrategy::Sequential
    );
    assert_eq!(SchedulingStrategy::from(SchedulingStrategyArg::Parallel), SchedulingStrategy::Parallel);
    assert_eq!(
        SchedulingStrategy::from(SchedulingStrategyArg::ParallelLimited),
        SchedulingStrategy::LimitedParallel(4)
    );
}

#[test]
fn durations_are_written_in_their_largest_units() {
    assert_eq!(format_duration(0), "0s");
    assert_eq!(format_duration(59), "59s");
    assert_eq!(format_duration(60), "1m 0s");
    assert_eq!(format_duration(3599), "59m 59s");
    assert_eq!(format_duration(3600), "1h 0m 0s");
    assert_eq!(format_duration(3661), "1h 1m 1s");
    assert_eq!(format_duration(90061), "25h 1m 1s");
}

#[test]
fn text_primitives() {
    assert_eq!(text::decimal_string(0), "0");
    assert_eq!(text::decimal_string(10), "10");
    assert_eq!(text::decimal_string(1234567890), "1234567890");
    assert_eq!(text::signed_decimal_string(-1), "-1");
    assert_eq!(text::signed_decimal_string(i64::MIN), "-9223372036854775808");
    assert_eq!(text::signed_decimal_string(i64::MAX), "9223372036854775807");
    assert_eq!(text::replace("aaa", "aa", "b"), "ba");
    assert_eq!(text::replace("abcabc", "bc", ""), "aa");
    assert_eq!(text::replace("abc", "", "x"), "abc");
    assert_eq!(text::replace("abc", "abcd", "x"), "abc");
    assert_eq!(text::replace("✅✅", "✅", "ok"), "okok");
    assert!(text::contains("abc", ""));
    assert!(text::contains("", ""));
    assert!(text::contains("abc", "bc"));
    assert!(!text::contains("abc", "cb"));
    assert!(!text::contains("ab", "abc"));
    assert_eq!(text::first_line_of("one\ntwo"), "one");
    assert_eq!(text::first_line_of("one\r\ntwo"), "one");
    assert_eq!(text::first_line_of("one\r"), "one\r");
    assert_eq!(text::first_line_of("\nrest"), "");
    assert_eq!(text::first_line_of(""), "");
    assert_eq!(text::first_line_of("no end"), "no end");
    assert_eq!(text::concat("a", "b"), "ab");
    assert!(text::same_text("é", "é"));
    assert!(!text::same_text("e", "é"));
    assert_eq!(text::from_chars(&text::to_chars("héllo")), "héllo");
    assert!(text::list_contains(&vec!["a".to_string()], "a"));
    assert!(!text::list_contains(&vec!["a".to_string()], "b"));
}
