use timer::config::{Cli, ClockFormat, TimerSpec};
use timer::error::Error;
use timer::reach::is_in_reach;
use timer::resolve::{from_compound, parse_seconds, resolve_duration};
use timer::span::TimeSpan;

fn secs(n: u64) -> TimeSpan {
    TimeSpan { secs: n, nanos: 0 }
}

fn invalid_text(token: &str) -> String {
    match resolve_duration(token) {
        Err(Error::InvalidDuration(text)) => text,
        other => panic!("{:?} resolved to {:?}", token, other),
    }
}

#[test]
fn bare_numbers_are_seconds() {
    assert_eq!(resolve_duration("0"), Ok(secs(0)));
    assert_eq!(resolve_duration("2"), Ok(secs(2)));
    assert_eq!(resolve_duration("90"), Ok(secs(90)));
    assert_eq!(resolve_duration("007"), Ok(secs(7)));
    assert_eq!(resolve_duration("+5"), Ok(secs(5)));
    assert_eq!(resolve_duration("123456789012345"), Ok(secs(123_456_789_012_345)));
    assert_eq!(resolve_duration("18446744073709551615"), Ok(secs(u64::MAX)));
}

#[test]
fn every_small_number_resolves_to_itself() {
    let mut n: u64 = 0;
    while n < 5000 {
        assert_eq!(resolve_duration(&n.to_string()), Ok(secs(n)));
        n += 1;
    }
}

#[test]
fn bare_number_agrees_with_the_standard_parser() {
    let tokens = [
        "", "+", "-", "0", "+0", "-0", "12", "+12", "++12", "1 2", " 12", "12 ", "1_000", "12a",
        "a12", "18446744073709551615", "18446744073709551616", "99999999999999999999999",
        "000000000000000000000000001", "٣", "1٣", "+٣",
    ];
    for token in tokens {
        assert_eq!(parse_seconds(token), token.parse::<u64>().ok(), "{:?}", token);
    }
}

#[test]
fn tokens_with_units_add_up() {
    assert_eq!(resolve_duration("1h30m"), Ok(secs(5400)));
    assert_eq!(resolve_duration("2h"), Ok(secs(7200)));
    assert_eq!(resolve_duration("45m"), Ok(secs(2700)));
    assert_eq!(resolve_duration("10s"), Ok(secs(10)));
    assert_eq!(resolve_duration("500ms"), Ok(TimeSpan { secs: 0, nanos: 500_000_000 }));
    assert_eq!(resolve_duration("1h30m15s250ms"), Ok(TimeSpan { secs: 5415, nanos: 250_000_000 }));
    assert_eq!(resolve_duration("1500ms"), Ok(TimeSpan { secs: 1, nanos: 500_000_000 }));
}

#[test]
fn units_are_case_sensitive() {
    assert!(matches!(resolve_duration("1H"), Err(Error::InvalidDuration(_))));
    assert!(matches!(resolve_duration("1S"), Err(Error::InvalidDuration(_))));
    assert!(matches!(resolve_duration("1MS"), Err(Error::InvalidDuration(_))));
    assert_eq!(resolve_duration("5m"), Ok(secs(300)));
    assert_eq!(resolve_duration("5M"), Ok(secs(5 * 2_630_016)));
}

#[test]
fn malformed_tokens_are_invalid_durations() {
    for token in ["abc", "-5", "5x", "banana", "", "1h30", "h", "1.5.2s"] {
        assert!(
            matches!(resolve_duration(token), Err(Error::InvalidDuration(_))),
            "{:?}",
            token
        );
    }
}

#[test]
fn invalid_duration_carries_the_parser_text() {
    assert_eq!(invalid_text("banana"), "expected number at 0");
    assert_eq!(invalid_text("-5"), "expected number at 0");
    assert_eq!(invalid_text(""), "value was empty");
    assert!(invalid_text("5x").starts_with("unknown time unit \"x\""));
    assert_eq!(invalid_text("1h30"), "time unit needed, for example 30sec or 30ms");
}

#[test]
fn number_beyond_64_bits_is_invalid() {
    assert!(matches!(
        resolve_duration("18446744073709551616"),
        Err(Error::InvalidDuration(_))
    ));
}

const TOO_LARGE: &str = "number is too large or cannot be represented without a lack of precision (values below 1ns are not supported)";

#[test]
fn long_tokens_with_units_are_read() {
    assert_eq!(resolve_duration("100000000000s"), Ok(secs(100_000_000_000)));
    assert_eq!(resolve_duration("12345678901234567s"), Ok(secs(12_345_678_901_234_567)));
    assert_eq!(
        resolve_duration("1h2m3s4ms5h6m7s8ms9h1m2s3ms"),
        Ok(TimeSpan { secs: 54_552, nanos: 15_000_000 })
    );
    assert_eq!(resolve_duration("5000000000000h"), Ok(secs(18_000_000_000_000_000)));
    assert_eq!(resolve_duration("300000000000000000m"), Ok(secs(18_000_000_000_000_000_000)));
    assert_eq!(resolve_duration("5000000000000ms"), Ok(secs(5_000_000_000)));
    assert_eq!(resolve_duration("1000000000000000ns"), Ok(secs(1_000_000)));
    assert_eq!(resolve_duration("1000000000000us"), Ok(secs(1_000_000)));
    assert_eq!(
        resolve_duration("600000000000.5us"),
        Ok(TimeSpan { secs: 600_000, nanos: 500 })
    );
    assert_eq!(
        resolve_duration("1000000000000.5s"),
        Ok(TimeSpan { secs: 1_000_000_000_000, nanos: 500_000_000 })
    );
    assert_eq!(resolve_duration("123456789012hours"), Ok(secs(123_456_789_012 * 3600)));
    assert_eq!(resolve_duration("500000000000y"), Ok(secs(500_000_000_000 * 31_557_600)));
    assert_eq!(resolve_duration("6000000000000days"), Ok(secs(6_000_000_000_000 * 86_400)));
    assert_eq!(resolve_duration("30500568904943w"), Ok(secs(30_500_568_904_943 * 604_800)));
    assert_eq!(resolve_duration("7013928460400months"), Ok(secs(7_013_928_460_400 * 2_630_016)));
    assert_eq!(resolve_duration("1000000000000min"), Ok(secs(60_000_000_000_000)));
    assert_eq!(resolve_duration("18446744073709millis"), Ok(TimeSpan { secs: 18_446_744_073, nanos: 709_000_000 }));
}

#[test]
fn the_longest_spans_are_read() {
    assert_eq!(resolve_duration("18446744073709551615s"), Ok(secs(u64::MAX)));
    assert_eq!(resolve_duration("5124095576030431h15s"), Ok(secs(u64::MAX)));
    assert_eq!(
        resolve_duration("18446744073709551615s1ms"),
        Ok(TimeSpan { secs: u64::MAX, nanos: 1_000_000 })
    );
    assert_eq!(
        resolve_duration("18446744073709551615s999ms"),
        Ok(TimeSpan { secs: u64::MAX, nanos: 999_000_000 })
    );
    assert_eq!(
        resolve_duration("18446744073709551615s 999999999ns"),
        Ok(TimeSpan { secs: u64::MAX, nanos: 999_999_999 })
    );
    assert_eq!(
        resolve_duration("18446744073709551614s1000ms"),
        Ok(TimeSpan { secs: u64::MAX, nanos: 0 })
    );
    assert_eq!(
        resolve_duration("18446744073709551614s 500ms 500ms 999ms"),
        Ok(TimeSpan { secs: u64::MAX, nanos: 999_000_000 })
    );
}

#[test]
fn malformed_long_tokens_carry_the_parser_text() {
    assert_eq!(invalid_text("x100000000000"), "expected number at 0");
    assert_eq!(invalid_text("x99999999999999999999999"), "expected number at 0");
    assert_eq!(invalid_text("100000000000000000x"), "unknown time unit \"x\", supported units: ns, us/µs, ms, sec, min, hours, days, weeks, months, years (and few variations)");
    assert_eq!(invalid_text("18446744073709551616s"), TOO_LARGE);
    assert_eq!(invalid_text("99999999999999999999999"), TOO_LARGE);
    assert_eq!(invalid_text("18446744073709551615s.1s"), "invalid character at 21");
    assert_eq!(invalid_text("1,000,000,000,000y"), "invalid character at 1");
    assert_eq!(invalid_text("999999999999999999 999999999999999999x"), TOO_LARGE);
    assert_eq!(invalid_text("18446744073709551615s1s"), TOO_LARGE);
    assert_eq!(invalid_text("600000000000y"), TOO_LARGE);
    assert_eq!(invalid_text("18446744073709551615h"), TOO_LARGE);
    assert_eq!(invalid_text("18446744073709551615s1001ms"), TOO_LARGE);
    assert_eq!(invalid_text("18446744073709551615s2000ms"), TOO_LARGE);
    assert_eq!(invalid_text("1h\u{1}18446744073709551615y"), "invalid character at 2");
    assert!(invalid_text("18446744073709551615sx1000ms").starts_with("unknown time unit \"sx\""));
    assert_eq!(invalid_text("18446744073709551615s-1000ms"), "invalid character at 21");
    assert_eq!(invalid_text("18446744073709551615s.1000ms"), "invalid character at 21");
}

#[test]
fn unchecked_carry_is_too_long() {
    for token in [
        "18446744073709551615s 1000ms",
        "18446744073709551615s1000ms",
        "18446744073709551615s1000000us",
        "18446744073709551615s1000000000ns",
        "18446744073709551615seconds 1000msec",
        "18446744073709551615s 500ms 500ms",
        "18446744073709551615s 0.5s 500ms",
        "18446744073709551614s 1s 1000ms",
        "5124095576030431h15s1000ms",
        "999ms18446744073709551615s1ms",
        "18446744073709551615s999ms999us999ns1ns",
        "18446744073709551615s 1000ms 1h",
        "18446744073709551615s\t1000ms",
        "18446744073709551615s\u{a0}1000ms",
        "18446744073709551615s\u{3000}1 000 ms",
    ] {
        assert_eq!(invalid_text(token), "the duration is too long", "{:?}", token);
        assert!(!is_in_reach(token), "{:?}", token);
    }
}

#[test]
fn reach_of_tokens() {
    for token in [
        "", "0", "banana", "1h30m", "500ms", "18446744073709551615s", "18446744073709551615",
        "1 2 h", "1.5h", "584542046090y", "584542046091y", "18446744073709551615ns",
        "1h 18446744073709551616s", "18446744073709551615 s", "x99999999999999999999999",
        "18446744073709551615s1s", "18446744073709551615s1ms", "18446744073709551615s999ms",
        "18446744073709551615s1001ms", "18446744073709551615sx1000ms",
        "18446744073709551615s,1000ms", "18446744073709551615s.1000ms",
        "18446744073709551615S1000ms", "18446744073709551615s1000MS",
        "18446744073709551615s1000m s", "18446744073709551614s1000ms",
        "18446744073709551615s 1000", "18446744073709551615s 1.ms",
        "18446744073709551615s\u{1}1000ms", "18446744073709551615s\u{7f}1000ms",
        "18446744073709551615s\u{e9}1000ms", "18446744073709551615s\u{200b}1000ms",
    ] {
        assert!(is_in_reach(token), "{:?}", token);
        let _ = resolve_duration(token);
    }
}

#[test]
fn parser_outcome_is_passed_on() {
    assert_eq!(from_compound(Ok(secs(3))), Ok(secs(3)));
    assert_eq!(
        from_compound(Err("no".to_string())),
        Err(Error::InvalidDuration("no".to_string()))
    );
}

fn cli(duration: &str, name: Option<&str>, notify: bool, format: &str) -> Cli {
    Cli {
        duration: duration.to_string(),
        name: name.map(|text| text.to_string()),
        notify,
        format: format.to_string(),
    }
}

#[test]
fn two_seconds_resolve() {
    let spec = TimerSpec::resolve(&cli("2", None, true, "24h")).unwrap();
    assert_eq!(spec.total_duration, secs(2));
    assert_eq!(spec.display_name, None);
    assert!(spec.notify_enabled);
    assert_eq!(spec.clock_format, ClockFormat::TwentyFourHour);
    assert_eq!(spec.title(), "Timer");
}

#[test]
fn hour_and_a_half_is_5400_seconds() {
    let spec = TimerSpec::resolve(&cli("1h30m", Some("Tea"), false, "12h")).unwrap();
    assert_eq!(spec.total_duration, secs(5400));
    assert_eq!(spec.display_name, Some("Tea".to_string()));
    assert!(!spec.notify_enabled);
    assert_eq!(spec.clock_format, ClockFormat::TwelveHour);
    assert_eq!(spec.title(), "Tea");
}

#[test]
fn banana_fails_before_anything_runs() {
    let outcome = TimerSpec::resolve(&cli("banana", None, true, "24h"));
    match outcome {
        Err(error) => {
            assert!(matches!(error, Error::InvalidDuration(_)));
            assert_eq!(error.message(), "[Cli] expected number at 0");
        }
        Ok(spec) => panic!("resolved to {:?}", spec),
    }
}

#[test]
fn clock_format_words() {
    assert_eq!(ClockFormat::from_word("12h"), ClockFormat::TwelveHour);
    assert_eq!(ClockFormat::from_word("24h"), ClockFormat::TwentyFourHour);
    assert_eq!(ClockFormat::from_word("12H"), ClockFormat::TwentyFourHour);
    assert_eq!(ClockFormat::from_word(""), ClockFormat::TwentyFourHour);
    assert!(ClockFormat::TwelveHour.is_twelve_hour());
    assert!(!ClockFormat::TwentyFourHour.is_twelve_hour());
}

#[test]
fn error_lines() {
    assert_eq!(Error::InvalidDuration("x".to_string()).message(), "[Cli] x");
    assert_eq!(Error::poll_failed().message(), "[Terminal] Unable to poll for events");
    assert_eq!(Error::read_failed().message(), "[Terminal] Unable to read events");
    assert_eq!(Error::draw_failed().message(), "[Draw] Something went very wrong.");
}

#[test]
fn no_token_makes_the_resolver_panic() {
    let pieces = [
        "18446744073709551615", "18446744073709551614", "18446744073709551615s",
        "18446744073709551614s", "5124095576030431h15s", "9223372036854775807", "584542046090",
        "5124095576030431", "307445734561825860", "213503982334601", "30500568904943",
        "7013928460400", "1000000000", "1000000", "1000", "999", "500", "15", "1", "0", "000",
        "s", "ms", "h", "m", "y", "d", "w", "M", "ns", "us", "sec", "min", "msec", "hours", "days",
        "months", "millis", "1000ms", "500ms", "999ms", "1ms", "1s", "1000000us", " ", ".", ".5",
        ".5s", ".999999999", "x", "+", "-",
    ];
    let mut state: u64 = 0x2545_F491_4F6C_DD1D;
    let mut seen_ok = 0;
    let mut seen_too_long = 0;
    for _ in 0..150_000 {
        let mut token = String::new();
        state = state.wrapping_mul(6364136223846793005).wrapping_add(1442695040888963407);
        let count = 1 + (state >> 60) as usize % 6;
        for _ in 0..count {
            state = state.wrapping_mul(6364136223846793005).wrapping_add(1442695040888963407);
            token.push_str(pieces[(state >> 33) as usize % pieces.len()]);
        }
        match resolve_duration(&token) {
            Ok(span) => {
                assert!(span.nanos < 1_000_000_000);
                assert!(is_in_reach(&token) || parse_seconds(&token).is_some());
                seen_ok += 1;
            }
            Err(Error::InvalidDuration(text)) => {
                if text == "the duration is too long" {
                    assert!(!is_in_reach(&token));
                    seen_too_long += 1;
                }
            }
            Err(other) => panic!("{:?} gave {:?}", token, other),
        }
    }
    assert!(seen_ok > 100);
    assert!(seen_too_long > 10);
}
