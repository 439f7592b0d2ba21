use pg_starttls::config::{
    checked_duration_or, duration_or, env_or, listen_addr, required_upstream, settle_duration,
    Config, Span,
};
use pg_starttls::text::decimal;

fn given(text: &str) -> Option<String> {
    Some(text.to_string())
}

fn fallback() -> Span {
    Span::from_secs(10)
}

fn span(secs: u64, nanos: u32) -> Result<Span, String> {
    Ok(Span { secs, nanos })
}

#[test]
fn unset_and_empty_variables_fall_back() {
    assert_eq!(env_or(None, "x"), "x");
    assert_eq!(env_or(given(""), "x"), "x");
    assert_eq!(env_or(given(" "), "x"), " ");
    assert_eq!(env_or(given("y"), "x"), "y");
    assert_eq!(listen_addr(None), "0.0.0.0:5432");
    assert_eq!(listen_addr(given("[::]:15432")), "[::]:15432");
}

#[test]
fn upstream_is_required() {
    let missing =
        "UPSTREAM_ADDR is required (the gateway listener to hand the TLS stream back to)";
    assert_eq!(required_upstream(None), Err(missing.to_string()));
    assert_eq!(required_upstream(given("")), Err(missing.to_string()));
    assert_eq!(required_upstream(given("gw:5432")), Ok("gw:5432".to_string()));
}

#[test]
fn durations_are_parsed() {
    assert_eq!(duration_or("K", given("15s"), fallback()), span(15, 0));
    assert_eq!(duration_or("K", given("1m 30s"), fallback()), span(90, 0));
    assert_eq!(duration_or("K", given("250ms"), fallback()), span(0, 250_000_000));
    assert_eq!(duration_or("K", given("2h5s7ns"), fallback()), span(7205, 7));
}

#[test]
fn durations_fall_back() {
    assert_eq!(duration_or("K", None, fallback()), span(10, 0));
    assert_eq!(duration_or("K", given(""), fallback()), span(10, 0));
}

#[test]
fn duration_errors_name_the_variable() {
    assert_eq!(
        duration_or("DIAL_TIMEOUT", given("10"), fallback()),
        Err("DIAL_TIMEOUT: time unit needed, for example 10sec or 10ms".to_string())
    );
    assert_eq!(
        duration_or("DIAL_TIMEOUT", given("soon"), fallback()),
        Err("DIAL_TIMEOUT: expected number at 0".to_string())
    );
    assert_eq!(
        duration_or("DRAIN_TIMEOUT", given("5!"), fallback()),
        Err("DRAIN_TIMEOUT: invalid character at 1".to_string())
    );
    assert_eq!(
        duration_or("DRAIN_TIMEOUT", given(" "), fallback()),
        Err("DRAIN_TIMEOUT: value was empty".to_string())
    );
}

#[test]
fn parse_results_are_settled() {
    assert_eq!(settle_duration("K", span(1, 2)), span(1, 2));
    assert_eq!(settle_duration("K", Err("bad".to_string())), Err("K: bad".to_string()));
}

#[test]
fn long_durations_are_parsed_if_they_have_one_part() {
    assert_eq!(
        checked_duration_or("K", given("18446744073709551615s"), fallback()),
        Some(span(u64::MAX, 0))
    );
    assert_eq!(
        checked_duration_or("K", given("600000000000ns"), fallback()),
        Some(span(600, 0))
    );
}

#[test]
fn durations_are_parsed_however_many_digits_they_have() {
    assert_eq!(
        checked_duration_or("K", given("1h 30m 0.123456789s"), fallback()),
        Some(span(5400, 123_456_789))
    );
    assert_eq!(
        checked_duration_or("K", given("1.00000000000s"), fallback()),
        Some(span(1, 0))
    );
    assert_eq!(
        checked_duration_or("K", given("15days 2h 2m 23s 123ms 456us 789ns"), fallback()),
        Some(span(1_303_343, 123_456_789))
    );
    assert_eq!(
        checked_duration_or("K", given("000000000000001s 2\u{b5}s"), fallback()),
        Some(span(1, 2_000))
    );
    assert_eq!(
        checked_duration_or("K", given("1m 123456 soon 7890123"), fallback()),
        Some(Err("K: unknown time unit \"soon\", supported units: ns, us/\u{b5}s, ms, sec, min, \
            hours, days, weeks, months, years (and few variations)"
            .to_string()))
    );
}

#[test]
fn durations_fall_back_when_checked() {
    assert_eq!(checked_duration_or("K", None, fallback()), Some(span(10, 0)));
    assert_eq!(checked_duration_or("K", given(""), fallback()), Some(span(10, 0)));
}

/// The error on a sum, or a number, that is too large.
fn too_large() -> Result<Span, String> {
    Err("K: number is too large or cannot be represented without a lack of precision \
         (values below 1ns are not supported)"
        .to_string())
}

#[test]
fn durations_that_fill_up_the_last_second_are_left_alone() {
    for text in [
        "18446744073709551615s 1000ms",
        "18446744073709551615s1000millis",
        "18446744073709551615s 1000000us",
        "18446744073709551615s 1000000\u{b5}s",
        "18446744073709551615s 1 000 000 000 ns",
        "18446744073709551615s 1000.5ms",
        "18446744073709551615s 500ms 0.5s",
        "18446744073709551615s 400ms 0.01m",
        "18446744073709551615s 999999usec 1nsec 999nanos",
        "500ms 18446744073709551615.5s",
        "400ms 18446744073709551600s 15.6s 1h",
    ] {
        assert_eq!(checked_duration_or("K", given(text), fallback()), None, "{text}");
    }
}

#[test]
fn every_unit_counts_for_what_it_holds() {
    for text in [
        "18446744073709551615s",
        "18446744073709551600sec 10secs 4second 1seconds",
        "307445734561825860m 15s",
        "307445734561825000min 800mins 50minute 10minutes 15s",
        "5124095576030431h 15s",
        "5124095576030000hr 400hrs 30hour 1hours 15s",
        "213503982334601d 25215s",
        "213503982334600day 1days 25215s",
        "30500568904943w 25215s",
        "30500568904900wk 40wks 2week 1weeks 25215s",
        "7013928460400M 2185215s",
        "7013928460000month 400months 2185215s",
        "584542046090y 19767615s",
        "584542046000yr 80yrs 9year 1years 19767615s",
        "0.5h 18446744073709549815s",
        "0.25d 18446744073709530015s",
    ] {
        let most = format!("{text} 999msec 999us 999ns");
        assert_eq!(
            checked_duration_or("K", Some(most), fallback()),
            Some(span(u64::MAX, 999_999_999)),
            "{text}"
        );
        let full = format!("{text} 1000ms");
        assert_eq!(checked_duration_or("K", Some(full), fallback()), None, "{text}");
        let more = format!("{text} 1001ms");
        assert_eq!(checked_duration_or("K", Some(more), fallback()), Some(too_large()), "{text}");
    }
}

#[test]
fn long_parts_are_added_up() {
    assert_eq!(
        checked_duration_or("K", given("1s 600000000000ns"), fallback()),
        Some(span(601, 0))
    );
    assert_eq!(
        checked_duration_or("K", given("584542046088s 0s"), fallback()),
        Some(span(584_542_046_088, 0))
    );
    assert_eq!(
        checked_duration_or("K", given("18446744073709551615s 0s 0ms"), fallback()),
        Some(span(u64::MAX, 0))
    );
    assert_eq!(
        checked_duration_or("K", given("18446744073709551614s 1000ms"), fallback()),
        Some(span(u64::MAX, 0))
    );
    assert_eq!(
        checked_duration_or("K", given("18446744073709551614s 1999.999999ms"), fallback()),
        Some(span(u64::MAX, 999_999_999))
    );
}

#[test]
fn sums_that_no_duration_holds_are_refused() {
    for text in [
        "18446744073709551615s 1s",
        "18446744073709551615s 2s",
        "18446744073709551615s 1s 1000ms",
        "18446744073709551614s 2000ms",
        "18446744073709551615s 1001ms",
        "600000000000y 1s",
        "99999999999999999999s 1s",
        "99999999999999999999 s 18446744073709551615s 1000ms",
        "0.00000000000000000001s 18446744073709551615s 1000ms",
    ] {
        assert_eq!(
            checked_duration_or("K", given(text), fallback()),
            Some(too_large()),
            "{text}"
        );
    }
}

#[test]
fn unknown_units_are_refused_behind_long_parts() {
    for text in ["600000000000s 1x", "600000000000s 1x 18446744073109551615s 1000ms"] {
        assert_eq!(
            checked_duration_or("K", given(text), fallback()),
            Some(Err("K: unknown time unit \"x\", supported units: ns, us/\u{b5}s, ms, sec, min, \
                      hours, days, weeks, months, years (and few variations)"
                .to_string())),
            "{text}"
        );
    }
}

#[test]
fn settings_are_kept() {
    let cfg = Config::new(
        "gw:1".to_string(),
        Span::from_secs(1),
        Span::from_secs(2),
        Span::from_secs(3),
    );
    assert_eq!(cfg.upstream_addr, "gw:1");
    assert_eq!(cfg.handshake_timeout, Span { secs: 1, nanos: 0 });
    assert_eq!(cfg.dial_timeout, Span { secs: 2, nanos: 0 });
    assert_eq!(cfg.keepalive_period, Span { secs: 30, nanos: 0 });
    assert_eq!(cfg.drain_timeout, Span { secs: 3, nanos: 0 });
    assert_eq!(Config::HANDSHAKE_SECS, 10);
    assert_eq!(Config::DIAL_SECS, 10);
    assert_eq!(Config::DRAIN_SECS, 20);
}

#[test]
fn decimal_numbers() {
    assert_eq!(decimal(0), "0");
    assert_eq!(decimal(9), "9");
    assert_eq!(decimal(10), "10");
    assert_eq!(decimal(80877102), "80877102");
    assert_eq!(decimal(u32::MAX), "4294967295");
}
