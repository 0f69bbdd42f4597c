use flowmode::config::{Config, PomodoroDefaults, StartArgs};
use flowmode::pomodoro::{
    count_cycles, plan_session, Interval, IntervalKind, PomodoroPlan, Scheduler, SessionPlan,
    SleepOutcome,
};
use flowmode::span::{parse_span, within_weight_limit, DurationField, Span, ValidationError};

fn minutes(m: u64) -> Span {
    Span::from_secs(m * 60)
}

fn args(duration: &str) -> StartArgs {
    StartArgs {
        duration: duration.to_string(),
        task: None,
        slack_webhook_url: None,
        whitelist: false,
        pomodoro: None,
        short_break: None,
        long_break: None,
        cycles: None,
    }
}

fn no_defaults() -> Config {
    Config { block_list: None, app_block_list: None, whitelist: None, pomodoro_defaults: None }
}

fn walk(plan: SessionPlan) -> Vec<Interval> {
    let mut scheduler = Scheduler::new(plan);
    let mut seen = Vec::new();
    let mut due = scheduler.current();
    while let Some(interval) = due {
        seen.push(interval);
        assert!(seen.len() < 1000);
        due = scheduler.advance(SleepOutcome::Elapsed);
    }
    seen
}

#[test]
fn test_duration_parsing() {
    let start_args = StartArgs {
        duration: "30m".to_string(),
        task: None,
        slack_webhook_url: None,
        whitelist: false,
        pomodoro: Some("25m".to_string()),
        short_break: Some("5m".to_string()),
        long_break: Some("15m".to_string()),
        cycles: Some(2),
    };

    let duration = parse_span(&start_args.duration).unwrap();
    assert_eq!(duration, Span::from_secs(30 * 60));

    if let Some(pomodoro) = &start_args.pomodoro {
        let pomodoro_duration = parse_span(pomodoro).unwrap();
        assert_eq!(pomodoro_duration, Span::from_secs(25 * 60));
    }
}

#[test]
fn test_duration_validation() {
    let valid_durations = vec!["1m", "30m", "1h", "2h 30m", "90s", "1h 30m 45s"];

    for duration in valid_durations {
        let result = parse_span(duration);
        assert!(result.is_ok(), "Duration '{}' should be valid", duration);
    }

    let invalid_durations = vec!["invalid", "1x", "", "30"];

    for duration in invalid_durations {
        let result = parse_span(duration);
        assert!(result.is_err(), "Duration '{}' should be invalid", duration);
    }
}

#[test]
fn test_duration_parsing_error_handling() {
    let result = plan_session(&args("5"), &no_defaults()).map_err(|e| e.message());

    assert!(result.is_err());
    let error_msg = result.unwrap_err();
    assert!(error_msg.contains("Invalid duration '5'"));
    assert!(error_msg.contains("Use format like"));
}

#[test]
fn test_pomodoro_duration_parsing_error() {
    let mut request = args("1h");
    request.pomodoro = Some("25".to_string());
    let result = plan_session(&request, &no_defaults()).map_err(|e| e.message());

    assert!(result.is_err());
    let error_msg = result.unwrap_err();
    assert!(error_msg.contains("Invalid pomodoro duration '25'"));
    assert!(error_msg.contains("Use format like"));
}

#[test]
fn parsed_spans_have_exact_values() {
    assert_eq!(parse_span("2h 37min").unwrap(), Span { secs: 9420, nanos: 0 });
    assert_eq!(parse_span("32ms").unwrap(), Span { secs: 0, nanos: 32_000_000 });
    assert_eq!(parse_span("1h 30m 45s").unwrap(), Span { secs: 5445, nanos: 0 });
    assert_eq!(parse_span("0").unwrap(), Span { secs: 0, nanos: 0 });
    assert_eq!(parse_span("99999999999s").unwrap(), Span { secs: 99_999_999_999, nanos: 0 });
}

#[test]
fn durations_over_the_weight_limit_are_refused() {
    assert!(parse_span("100000000000s").is_err());
    assert!(parse_span("18446744073709551615s 1000ms").is_err());
    assert!(parse_span("584542046090y 19826815s 1000ms").is_err());
    assert!(parse_span("1 0 0 0 0 0 0 0 0 0 0 0s").is_err());
    assert!(!within_weight_limit("100000000000s"));
    assert!(!within_weight_limit("99999999999s 1s"));
    assert!(within_weight_limit("99999999999s"));
    assert!(within_weight_limit("9999999999s 9999999999s 9999999999s"));
    assert!(within_weight_limit(""));
    assert!(within_weight_limit("\u{663}\u{ff11}\u{663}\u{ff11}\u{663}\u{ff11}\u{663}\u{ff11}\u{663}\u{ff11}\u{663}\u{ff11}"));
}

#[test]
fn long_durations_of_small_numbers_are_read() {
    assert_eq!(
        parse_span("1h 30m 15s 500ms 250us 100ns").unwrap(),
        Span { secs: 5415, nanos: 500_250_100 }
    );
    assert_eq!(
        parse_span("1h 1m 1s 1ms 1us 1ns 1d 1w 1M 1y 1s 1s").unwrap(),
        Span { secs: 3600 + 60 + 1 + 86_400 + 604_800 + 2_630_016 + 31_557_600 + 2, nanos: 1_001_001 }
    );
    assert_eq!(parse_span("1 0m").unwrap(), Span { secs: 600, nanos: 0 });
}

#[test]
fn validation_messages_are_exact() {
    let error = ValidationError {
        field: DurationField::Session,
        from_config: false,
        value: "5".to_string(),
        reason: "why".to_string(),
    };
    assert_eq!(error.message(), "Invalid duration '5': why. Use format like '25m', '1h', '30s', etc.");
    let cases = [
        (DurationField::Pomodoro, false, "Invalid pomodoro duration 'v': r. Use format like '25m', '1h', etc."),
        (DurationField::Pomodoro, true, "Invalid pomodoro duration in config 'v': r. Use format like '25m', '1h', etc."),
        (DurationField::ShortBreak, false, "Invalid break duration 'v': r. Use format like '5m', '10m', etc."),
        (DurationField::ShortBreak, true, "Invalid break duration in config 'v': r. Use format like '5m', '10m', etc."),
        (DurationField::LongBreak, false, "Invalid long break duration 'v': r. Use format like '15m', '30m', etc."),
        (DurationField::LongBreak, true, "Invalid long break duration in config 'v': r. Use format like '15m', '30m', etc."),
    ];
    for (field, from_config, expected) in cases {
        let error =
            ValidationError { field, from_config, value: "v".to_string(), reason: "r".to_string() };
        assert_eq!(error.message(), expected);
    }
}

#[test]
fn message_carries_the_parser_reason() {
    let error = plan_session(&args("5"), &no_defaults()).unwrap_err();
    assert_eq!(error.field, DurationField::Session);
    assert_eq!(error.value, "5");
    assert_eq!(error.reason, "time unit needed, for example 5sec or 5ms");
    assert_eq!(
        error.message(),
        "Invalid duration '5': time unit needed, for example 5sec or 5ms. Use format like '25m', '1h', '30s', etc."
    );
}

#[test]
fn each_field_is_validated_in_order() {
    let mut request = args("bad");
    request.pomodoro = Some("bad".to_string());
    assert_eq!(plan_session(&request, &no_defaults()).unwrap_err().field, DurationField::Session);

    let mut request = args("1h");
    request.short_break = Some("x".to_string());
    request.long_break = Some("y".to_string());
    let error = plan_session(&request, &no_defaults()).unwrap_err();
    assert_eq!(error.field, DurationField::ShortBreak);
    assert!(!error.from_config);
    assert_eq!(error.value, "x");

    let mut request = args("1h");
    request.long_break = Some("y".to_string());
    let error = plan_session(&request, &no_defaults()).unwrap_err();
    assert_eq!(error.field, DurationField::LongBreak);
    assert_eq!(error.value, "y");
}

#[test]
fn configured_durations_are_validated_too() {
    let mut config = no_defaults();
    config.pomodoro_defaults = Some(PomodoroDefaults {
        pomodoro: "25".to_string(),
        short_break: "5m".to_string(),
        long_break: "15m".to_string(),
        cycles: 4,
    });
    let error = plan_session(&args("1h"), &config).unwrap_err();
    assert_eq!(error.field, DurationField::Pomodoro);
    assert!(error.from_config);
    assert!(error.message().starts_with("Invalid pomodoro duration in config '25': "));

    let mut request = args("1h");
    request.pomodoro = Some("20m".to_string());
    let plan = plan_session(&request, &config).unwrap();
    assert_eq!(plan.pomodoro.unwrap().work, minutes(20));
}

#[test]
fn session_of_no_length_is_refused() {
    let error = plan_session(&args("0s"), &no_defaults()).unwrap_err();
    assert_eq!(error.field, DurationField::Session);
    assert_eq!(error.value, "0s");
    assert!(plan_session(&args("0"), &no_defaults()).is_err());
    assert!(plan_session(&args("1ns"), &no_defaults()).is_ok());
}

#[test]
fn plan_without_pomodoro_is_one_stretch() {
    let plan = plan_session(&args("1h"), &no_defaults()).unwrap();
    assert_eq!(plan, SessionPlan { duration: minutes(60), pomodoro: None });
    assert_eq!(
        walk(plan),
        vec![Interval { kind: IntervalKind::Focus, cycle: 0, length: minutes(60) }]
    );
}

#[test]
fn plan_takes_defaults_from_config_and_overrides_from_request() {
    let config = Config::default();
    let plan = plan_session(&args("2h"), &config).unwrap();
    assert_eq!(
        plan.pomodoro,
        Some(PomodoroPlan {
            work: minutes(25),
            short_break: minutes(5),
            long_break: minutes(15),
            cycles: 4,
            actual_cycles: 4,
        })
    );
    let mut request = args("2h");
    request.pomodoro = Some("45m".to_string());
    request.short_break = Some("10m".to_string());
    request.long_break = Some("30m".to_string());
    request.cycles = Some(3);
    let plan = plan_session(&request, &config).unwrap();
    assert_eq!(
        plan.pomodoro,
        Some(PomodoroPlan {
            work: minutes(45),
            short_break: minutes(10),
            long_break: minutes(30),
            cycles: 3,
            actual_cycles: 2,
        })
    );
    let mut request = args("2h");
    request.pomodoro = Some("10m".to_string());
    let plan = plan_session(&request, &no_defaults()).unwrap().pomodoro.unwrap();
    assert_eq!((plan.short_break, plan.long_break, plan.cycles), (minutes(5), minutes(15), 4));
}

#[test]
fn cycle_bounding() {
    assert_eq!(count_cycles(minutes(10), minutes(4), minutes(1), 10), 2);
    let mut request = args("10m");
    request.pomodoro = Some("4m".to_string());
    request.short_break = Some("1m".to_string());
    request.cycles = Some(10);
    let plan = plan_session(&request, &no_defaults()).unwrap();
    assert_eq!(plan.pomodoro.unwrap().actual_cycles, 2);
    let intervals = walk(plan);
    assert_eq!(
        intervals,
        vec![
            Interval { kind: IntervalKind::Work, cycle: 1, length: minutes(4) },
            Interval { kind: IntervalKind::ShortBreak, cycle: 1, length: minutes(1) },
            Interval { kind: IntervalKind::Work, cycle: 2, length: minutes(4) },
        ]
    );
    assert!(intervals.iter().all(|i| i.kind != IntervalKind::LongBreak));
}

#[test]
fn count_cycles_edges() {
    assert_eq!(count_cycles(minutes(1), minutes(25), minutes(5), 4), 1);
    assert_eq!(count_cycles(minutes(120), minutes(25), minutes(5), 4), 4);
    assert_eq!(count_cycles(minutes(120), minutes(25), minutes(5), 0), 0);
    assert_eq!(count_cycles(minutes(59), minutes(25), minutes(5), 4), 1);
    assert_eq!(count_cycles(minutes(60), minutes(25), minutes(5), 4), 2);
    assert_eq!(count_cycles(minutes(10), Span::from_secs(0), Span::from_secs(0), 7), 7);
    assert_eq!(
        count_cycles(
            Span::from_secs(10),
            Span { secs: 0, nanos: 900_000_000 },
            Span { secs: 1, nanos: 0 },
            100
        ),
        5
    );
    assert_eq!(
        count_cycles(Span { secs: u64::MAX, nanos: 999_999_999 }, Span { secs: 0, nanos: 1 }, Span::from_secs(0), u32::MAX),
        u32::MAX
    );
}

#[test]
fn full_schedule_ends_with_long_break() {
    let plan = SessionPlan {
        duration: minutes(120),
        pomodoro: Some(PomodoroPlan {
            work: minutes(25),
            short_break: minutes(5),
            long_break: minutes(15),
            cycles: 2,
            actual_cycles: 2,
        }),
    };
    assert_eq!(
        walk(plan),
        vec![
            Interval { kind: IntervalKind::Work, cycle: 1, length: minutes(25) },
            Interval { kind: IntervalKind::ShortBreak, cycle: 1, length: minutes(5) },
            Interval { kind: IntervalKind::Work, cycle: 2, length: minutes(25) },
            Interval { kind: IntervalKind::LongBreak, cycle: 2, length: minutes(15) },
        ]
    );
    assert_eq!(plan.interval(4), None);
    assert_eq!(plan.interval(u64::MAX), None);
}

#[test]
fn schedule_with_no_cycles_is_empty() {
    let plan = SessionPlan {
        duration: minutes(120),
        pomodoro: Some(PomodoroPlan {
            work: minutes(25),
            short_break: minutes(5),
            long_break: minutes(15),
            cycles: 0,
            actual_cycles: 0,
        }),
    };
    assert_eq!(walk(plan), vec![]);
}

#[test]
fn cancellation_stops_the_schedule_at_once() {
    let plan = plan_session(&args("1h"), &no_defaults()).unwrap();
    let mut scheduler = Scheduler::new(plan);
    assert!(scheduler.current().is_some());
    assert_eq!(scheduler.advance(SleepOutcome::Cancelled), None);
    assert_eq!(scheduler.current(), None);
    assert_eq!(scheduler.advance(SleepOutcome::Elapsed), None);
    assert_eq!(scheduler.advance(SleepOutcome::Cancelled), None);

    let plan = plan_session(&args("2h"), &Config::default()).unwrap();
    let mut scheduler = Scheduler::new(plan);
    assert_eq!(scheduler.advance(SleepOutcome::Elapsed).unwrap().kind, IntervalKind::ShortBreak);
    assert_eq!(scheduler.advance(SleepOutcome::Cancelled), None);
    assert_eq!(scheduler.advance(SleepOutcome::Elapsed), None);
    assert_eq!(scheduler.position, 1);
}

#[test]
fn span_helpers() {
    assert_eq!(Span { secs: 125, nanos: 5 }.whole_minutes(), 2);
    assert_eq!(Span { secs: 2, nanos: 5 }.nanos_total(), 2_000_000_005);
    assert!(Span { secs: 0, nanos: 0 }.is_zero());
    assert!(!Span { secs: 0, nanos: 1 }.is_zero());
    assert!(!Span { secs: 1, nanos: 0 }.is_zero());
}
