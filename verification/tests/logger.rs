use ws_logger::config::{build_sinks, decimal_string, validate_counts};
use ws_logger::date::{stamp, today_utc};
use ws_logger::router::{classify, type_token};
use ws_logger::sink::line_record;
use ws_logger::{
    Action, Command, ConnectionConfig, CountMismatch, Date, Event, Filter, Phase,
    RotationScheduler, SinkConfig, Supervisor,
};

fn date(year: u16, month: u8, day: u8) -> Date {
    Date { year, month, day }
}

fn tokens(words: &[&str]) -> Filter {
    Filter::Tokens(words.iter().map(|w| w.to_string()).collect())
}

#[test]
fn type_token_takes_first_word() {
    assert_eq!(type_token("TRADE 50"), "TRADE");
    assert_eq!(type_token("single"), "single");
    assert_eq!(type_token("  padded out"), "padded");
    assert_eq!(type_token("a\tb"), "a");
    assert_eq!(type_token("x\ny"), "x");
}

#[test]
fn type_token_empty_cases() {
    assert_eq!(type_token(""), "");
    assert_eq!(type_token("   "), "");
    assert_eq!(type_token("\t\r\n"), "");
    assert_eq!(type_token("\u{000B}\u{000C}\u{00A0}"), "");
}

#[test]
fn type_token_splits_on_unicode_whitespace() {
    assert_eq!(type_token("\u{000B} TRADE"), "TRADE");
    assert_eq!(type_token("a\u{000C}b"), "a");
    assert_eq!(type_token("a\u{00A0}b"), "a");
    assert_eq!(type_token("\u{2003}x y"), "x");
    assert_eq!(type_token("a\u{2028}b"), "a");
    assert_eq!(type_token("a\u{3000}b"), "a");
    // matches the standard library's notion of whitespace
    for msg in ["\u{000B} TRADE", "a\u{000C}b", "a\u{00A0}b", "\u{2003}x y", "\u{1680}\u{205F}q"] {
        assert_eq!(
            type_token(msg),
            msg.split_whitespace().next().unwrap_or(""),
        );
    }
}

#[test]
fn unicode_whitespace_before_listed_token_still_matches() {
    let conn = ConnectionConfig {
        filter: tokens(&["TRADE"]),
        print_all: false,
        print_logged: true,
    };
    // the vertical tab is a separator, so the token is TRADE and listed
    assert_eq!(
        classify("\u{000B} TRADE", &conn),
        Action { to_file: true, to_console: true }
    );
    // a filter entry that is itself a separator character never matches
    let vt_filter = ConnectionConfig {
        filter: tokens(&["\u{000B}"]),
        print_all: false,
        print_logged: true,
    };
    assert_eq!(
        classify("\u{000B} TRADE", &vt_filter),
        Action { to_file: false, to_console: false }
    );
}

#[test]
fn sentinel_always_persists() {
    let conn = ConnectionConfig {
        filter: Filter::Everything,
        print_all: false,
        print_logged: false,
    };
    let a = classify("anything at all", &conn);
    assert_eq!(a, Action { to_file: true, to_console: false });
    let loud = ConnectionConfig {
        filter: Filter::Everything,
        print_all: true,
        print_logged: false,
    };
    assert_eq!(classify("", &loud), Action { to_file: true, to_console: true });
}

#[test]
fn finite_filter_matches_token() {
    let conn = ConnectionConfig {
        filter: tokens(&["TRADE", "BOOK"]),
        print_all: false,
        print_logged: true,
    };
    assert_eq!(classify("TRADE 50", &conn), Action { to_file: true, to_console: true });
    assert_eq!(classify("BOOK 1 2", &conn), Action { to_file: true, to_console: true });
    assert_eq!(classify("TICK 100", &conn), Action { to_file: false, to_console: false });
}

#[test]
fn finite_filter_unmatched_follows_print_all() {
    let conn = ConnectionConfig {
        filter: tokens(&["TRADE"]),
        print_all: true,
        print_logged: false,
    };
    assert_eq!(classify("TICK 100", &conn), Action { to_file: false, to_console: true });
    assert_eq!(classify("TRADE 50", &conn), Action { to_file: true, to_console: false });
}

#[test]
fn empty_message_matches_only_explicit_empty_entry() {
    let with_empty = ConnectionConfig {
        filter: tokens(&[""]),
        print_all: false,
        print_logged: true,
    };
    assert_eq!(classify("", &with_empty), Action { to_file: true, to_console: true });
    let without = ConnectionConfig {
        filter: tokens(&["X"]),
        print_all: false,
        print_logged: true,
    };
    assert_eq!(classify("", &without), Action { to_file: false, to_console: false });
}

#[test]
fn stamp_is_zero_padded() {
    assert_eq!(stamp(&date(2026, 1, 5)), "2026-01-05");
    assert_eq!(stamp(&date(0, 12, 31)), "0000-12-31");
    assert_eq!(stamp(&date(9999, 10, 9)), "9999-10-09");
    assert_eq!(stamp(&date(987, 6, 21)), "0987-06-21");
}

#[test]
fn from_ymd_accepts_exactly_the_stamp_range() {
    assert_eq!(Date::from_ymd(2026, 10, 12), Some(date(2026, 10, 12)));
    assert_eq!(Date::from_ymd(0, 1, 1), Some(date(0, 1, 1)));
    assert_eq!(Date::from_ymd(9999, 12, 31), Some(date(9999, 12, 31)));
    assert_eq!(Date::from_ymd(10000, 1, 1), None);
    assert_eq!(Date::from_ymd(-1, 1, 1), None);
    assert_eq!(Date::from_ymd(2026, 0, 1), None);
    assert_eq!(Date::from_ymd(2026, 13, 1), None);
    assert_eq!(Date::from_ymd(2026, 1, 0), None);
    assert_eq!(Date::from_ymd(2026, 1, 32), None);
}

#[test]
fn today_utc_is_well_formed() {
    let d = today_utc().expect("the current year fits four digits");
    assert!((1..=12).contains(&d.month));
    assert!((1..=31).contains(&d.day));
    assert!(d.year <= 9999);
}

#[test]
fn file_name_with_folder() {
    let sink = SinkConfig {
        folder: "logs".to_string(),
        prefix: "btc_".to_string(),
        extension: "log".to_string(),
    };
    assert_eq!(sink.file_name(&date(2026, 1, 5)), "logs/btc_2026-01-05.log");
}

#[test]
fn file_name_without_folder_omits_slash() {
    let sink = SinkConfig {
        folder: String::new(),
        prefix: "btc_".to_string(),
        extension: "log".to_string(),
    };
    assert_eq!(sink.file_name(&date(2026, 1, 5)), "btc_2026-01-05.log");
    let bare = SinkConfig {
        folder: String::new(),
        prefix: String::new(),
        extension: "log".to_string(),
    };
    assert_eq!(bare.file_name(&date(2026, 1, 5)), "2026-01-05.log");
}

#[test]
fn line_record_appends_one_newline() {
    assert_eq!(line_record("TRADE 50"), "TRADE 50\n");
    assert_eq!(line_record(""), "\n");
}

#[test]
fn rotation_happens_once_per_day_change() {
    let mut sched = RotationScheduler::new(date(2026, 1, 5));
    assert!(!sched.day_changed(&date(2026, 1, 5)));
    assert!(!sched.day_changed(&date(2026, 1, 5)));
    assert!(sched.day_changed(&date(2026, 1, 6)));
    assert!(!sched.day_changed(&date(2026, 1, 6)));
    assert!(sched.day_changed(&date(2026, 1, 5)));
}

#[test]
fn plan_rotation_names_every_sink() {
    let sinks = vec![
        SinkConfig {
            folder: "a".to_string(),
            prefix: "x_".to_string(),
            extension: "log".to_string(),
        },
        SinkConfig {
            folder: String::new(),
            prefix: "y_".to_string(),
            extension: "txt".to_string(),
        },
    ];
    let names = ws_logger::rotation::plan_rotation(&sinks, &date(2026, 1, 6));
    assert_eq!(names, vec!["a/x_2026-01-06.log".to_string(), "y_2026-01-06.txt".to_string()]);
}

#[test]
fn startup_counts_three_one_three_accepted() {
    assert!(validate_counts(3, 1, 3).is_ok());
}

#[test]
fn startup_counts_three_two_three_rejected() {
    let err = validate_counts(3, 2, 3).unwrap_err();
    assert_eq!(err, CountMismatch { targets: 3, folders: 2, prefixes: 3 });
    assert_eq!(err.message(), "count mismatch: 3 targets, 2 folders, 3 prefixes");
}

#[test]
fn single_target_always_accepted() {
    assert!(validate_counts(1, 4, 7).is_ok());
    assert!(validate_counts(2, 2, 1).is_ok());
    assert!(validate_counts(2, 1, 2).is_ok());
    assert!(validate_counts(2, 3, 2).is_err());
}

#[test]
fn decimal_string_exact_values() {
    assert_eq!(decimal_string(0), "0");
    assert_eq!(decimal_string(7), "7");
    assert_eq!(decimal_string(10), "10");
    assert_eq!(decimal_string(12345), "12345");
}

#[test]
fn build_sinks_broadcasts_single_folder() {
    let targets = vec!["a".to_string(), "b".to_string(), "c".to_string()];
    let folders = vec!["logs".to_string()];
    let prefixes = vec!["p1_".to_string(), "p2_".to_string(), "p3_".to_string()];
    let ext = "log".to_string();
    let sinks = build_sinks(&targets, &folders, &prefixes, &ext).unwrap();
    assert_eq!(sinks.len(), 3);
    for (i, sink) in sinks.iter().enumerate() {
        assert_eq!(sink.folder, "logs");
        assert_eq!(sink.prefix, prefixes[i]);
        assert_eq!(sink.extension, "log");
    }
}

#[test]
fn build_sinks_rejects_mismatched_counts() {
    let targets = vec!["a".to_string(), "b".to_string(), "c".to_string()];
    let folders = vec!["f1".to_string(), "f2".to_string()];
    let prefixes = vec!["p1".to_string(), "p2".to_string(), "p3".to_string()];
    let ext = "log".to_string();
    let err = build_sinks(&targets, &folders, &prefixes, &ext).unwrap_err();
    assert_eq!(err, CountMismatch { targets: 3, folders: 2, prefixes: 3 });
}

#[test]
fn supervisor_reconnect_cycle() {
    let conn = ConnectionConfig {
        filter: Filter::Everything,
        print_all: false,
        print_logged: false,
    };
    let mut sup = Supervisor::new(conn);
    assert_eq!(sup.phase, Phase::Connecting);
    assert_eq!(sup.step(Event::Opened), vec![]);
    assert_eq!(sup.phase, Phase::Connected);
    assert_eq!(sup.step(Event::Closed), vec![Command::StartDelay]);
    assert_eq!(sup.phase, Phase::Waiting);
    assert_eq!(sup.step(Event::DelayElapsed), vec![Command::OpenConnection]);
    assert_eq!(sup.phase, Phase::Connecting);
    // the cycle repeats without end: a failed handshake starts one more delay
    assert_eq!(sup.step(Event::TransportError), vec![Command::StartDelay]);
    assert_eq!(sup.step(Event::DelayElapsed), vec![Command::OpenConnection]);
    assert_eq!(sup.phase, Phase::Connecting);
}

#[test]
fn supervisor_ignores_stray_events() {
    let conn = ConnectionConfig {
        filter: Filter::Everything,
        print_all: true,
        print_logged: false,
    };
    let mut sup = Supervisor::new(conn);
    // a frame before the handshake completes does nothing
    assert_eq!(sup.step(Event::Frame("TICK 1".to_string())), vec![]);
    assert_eq!(sup.phase, Phase::Connecting);
    sup.step(Event::Opened);
    // an elapsed delay while connected does nothing
    assert_eq!(sup.step(Event::DelayElapsed), vec![]);
    assert_eq!(sup.phase, Phase::Connected);
}

#[test]
fn end_to_end_filtered_scenario() {
    let conn = ConnectionConfig {
        filter: tokens(&["TRADE"]),
        print_all: false,
        print_logged: true,
    };
    let mut sup = Supervisor::new(conn);
    assert_eq!(sup.step(Event::Opened), vec![]);
    let tick_cmds = sup.step(Event::Frame("TICK 100".to_string()));
    assert_eq!(tick_cmds, vec![]);
    let trade_cmds = sup.step(Event::Frame("TRADE 50".to_string()));
    assert_eq!(
        trade_cmds,
        vec![
            Command::AppendLine("TRADE 50".to_string()),
            Command::PrintLine("TRADE 50".to_string()),
        ]
    );
    assert_eq!(line_record("TRADE 50"), "TRADE 50\n");
}

#[test]
fn sentinel_frame_persists_and_echoes() {
    let conn = ConnectionConfig {
        filter: Filter::Everything,
        print_all: true,
        print_logged: false,
    };
    let mut sup = Supervisor::new(conn);
    sup.step(Event::Opened);
    let cmds = sup.step(Event::Frame("TICK 100".to_string()));
    assert_eq!(
        cmds,
        vec![
            Command::AppendLine("TICK 100".to_string()),
            Command::PrintLine("TICK 100".to_string()),
        ]
    );
}
