use std::sync::Arc;

use nyanpasu_core::io::error::{IoError, IoKind};
use nyanpasu_core::log::clock::{parse_rfc3339_ms, Moment, Reading};
use nyanpasu_core::log::frame::strip_ansi;
use nyanpasu_core::log::other::premium_unix_ms;
use nyanpasu_core::log::parser::{error_summary, format_tail, LogParser};
use nyanpasu_core::log_sink::{
    add_file, after_batch, canonical_dir, encode_entry, file_name, file_path, log_dir, next_index,
    parse_index, prune, push_received, removal_result, wants_more, DrainStep, Entry, Received,
    RecordStep, SinkOptions, Writer,
};
use nyanpasu_core::metadata::kind::ClashCoreKind;
use nyanpasu_core::metadata::log::{LogField, LogFrame, LogLevel, LogStream};

fn observed(value: &str) -> Moment {
    Moment::from_rfc3339(value).unwrap()
}

fn parse_one(kind: ClashCoreKind, stream: LogStream, line: &str) -> LogFrame {
    let mut parser = LogParser::new(kind, 7);
    let mut frames = parser
        .push_at(stream, line.to_owned(), observed("2026-07-29T00:17:27+08:00"))
        .into_iter()
        .flatten()
        .collect::<Vec<_>>();
    frames.extend(parser.finish().into_iter().flatten());
    assert_eq!(frames.len(), 1, "expected exactly one parsed frame");
    frames.remove(0)
}

#[test]
fn parses_mihomo_logfmt_with_structured_fields() {
    let frame = parse_one(
        ClashCoreKind::Mihomo,
        LogStream::Stdout,
        r#"time="2026-07-29T00:16:22+08:00" level=warning msg="say \"hello\"" request=7"#,
    );
    assert_eq!(frame.level, LogLevel::Warning);
    assert_eq!(frame.message, r#"say "hello""#);
    assert_eq!(
        frame.timestamp.as_ref().unwrap().raw,
        "2026-07-29T00:16:22+08:00"
    );
    assert_eq!(
        frame.fields,
        [LogField {
            key: "request".into(),
            value: "7".into()
        }]
    );
}

#[test]
fn strips_ansi_before_parsing_meow() {
    let frame = parse_one(
        ClashCoreKind::Meow,
        LogStream::Stdout,
        "\u{1b}[2m2026-07-28T16:16:26.616489Z\u{1b}[0m \u{1b}[32m INFO\u{1b}[0m \u{1b}[2mmeow\u{1b}[0m\u{1b}[2m:\u{1b}[0m started",
    );
    assert_eq!(frame.level, LogLevel::Info);
    assert_eq!(frame.target.as_deref(), Some("meow"));
    assert_eq!(frame.message, "started");
    assert!(!frame.raw.contains('\u{1b}'));
}

#[test]
fn parses_clash_rs_source_and_message() {
    let frame = parse_one(
        ClashCoreKind::ClashRust,
        LogStream::Stdout,
        r"26-07-29 00:16:35:093078 ERROR clash-lib\src\lib.rs:445: failed at config.yaml:3",
    );
    assert_eq!(frame.level, LogLevel::Error);
    assert_eq!(frame.target.as_deref(), Some(r"clash-lib\src\lib.rs:445"));
    assert_eq!(frame.message, "failed at config.yaml:3");
}

#[test]
fn premium_fatal_holds_following_stack_lines_until_finish() {
    let mut parser = LogParser::new(ClashCoreKind::ClashPremium, 1);
    let at = observed("2026-07-29T00:17:27+08:00");
    for line in [
        "00:17:26 FTL [Config] parse config failed error=bad",
        "goroutine 1 [running]:",
        "main.main()",
    ] {
        assert!(parser
            .push_at(LogStream::Stdout, line.to_owned(), at)
            .into_iter()
            .flatten()
            .next()
            .is_none());
    }
    let frame = parser.finish().into_iter().flatten().next().unwrap();
    assert_eq!(frame.level, LogLevel::Fatal);
    assert_eq!(frame.target.as_deref(), Some("Config"));
    assert!(frame
        .message
        .contains("goroutine 1 [running]:\nmain.main()"));
}

#[test]
fn diagnostic_summary_prefers_the_latest_highest_severity() {
    let warning = parse_one(ClashCoreKind::Meow, LogStream::Stderr, "warning: first");
    let error = parse_one(ClashCoreKind::ClashRust, LogStream::Stderr, "Error: second");
    let latest_error = parse_one(ClashCoreKind::ClashRust, LogStream::Stderr, "Error: third");
    assert_eq!(
        error_summary(&[warning, error, latest_error]).as_deref(),
        Some("Error: third")
    );
}

#[test]
fn timestamps_are_instants() {
    assert_eq!(parse_rfc3339_ms("1970-01-01T00:00:01+00:00"), Some(1000));
    assert_eq!(parse_rfc3339_ms("1970-01-01T08:00:01+08:00"), Some(1000));
    assert_eq!(parse_rfc3339_ms("yesterday"), None);
    let clash_rs = parse_one(
        ClashCoreKind::ClashRust,
        LogStream::Stdout,
        r"26-07-29 00:16:35:093078 ERROR clash-lib\src\lib.rs:445: x",
    );
    assert_eq!(
        clash_rs.timestamp.unwrap().unix_ms,
        parse_rfc3339_ms("2026-07-29T00:16:35.093+08:00")
    );
}

#[test]
fn premium_times_belong_to_the_day_before_where_they_lie_ahead() {
    let mut parser = LogParser::new(ClashCoreKind::ClashPremium, 1);
    let at = observed("2026-07-29T00:00:05+08:00");
    let mut frames: Vec<LogFrame> = parser
        .push_at(LogStream::Stdout, "23:59:59 INF [Config] ready".to_owned(), at)
        .into_iter()
        .flatten()
        .collect();
    frames.extend(parser.finish().into_iter().flatten());
    assert_eq!(
        frames[0].timestamp.as_ref().unwrap().unix_ms,
        parse_rfc3339_ms("2026-07-28T23:59:59+08:00")
    );
}

#[test]
fn premium_times_go_on_to_the_next_day() {
    let mut parser = LogParser::new(ClashCoreKind::ClashPremium, 1);
    let at = observed("2026-07-31T23:59:55+08:00");
    let mut frames: Vec<LogFrame> = Vec::new();
    for line in ["23:59:54 INF [Config] one", "00:00:03 INF [Config] two"] {
        frames.extend(parser.push_at(LogStream::Stdout, line.to_owned(), at).into_iter().flatten());
    }
    frames.extend(parser.finish().into_iter().flatten());
    let times: Vec<_> =
        frames.iter().map(|frame| frame.timestamp.as_ref().unwrap().unix_ms).collect();
    assert_eq!(
        times,
        vec![
            parse_rfc3339_ms("2026-07-31T23:59:54+08:00"),
            parse_rfc3339_ms("2026-08-01T00:00:03+08:00"),
        ]
    );
}

#[test]
fn premium_times_end_with_the_calendar() {
    let first = -95_746_129;
    let last = 95_745_399;
    let at = |days: i32, secs: u32, offset: i32| Moment { unix_ms: 0, days, secs, nanos: 0, offset };
    let told = |days: i32, secs: u32| Some(Reading { days, secs, nanos: 0 });

    let mut clock = told(last, 86_399);
    assert_eq!(premium_unix_ms((0, 0), at(last, 0, 0), &mut clock), None);
    assert_eq!(clock, told(last, 86_399));
    let mut clock = told(last - 1, 86_399);
    assert_eq!(
        premium_unix_ms((0, 0), at(last, 0, 0), &mut clock),
        Some((95_745_399 - 719_163) * 86_400_000)
    );
    assert_eq!(premium_unix_ms((86_399, 0), at(first, 0, 0), &mut None), None);
    assert!(premium_unix_ms((86_399, 0), at(first + 1, 0, 0), &mut None).is_some());

    assert_eq!(premium_unix_ms((0, 0), at(first, 0, 1), &mut None), None);
    assert!(premium_unix_ms((0, 0), at(first, 0, 0), &mut None).is_some());
    assert_eq!(premium_unix_ms((86_399, 0), at(last, 86_399, -1), &mut None), None);
    assert_eq!(
        premium_unix_ms((86_399, 1_999_000_000), at(last, 86_399, 0), &mut None),
        Some((95_745_399 - 719_163) * 86_400_000 + 86_399_000 + 1_999)
    );
    assert_eq!(premium_unix_ms((0, 1_000_000_000), at(719_163, 0, 0), &mut None), None);
    assert_eq!(premium_unix_ms((0, 0), at(719_163, 0, 86_400), &mut None), None);
    assert_eq!(premium_unix_ms((0, 0), at(719_163, 0, -3_600), &mut None), Some(3_600_000));
}

#[test]
fn escapes_are_taken_out_and_other_text_is_kept() {
    assert_eq!(strip_ansi("\u{1b}[31mred\u{1b}[0m".to_owned()), "red");
    assert_eq!(strip_ansi("plain [31m".to_owned()), "plain [31m");
}

#[test]
fn tails_name_the_stream_and_the_level() {
    let frame = parse_one(ClashCoreKind::ClashRust, LogStream::Stderr, "Error: x");
    assert!(format_tail(&[frame]).contains("Error: x"));
    assert_eq!(format_tail::<LogFrame>(&[]), "");
    assert_eq!(error_summary::<LogFrame>(&[]), None);
}

fn frame(epoch: u64, message: &str) -> Arc<LogFrame> {
    Arc::new(LogFrame {
        at: 1,
        epoch,
        kind: ClashCoreKind::Mihomo,
        stream: LogStream::Stdout,
        level: LogLevel::Info,
        timestamp: None,
        target: None,
        message: message.into(),
        fields: Vec::new(),
        raw: message.into(),
        truncated: false,
    })
}

#[test]
fn gap_and_log_records_are_distinguishable() {
    let log = encode_entry(&Entry::Log(frame(1, "hello")), 5);
    let gap = encode_entry(&Entry::Gap(4), 5);
    assert!(log.contains("\"t\":\"log\""));
    assert!(gap.contains("\"t\":\"gap\""));
}

#[test]
fn records_are_lines_of_json() {
    let log = encode_entry(&Entry::Log(frame(3, "a \"b\"\n\u{1}")), 5);
    assert!(log.ends_with('\n') && log.matches('\n').count() == 1, "{log}");
    let parsed: serde_json::Value = serde_json::from_str(&log).unwrap();
    assert_eq!(parsed["epoch"].as_u64(), Some(3));
    assert_eq!(parsed["message"].as_str(), Some("a \"b\"\n\u{1}"));
    let gap: serde_json::Value = serde_json::from_str(&encode_entry(&Entry::Gap(4), 5)).unwrap();
    assert_eq!(gap["at"].as_i64(), Some(5));
}

#[test]
fn archived_texts_escape_what_json_cannot_hold() {
    let log = encode_entry(&Entry::Log(frame(3, "\"\\/\n\r\t\u{8}\u{c}\u{0}\u{1f}\u{7f}\u{e9}")), 5);
    assert!(
        log.contains("\"message\":\"\\\"\\\\/\\n\\r\\t\\b\\f\\u0000\\u001f\u{7f}\u{e9}\""),
        "{log}"
    );
    let one = encode_entry(&Entry::Log(frame(3, "\n")), 5);
    let two = encode_entry(&Entry::Log(frame(3, "\\n")), 5);
    assert_ne!(one, two);
}

#[test]
fn clash_rs_dates_are_days_of_the_calendar() {
    let at = |date: &str| {
        let line = format!(r"{date} 12:00:00:000000 ERROR clash-lib\src\lib.rs:445: x");
        parse_one(ClashCoreKind::ClashRust, LogStream::Stdout, &line).timestamp.unwrap().unix_ms
    };
    assert_eq!(at("24-02-29"), parse_rfc3339_ms("2024-02-29T12:00:00+08:00"));
    assert_eq!(at("99-12-31"), parse_rfc3339_ms("2099-12-31T12:00:00+08:00"));
    assert_eq!(at("23-02-29"), None);
    assert_eq!(at("23-13-01"), None);
}

#[test]
fn rotation_retains_only_the_budgeted_files() {
    let options = SinkOptions { max_bytes: 80, max_files: 2 };
    let mut writer = Writer::open(options, 1);
    let mut files: Vec<(u64, String)> = Vec::new();
    add_file(&mut files, 1, file_name(1));
    for epoch in 1..=10u64 {
        let record = encode_entry(&Entry::Log(frame(epoch, "a moderately long record")), 0);
        if writer.accept(record.len() as u64) == RecordStep::Rotate {
            let active = file_name(writer.index);
            add_file(&mut files, writer.index, active.clone());
            for path in prune(&files, &active, options.max_files) {
                files.retain(|f| f.1 != path);
            }
        }
        writer.flushed();
    }
    assert_eq!(writer.index, 10);
    assert!(files.len() <= 2, "{files:?}");
    assert_eq!(next_index(&files), files.last().unwrap().0 + 1);
}

#[test]
fn the_active_file_is_known_by_its_path() {
    let files = vec![(1, "/run/logs/a".to_owned()), (2, "/run/logs/b".to_owned())];
    assert_eq!(prune(&files, "/run//logs/a", 1), Vec::<String>::new());
    assert_eq!(prune(&files, "/run/logs/b", 1), ["/run/logs/a"]);
}

#[test]
fn archives_are_named_by_their_index() {
    assert_eq!(parse_index(&file_name(12)), Some(12));
    assert_eq!(parse_index("notes.txt"), None);
    assert_eq!(next_index(&Vec::new()), 1);
    assert!(file_path("/run/logs", 3).ends_with(&file_name(3)));
    assert!(log_dir("/run").starts_with("/run"));
    assert!(canonical_dir(None).is_err());
    assert_eq!(canonical_dir(Some("/run/logs".into())).unwrap(), "/run/logs");
}

#[test]
fn lost_records_become_gaps() {
    let mut batch: Vec<Entry> = Vec::new();
    assert!(!push_received(Received::Lagged(3), &mut batch));
    assert!(!push_received(Received::Frame(frame(1, "x")), &mut batch));
    assert!(matches!(batch[0], Entry::Gap(3)));
    assert!(wants_more(&batch));
    assert!(push_received(Received::Closed, &mut batch));
    assert!(matches!(after_batch(&batch, false, false), DrainStep::Stop));
}

#[test]
fn files_that_are_gone_need_no_removal() {
    let gone = IoError::new(IoKind::NotFound, "gone".into());
    assert!(removal_result(Err(gone)).is_ok());
    let denied = IoError::new(IoKind::PermissionDenied, "no".into());
    assert!(removal_result(Err(denied)).is_err());
}
