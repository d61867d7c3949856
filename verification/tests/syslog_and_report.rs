use proxmox_misc::report::{Counters, LogLevel, Report, Style};
use proxmox_misc::syslog::{verify_journal_priority, JournalFilter, SyslogFilter, SyslogLine};
use proxmox_misc::upgrade::{DebianRelease, UpgradeCheckerBuilder};

#[test]
fn journal_priority_accepts_levels_and_ranges() {
    for value in ["", "0", "3", "7", "0..7", "2..5", "7..0"] {
        assert!(verify_journal_priority(value).is_ok(), "'{value}' refused");
    }
}

#[test]
fn journal_priority_refuses_everything_else() {
    for value in ["8", "a", "00", "0..", "..7", "0...7", "0..8", "1..2..3", " 1", "\u{0663}", "-1"] {
        let err = verify_journal_priority(value).expect_err(value);
        assert_eq!(err.value, value);
        assert_eq!(
            err.message(),
            format!("'{value}' is not a valid syslog priority, expected 0-7 or LOW..HIGH")
        );
    }
}

#[test]
fn filter_types_hold_their_fields() {
    let filter = SyslogFilter {
        start: Some(1),
        limit: Some(50),
        since: None,
        until: Some("2026-01-01 00:00:00".to_string()),
        service: Some("pveproxy".to_string()),
    };
    assert_eq!(filter.limit, Some(50));
    let line = SyslogLine { n: 7, t: "hello".to_string() };
    assert_eq!((line.n, line.t.as_str()), (7, "hello"));
    let journal = JournalFilter {
        since: None,
        until: None,
        lastentries: Some(10),
        startcursor: None,
        endcursor: None,
        priority: Some("0..3".to_string()),
        structured: false,
        service: None,
        unit: None,
        kernel: true,
        identifiers: false,
        units: false,
    };
    assert!(verify_journal_priority(journal.priority.as_deref().unwrap()).is_ok());
}

#[test]
fn report_headers_are_separated_after_the_first() {
    let mut r = Report::new();
    assert_eq!(r.header("FIRST"), "= FIRST =\n\n");
    assert_eq!(r.header("SECOND"), "\n= SECOND =\n\n");
}

#[test]
fn report_lines_count_by_level() {
    let mut r = Report::new();
    assert_eq!(
        r.log_line(LogLevel::Pass, "ok"),
        (Style::Green, "PASS: ok\n".to_string())
    );
    assert_eq!(
        r.log_line(LogLevel::Info, "note"),
        (Style::Plain, "INFO: note\n".to_string())
    );
    assert_eq!(
        r.log_line(LogLevel::Skip, "s"),
        (Style::Plain, "SKIP: s\n".to_string())
    );
    assert_eq!(
        r.log_line(LogLevel::Notice, "n"),
        (Style::WhiteBold, "NOTICE: n\n".to_string())
    );
    assert_eq!(
        r.log_line(LogLevel::Warn, "w"),
        (Style::Yellow, "WARN: w\n".to_string())
    );
    assert_eq!(
        r.log_line(LogLevel::Fail, "f"),
        (Style::RedBold, "FAIL: f\n".to_string())
    );
    r.log_line(LogLevel::Pass, "again");
    assert_eq!(
        r.counters,
        Counters { pass: 2, skip: 1, notice: 1, warn: 1, fail: 1 }
    );
}

#[test]
fn report_summary_with_failures() {
    let mut r = Report::new();
    r.header("CHECKS");
    r.log_line(LogLevel::Pass, "a");
    r.log_line(LogLevel::Warn, "b");
    r.log_line(LogLevel::Fail, "c");
    r.log_line(LogLevel::Info, "d");
    let pieces = r.summary();
    let expected: Vec<(Style, String)> = vec![
        (Style::Plain, "\n= SUMMARY =\n\n".to_string()),
        (Style::Plain, "TOTAL:     3\n".to_string()),
        (Style::Green, "PASSED:    1\n".to_string()),
        (Style::Plain, "SKIPPED:   0\n".to_string()),
        (Style::Plain, "NOTICE:    0\n".to_string()),
        (Style::Yellow, "WARNINGS:  1\n".to_string()),
        (Style::RedBold, "FAILURES:  1\n".to_string()),
        (
            Style::RedBold,
            "\nATTENTION: Please check the output for detailed information!\n".to_string(),
        ),
        (
            Style::RedBold,
            "Try to solve the problems one at a time and rerun this checklist tool again.\n"
                .to_string(),
        ),
    ];
    assert_eq!(pieces, expected);
}

#[test]
fn report_summary_all_passed() {
    let mut r = Report::new();
    r.log_line(LogLevel::Pass, "a");
    r.log_line(LogLevel::Skip, "b");
    let pieces = r.summary();
    assert_eq!(pieces.len(), 5);
    assert_eq!(pieces[0], (Style::Plain, "= SUMMARY =\n\n".to_string()));
    assert_eq!(pieces[1], (Style::Plain, "TOTAL:     2\n".to_string()));
}

#[test]
fn report_summary_warnings_only() {
    let mut r = Report::new();
    r.log_line(LogLevel::Warn, "a");
    let pieces = r.summary();
    assert_eq!(pieces.len(), 7);
    assert_eq!(
        pieces[6],
        (
            Style::Yellow,
            "\nATTENTION: Please check the output for detailed information!\n".to_string()
        )
    );
}

#[test]
fn checker_summary_reports_its_lines() {
    let mut checker = UpgradeCheckerBuilder::new("bookworm", "trixie", "pve-manager", 8, 4, 1, "8.4.1")
        .build(Some(DebianRelease::Trixie));
    checker.output.log_line(LogLevel::Pass, "x");
    checker.output.log_line(LogLevel::Notice, "y");
    let pieces = checker.summary();
    assert_eq!(pieces[1].1, "TOTAL:     2\n");
    assert!(!checker.output.first_header);
}
