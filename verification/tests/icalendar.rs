use proxmox_misc::civil::{
    epoch_to_ics_utc, format_ics_date, local_to_ics_utc, zoned_outcome, Date, TimeError,
};
use proxmox_misc::ics::{Calendar, Event, EventStatus, EventTime, Transp};
use proxmox_misc::ics_text::{escape_ics_text, format_param_value, write_content_line};

fn date(year: i16, month: i8, day: i8) -> Date {
    Date::new(year, month, day).expect("valid date")
}

fn sample_event() -> Event {
    Event::timed(
        "evt-1",
        "Standup",
        EventTime::Utc(1_767_258_000),
        EventTime::Utc(1_767_259_800),
    )
    .with_status(EventStatus::Confirmed)
    .with_last_modified(1_767_254_400)
}

fn sample_calendar(events: Vec<Event>) -> Calendar {
    Calendar::new("-//Example//Test//EN")
        .with_uid_domain("example.com")
        .with_name("Test")
        .with_description("A test calendar")
        .with_timezone("Europe/Berlin")
        .with_events(events)
}

/// Assert `ics` uses only CRLF line breaks: every CR is followed by an LF and every LF is
/// preceded by a CR, so no bare CR or LF survives.
fn assert_crlf_framing(ics: &str) {
    let bytes = ics.as_bytes();
    for (i, &b) in bytes.iter().enumerate() {
        if b == b'\r' {
            assert!(bytes.get(i + 1) == Some(&b'\n'), "bare CR at offset {i}");
        }
        if b == b'\n' {
            assert!(i > 0 && bytes[i - 1] == b'\r', "bare LF at offset {i}");
        }
    }
}

#[test]
fn escape_ics_text_escapes_special_chars() {
    // Backslash is escaped first so the prefixes added for `;`, `,`, and a newline are not
    // themselves doubled.
    assert_eq!(escape_ics_text("a;b,c\\d\ne"), "a\\;b\\,c\\\\d\\ne");
}

#[test]
fn escape_ics_text_normalizes_carriage_returns() {
    // A CRLF-authored value must not smuggle a bare CR into the output: the CRLF collapses
    // to one LF, which escapes to the two-character `\n`. A lone CR is treated the same way.
    assert_eq!(escape_ics_text("a\r\nb"), "a\\nb");
    assert_eq!(escape_ics_text("a\rb"), "a\\nb");
    assert!(!escape_ics_text("a\r\nb").contains('\r'));
}

#[test]
fn crlf_description_serializes_without_raw_cr() {
    // A CRLF-laden DESCRIPTION escapes to `\n` and leaves no bare CR in the rendered calendar.
    let ev = Event::timed(
        "e",
        "S",
        EventTime::Utc(1_767_258_000),
        EventTime::Utc(1_767_259_800),
    )
    .with_description("line1\r\nline2")
    .with_last_modified(1_767_254_400);
    let ics = sample_calendar(vec![ev]).to_string();
    assert!(ics.contains("DESCRIPTION:line1\\nline2"));
    assert_crlf_framing(&ics);
}

#[test]
fn format_ics_date_drops_separators() {
    assert_eq!(format_ics_date(date(2026, 12, 25)), "20261225");
}

#[test]
fn epoch_to_ics_utc_formats_utc_datetime() {
    // 1_700_000_000 is 2023-11-14T22:13:20Z.
    assert_eq!(epoch_to_ics_utc(1_700_000_000), "20231114T221320Z");
}

#[test]
fn write_content_line_folds_at_75_octets() {
    // RFC 5545 3.1: no physical line exceeds 75 octets, and unfolding (drop CRLF plus the
    // leading space) restores the logical line.
    let line = format!("SUMMARY:{}", "x".repeat(200));
    let mut out = String::new();
    write_content_line(&mut out, &line);
    for phys in out.split("\r\n").filter(|s| !s.is_empty()) {
        assert!(
            phys.len() <= 75,
            "physical line {} octets: {phys}",
            phys.len()
        );
    }
    assert!(out.ends_with("\r\n"));
    let unfolded = out.trim_end_matches("\r\n").replace("\r\n ", "");
    assert_eq!(unfolded, line);
}

#[test]
fn write_content_line_never_splits_multibyte_char() {
    // 3-octet euro signs packed so a naive 75-byte cut would land mid-char; slicing at a
    // non-boundary would panic.
    let line = format!("SUMMARY:{}", "\u{20AC}".repeat(60));
    let mut out = String::new();
    write_content_line(&mut out, &line);
    for phys in out.split("\r\n").filter(|s| !s.is_empty()) {
        assert!(phys.len() <= 75, "physical line {} octets", phys.len());
    }
    let unfolded = out.trim_end_matches("\r\n").replace("\r\n ", "");
    assert_eq!(unfolded, line);
}

#[test]
fn calendar_emits_crlf_endings_only() {
    // RFC 5545 3.1: every content line ends with CRLF; no bare CR or LF survives.
    let ics = sample_calendar(vec![sample_event()]).to_string();
    assert_crlf_framing(&ics);
    assert!(ics.ends_with("\r\n"));
}

#[test]
fn every_vevent_carries_one_dtstamp() {
    // RFC 5545 3.6.1: DTSTAMP is REQUIRED in each VEVENT.
    let ics = sample_calendar(vec![sample_event(), sample_event()]).to_string();
    let vevents = ics.matches("BEGIN:VEVENT").count();
    let dtstamps = ics.matches("DTSTAMP:").count();
    assert_eq!(vevents, 2);
    assert_eq!(vevents, dtstamps, "every VEVENT needs exactly one DTSTAMP");
    assert!(ics.contains("DTSTAMP:20260101T080000Z"));
}

#[test]
fn dtstamp_defaults_to_last_modified_and_can_be_overridden() {
    let ics = sample_calendar(vec![sample_event()]).to_string();
    assert!(ics.contains("DTSTAMP:20260101T080000Z"));
    assert!(ics.contains("LAST-MODIFIED:20260101T080000Z"));

    // 1_767_225_600 is 2026-01-01T00:00:00Z.
    let ev = sample_event().with_dtstamp(1_767_225_600);
    let ics = sample_calendar(vec![ev]).to_string();
    assert!(ics.contains("DTSTAMP:20260101T000000Z"));
    assert!(ics.contains("LAST-MODIFIED:20260101T080000Z"));
}

#[test]
fn fold_round_trips_through_calendar_output() {
    // A SUMMARY past 75 octets is folded with CRLF + space and unfolds whole.
    let summary = "S".repeat(120);
    let ev = Event::timed(
        "evt-1",
        &summary,
        EventTime::Utc(1_767_258_000),
        EventTime::Utc(1_767_259_800),
    )
    .with_last_modified(1_767_254_400);
    let ics = sample_calendar(vec![ev]).to_string();
    assert!(ics.contains("\r\n "), "long SUMMARY must be folded");
    let unfolded = ics.replace("\r\n ", "");
    assert!(unfolded.contains(&format!("SUMMARY:{summary}")));
}

#[test]
fn uid_domain_is_appended_else_verbatim() {
    let with = sample_calendar(vec![sample_event()]).to_string();
    assert!(with.contains("UID:evt-1@example.com"));

    let without = Calendar::new("-//Example//Test//EN")
        .with_events(vec![sample_event()])
        .to_string();
    assert!(without.contains("UID:evt-1\r\n"));
}

#[test]
fn all_day_range_uses_value_date_params() {
    let ev = Event::all_day_range("evt-1", "Holiday", date(2026, 1, 1), date(2026, 1, 1))
        .with_status(EventStatus::Confirmed)
        .with_last_modified(1_767_254_400);
    let ics = sample_calendar(vec![ev]).to_string();
    assert!(ics.contains("DTSTART;VALUE=DATE:20260101"));
    // DTEND is the exclusive next day.
    assert!(ics.contains("DTEND;VALUE=DATE:20260102"));
}

#[test]
fn dtstart_and_dtend_select_value_param_independently() {
    // DTSTART and DTEND each tag VALUE=DATE from their own value, so a DATE start paired with a
    // DATE-TIME end never stamps VALUE=DATE onto the DATE-TIME line.
    let ev = Event::timed(
        "e",
        "S",
        EventTime::AllDay(date(2026, 1, 1)),
        EventTime::Utc(1_767_259_800),
    );
    let ics = sample_calendar(vec![ev]).to_string();
    assert!(ics.contains("DTSTART;VALUE=DATE:20260101\r\n"));
    assert!(ics.contains("DTEND:20260101T093000Z\r\n"));
}

#[test]
fn transparent_emits_transp_line_opaque_omits_it() {
    let opaque = sample_calendar(vec![sample_event()]).to_string();
    assert!(
        !opaque.contains("TRANSP:"),
        "Opaque is the default and omitted"
    );

    let ev = sample_event().with_transp(Transp::Transparent);
    let transparent = sample_calendar(vec![ev]).to_string();
    assert!(transparent.contains("TRANSP:TRANSPARENT"));
}

#[test]
fn status_emitted_only_when_set() {
    let ev = Event::timed(
        "e",
        "S",
        EventTime::Utc(1_767_258_000),
        EventTime::Utc(1_767_259_800),
    )
    .with_last_modified(1_767_254_400);
    let without = sample_calendar(vec![ev]).to_string();
    assert!(!without.contains("STATUS:"));

    let with = sample_calendar(vec![sample_event()]).to_string();
    assert!(with.contains("STATUS:CONFIRMED"));
}

#[test]
fn last_modified_emitted_only_when_set() {
    let ev = Event::timed(
        "e",
        "S",
        EventTime::Utc(1_767_258_000),
        EventTime::Utc(1_767_259_800),
    );
    let ics = sample_calendar(vec![ev]).to_string();
    assert!(!ics.contains("LAST-MODIFIED:"));
    // DTSTAMP is REQUIRED, so it still appears (falling back to the epoch).
    assert!(ics.contains("DTSTAMP:19700101T000000Z"));
}

#[test]
fn empty_calendar_renders_required_props_and_omits_optionals() {
    // Built with only a PRODID: required properties present, every optional field absent, and
    // no VEVENT (the documented empty-calendar case).
    let ics = Calendar::new("-//Example//Test//EN").to_string();
    assert!(ics.starts_with("BEGIN:VCALENDAR\r\n"));
    assert!(ics.contains("VERSION:2.0"));
    assert!(ics.ends_with("END:VCALENDAR\r\n"));
    assert!(!ics.contains("BEGIN:VEVENT"));
    assert!(!ics.contains("X-WR-CALNAME"));
    assert!(!ics.contains("X-WR-CALDESC"));
    assert!(!ics.contains("X-WR-TIMEZONE"));
    assert!(!ics.contains("\r\nNAME:"));
    assert!(!ics.contains("\r\nDESCRIPTION:"));
}

#[test]
fn calendar_emits_rfc7986_name_and_description() {
    let ics = sample_calendar(vec![]).to_string();
    assert!(ics.contains("X-WR-CALNAME:Test"));
    assert!(ics.contains("\r\nNAME:Test\r\n"));
    assert!(ics.contains("X-WR-CALDESC:A test calendar"));
    assert!(ics.contains("DESCRIPTION:A test calendar"));
}

#[test]
fn organizer_emits_cn_and_mailto_or_falls_back() {
    // With an address the ORGANIZER carries CN plus mailto; without one it falls back to the
    // non-routable invalid:nomail value rather than an empty CAL-ADDRESS.
    let with_mail = sample_event().with_organizer("Tina Lead", Some("tlead@example.com".into()));
    let ics = sample_calendar(vec![with_mail]).to_string();
    assert!(ics.contains("ORGANIZER;CN=Tina Lead:mailto:tlead@example.com"));

    let no_mail = sample_event().with_organizer("Tina Lead", None);
    let ics = sample_calendar(vec![no_mail]).to_string();
    assert!(ics.contains("ORGANIZER;CN=Tina Lead:invalid:nomail"));

    // A CN with a separator char is double-quoted so it cannot break the parameter list.
    let comma = sample_event().with_organizer("Lead, Tina", Some("t@example.com".into()));
    let ics = sample_calendar(vec![comma]).to_string();
    assert!(ics.contains("ORGANIZER;CN=\"Lead, Tina\":mailto:t@example.com"));

    // Omitted by default.
    let plain = sample_calendar(vec![sample_event()]).to_string();
    assert!(!plain.contains("ORGANIZER"));
}

#[test]
fn local_applies_dst_offset() {
    // RFC 5545 3.2/3.6.5: a local minute becomes a true UTC instant. In a Central European zone
    // 08:00 (480 min) is 06:00Z in summer (UTC+2) and 07:00Z in winter (UTC+1).
    assert_eq!(
        local_to_ics_utc(date(2026, 7, 15), 480, "Europe/Berlin").unwrap(),
        "20260715T060000Z"
    );
    assert_eq!(
        local_to_ics_utc(date(2026, 1, 15), 480, "Europe/Berlin").unwrap(),
        "20260115T070000Z"
    );
}

#[test]
fn local_midnight_never_emits_hour_24() {
    // RFC 5545 3.3.12: minute 1440 (24:00) rolls to 00:00 of the next civil day - the same
    // instant - which is 23:00Z (CET) or 22:00Z (CEST).
    let winter = local_to_ics_utc(date(2026, 1, 15), 1440, "Europe/Berlin").unwrap();
    let summer = local_to_ics_utc(date(2026, 7, 15), 1440, "Europe/Berlin").unwrap();
    assert_eq!(winter, "20260115T230000Z");
    assert_eq!(summer, "20260715T220000Z");
    assert!(
        !winter.contains("240000") && !summer.contains("240000"),
        "hour 24 must never be emitted"
    );
}

#[test]
fn local_rejects_unknown_zone() {
    assert!(matches!(
        local_to_ics_utc(date(2026, 7, 15), 480, "Mars/Olympus"),
        Err(TimeError::UnknownTimezone(_))
    ));
}

#[test]
fn local_event_time_renders_as_utc_datetime() {
    // An EventTime::Local start/end is converted DST-correctly by the serializer and emitted
    // as a bare DATE-TIME (no VALUE=DATE).
    let ev = Event::timed(
        "evt-1",
        "Half day",
        EventTime::Local {
            date: date(2026, 7, 15),
            minute_of_day: 480,
            tz: "Europe/Berlin".to_string(),
        },
        EventTime::Local {
            date: date(2026, 7, 15),
            minute_of_day: 720,
            tz: "Europe/Berlin".to_string(),
        },
    )
    .with_last_modified(1_767_254_400);
    let ics = sample_calendar(vec![ev]).to_string();
    assert!(ics.contains("DTSTART:20260715T060000Z"));
    assert!(ics.contains("DTEND:20260715T100000Z"));
    assert!(!ics.contains("VALUE=DATE"));
}

// ---------------------------------------------------------------------------------------------
// Further cases
// ---------------------------------------------------------------------------------------------

#[test]
fn escape_ics_text_keeps_plain_text() {
    assert_eq!(escape_ics_text("plain text: 42"), "plain text: 42");
    assert_eq!(escape_ics_text(""), "");
    assert_eq!(escape_ics_text("\n\r"), "\\n\\n");
}

#[test]
fn format_param_value_quotes_separators_and_drops_quotes() {
    assert_eq!(format_param_value("Tina Lead"), "Tina Lead");
    assert_eq!(format_param_value("Lead, Tina"), "\"Lead, Tina\"");
    assert_eq!(format_param_value("a;b"), "\"a;b\"");
    assert_eq!(format_param_value("x:y"), "\"x:y\"");
    assert_eq!(format_param_value("say \"hi\""), "say hi");
    assert_eq!(format_param_value("line\r\nbreak"), "linebreak");
}

#[test]
fn write_content_line_short_line_is_one_physical_line() {
    let mut out = String::from("X");
    write_content_line(&mut out, "SUMMARY:short");
    assert_eq!(out, "XSUMMARY:short\r\n");

    let mut empty = String::new();
    write_content_line(&mut empty, "");
    assert_eq!(empty, "\r\n");
}

#[test]
fn write_content_line_exact_fold_points() {
    // 75 octets fit on the first line; the 76th moves to a continuation line that starts with a
    // space and carries at most 74 further octets.
    let line = "a".repeat(75);
    let mut out = String::new();
    write_content_line(&mut out, &line);
    assert_eq!(out, format!("{line}\r\n"));

    let line = "b".repeat(76);
    let mut out = String::new();
    write_content_line(&mut out, &line);
    assert_eq!(out, format!("{}\r\n b\r\n", "b".repeat(75)));

    let line = "c".repeat(75 + 74 + 1);
    let mut out = String::new();
    write_content_line(&mut out, &line);
    assert_eq!(
        out,
        format!("{}\r\n {}\r\n c\r\n", "c".repeat(75), "c".repeat(74))
    );
}

#[test]
fn epoch_to_ics_utc_handles_epoch_and_range_ends() {
    assert_eq!(epoch_to_ics_utc(0), "19700101T000000Z");
    assert_eq!(epoch_to_ics_utc(-1), "19691231T235959Z");
    assert_eq!(epoch_to_ics_utc(951_782_400), "20000229T000000Z");
    // Outside of the supported range the value falls back to the Unix epoch.
    assert_eq!(epoch_to_ics_utc(i64::MAX), "19700101T000000Z");
    assert_eq!(epoch_to_ics_utc(i64::MIN), "19700101T000000Z");
    assert_eq!(epoch_to_ics_utc(253_402_207_200), "99991230T220000Z");
    assert_eq!(epoch_to_ics_utc(253_402_207_201), "19700101T000000Z");
}

#[test]
fn date_validates_and_steps_to_tomorrow() {
    assert!(Date::new(2026, 2, 29).is_none());
    assert!(Date::new(2024, 2, 29).is_some());
    assert!(Date::new(2026, 13, 1).is_none());
    assert!(Date::new(2026, 4, 31).is_none());
    let d = date(2026, 12, 31).tomorrow().unwrap();
    assert_eq!((d.year(), d.month(), d.day()), (2027, 1, 1));
    let d = date(2024, 2, 28).tomorrow().unwrap();
    assert_eq!((d.year(), d.month(), d.day()), (2024, 2, 29));
    assert!(date(9999, 12, 31).tomorrow().is_none());
}

#[test]
fn local_end_of_day_on_last_date_is_unresolvable() {
    match local_to_ics_utc(date(9999, 12, 31), 1440, "UTC") {
        Err(TimeError::Unresolvable(detail)) => {
            assert!(detail.starts_with("day after 9999-12-31: "), "{detail}")
        }
        other => panic!("unexpected result {other:?}"),
    }
}

#[test]
fn local_minute_is_clamped_to_end_of_day() {
    assert_eq!(
        local_to_ics_utc(date(2026, 1, 15), 5000, "Europe/Berlin").unwrap(),
        local_to_ics_utc(date(2026, 1, 16), 0, "Europe/Berlin").unwrap()
    );
}

#[test]
fn zoned_outcome_reports_each_answer() {
    match zoned_outcome(date(2026, 7, 15), 480, "Mars/Olympus", Some("not found".to_string()), Ok(0)) {
        Err(TimeError::UnknownTimezone(detail)) => assert_eq!(detail, "Mars/Olympus: not found"),
        other => panic!("unexpected result {other:?}"),
    }
    match zoned_outcome(date(2026, 7, 15), 2000, "UTC", None, Err("overflow".to_string())) {
        Err(TimeError::Unresolvable(detail)) => {
            assert_eq!(detail, "2026-07-15 1440min: overflow")
        }
        other => panic!("unexpected result {other:?}"),
    }
    assert_eq!(
        zoned_outcome(date(2026, 7, 15), 480, "UTC", None, Ok(1_700_000_000)).unwrap(),
        "20231114T221320Z"
    );
}

#[test]
fn time_error_messages() {
    assert_eq!(
        TimeError::UnknownTimezone("Mars/Olympus: x".to_string()).message(),
        "unknown time zone (Mars/Olympus: x)"
    );
    assert_eq!(
        TimeError::Unresolvable("d".to_string()).message(),
        "unresolvable civil time (d)"
    );
}

#[test]
fn event_status_keywords() {
    assert_eq!(EventStatus::Tentative.as_ics(), "TENTATIVE");
    assert_eq!(EventStatus::Confirmed.as_ics(), "CONFIRMED");
    assert_eq!(EventStatus::Cancelled.as_ics(), "CANCELLED");
}

#[test]
fn all_day_event_ends_on_the_next_day() {
    let ev = Event::all_day("hol", "Holiday", date(2026, 12, 31)).with_last_modified(0);
    let ics = Calendar::new("-//X//Y//EN").with_events(vec![ev]).to_string();
    assert!(ics.contains("DTSTART;VALUE=DATE:20261231\r\n"));
    assert!(ics.contains("DTEND;VALUE=DATE:20270101\r\n"));
}

#[test]
fn calendar_escapes_texts_and_orders_lines() {
    let ev = Event::timed("a;b", "x,y", EventTime::Utc(0), EventTime::Utc(60));
    let ics = Calendar::new("-//X//Y//EN").with_events(vec![ev]).to_string();
    assert_eq!(
        ics,
        "BEGIN:VCALENDAR\r\nVERSION:2.0\r\nPRODID:-//X//Y//EN\r\nCALSCALE:GREGORIAN\r\n\
         METHOD:PUBLISH\r\nBEGIN:VEVENT\r\nUID:a\\;b\r\nDTSTAMP:19700101T000000Z\r\n\
         SUMMARY:x\\,y\r\nDTSTART:19700101T000000Z\r\nDTEND:19700101T000100Z\r\n\
         END:VEVENT\r\nEND:VCALENDAR\r\n"
    );
}

#[test]
fn fixed_time_and_whole_day_events_render() {
    // A fixed-time event (UTC epoch seconds) and a whole-day event.
    let meeting = Event::timed(
        "evt-1",
        "Team standup",
        EventTime::Utc(1_767_258_000),
        EventTime::Utc(1_767_259_800),
    )
    .with_status(EventStatus::Confirmed);
    let holiday = Event::all_day("evt-2", "New Year", Date::constant(2026, 1, 1));

    let ics = Calendar::new("-//Proxmox//iCalendar//EN")
        .with_name("Schedule")
        .with_uid_domain("pve.example.com")
        .with_events(vec![meeting, holiday])
        .to_string();

    assert!(ics.starts_with("BEGIN:VCALENDAR\r\n"));
    assert!(ics.contains("UID:evt-1@pve.example.com\r\n"));
}

#[test]
fn wall_clock_event_renders_in_utc() {
    // 08:00 local on a Berlin summer day (CEST, UTC+2) becomes 06:00 UTC.
    let shift = Event::timed(
        "evt-3",
        "Morning shift",
        EventTime::Local {
            date: Date::constant(2026, 7, 15),
            minute_of_day: 8 * 60,
            tz: "Europe/Berlin".into(),
        },
        EventTime::Local {
            date: Date::constant(2026, 7, 15),
            minute_of_day: 16 * 60,
            tz: "Europe/Berlin".into(),
        },
    );

    let ics = Calendar::new("-//Proxmox//iCalendar//EN")
        .with_events(vec![shift])
        .to_string();
    assert!(ics.contains("DTSTART:20260715T060000Z\r\n"));
}

#[test]
fn unconvertible_wall_clock_falls_back_to_the_epoch() {
    // An unknown zone leaves no UTC instant; the serializer stays infallible and writes the epoch.
    let ev = Event::timed(
        "e",
        "S",
        EventTime::Local {
            date: Date::constant(2026, 7, 15),
            minute_of_day: 480,
            tz: "Mars/Olympus".into(),
        },
        EventTime::Utc(60),
    );
    let ics = Calendar::new("-//X//Y//EN").with_events(vec![ev]).to_string();
    assert!(ics.contains("DTSTART:19700101T000000Z\r\n"));
    assert!(ics.contains("DTEND:19700101T000100Z\r\n"));
}

#[test]
fn organizer_email_line_breaks_cannot_break_framing() {
    let ev = sample_event().with_organizer("Lead", Some("t\r\nBEGIN:VEVENT\n@example.com".into()));
    let ics = sample_calendar(vec![ev]).to_string();
    assert_crlf_framing(&ics);
    assert!(ics.contains("ORGANIZER;CN=Lead:mailto:tBEGIN:VEVENT@example.com\r\n"));
    assert_eq!(ics.matches("BEGIN:VEVENT").count(), 2);
}

#[test]
fn write_content_line_exact_multibyte_fold_points() {
    // Two-octet characters: 37 of them fill 74 octets, a 38th would pass 75.
    let line = "\u{e9}".repeat(40);
    let mut out = String::new();
    write_content_line(&mut out, &line);
    assert_eq!(out, format!("{}\r\n {}\r\n", "\u{e9}".repeat(37), "\u{e9}".repeat(3)));

    // Three-octet characters: 25 fill the first line, 24 a continuation line after its space.
    let line = "\u{20AC}".repeat(50);
    let mut out = String::new();
    write_content_line(&mut out, &line);
    assert_eq!(
        out,
        format!(
            "{}\r\n {}\r\n {}\r\n",
            "\u{20AC}".repeat(25),
            "\u{20AC}".repeat(24),
            "\u{20AC}"
        )
    );
}

#[test]
fn format_param_value_is_idempotent() {
    for value in ["Tina Lead", "Lead, Tina", "say \"hi\"; ok", "a\r\nb:c", ""] {
        let once = format_param_value(value);
        assert_eq!(format_param_value(&once), once);
    }
}

#[test]
fn local_in_utc_is_the_wall_clock_time() {
    assert_eq!(
        local_to_ics_utc(date(2026, 7, 15), 480, "UTC").unwrap(),
        "20260715T080000Z"
    );
    assert_eq!(
        local_to_ics_utc(date(2026, 7, 15), 1440, "utc").unwrap(),
        "20260716T000000Z"
    );
}
