//! Properties of every serialized calendar: RFC 5545 line framing and line length.
use vstd::prelude::*;

use crate::civil::{
    date_text, decimal, digit, is_utc_text_of, is_zoned_text_of, pad_int, pad_nat, utc_text,
    zeros, CivilDate, UtcDateTime,
};
use crate::ics::{
    all_day_end, calendar_text, dtstamp_epoch, event_detail_lines, event_head_lines, event_lines,
    event_tail_lines, event_texts_ok, events_text, header_lines, is_end_text, is_start_text,
    lines_text, opt_line, organizer_address, strip_line_breaks, uid_text, value_param, CalendarView, EventTexts,
    EventTime, EventView, Transp,
};
use crate::ics_text::{
    content_line, crlf, escape_text, fold_segments, lemma_content_line_octets,
    lemma_escape_text_has_no_line_breaks, lemma_param_value_is_safe, param_value,
    terminate_lines, MAX_LINE_OCTETS,
};
use crate::text::octets;

verus! {

/// Whether `s` holds neither a carriage return nor a line feed.
pub open spec fn clean(s: Seq<char>) -> bool {
    forall|i: int| 0 <= i < s.len() ==> #[trigger] s[i] != '\r' && s[i] != '\n'
}

pub(crate) proof fn lemma_clean_iff(s: Seq<char>)
    ensures
        clean(s) <==> (!s.contains('\r') && !s.contains('\n')),
{
    if !clean(s) {
        let i = choose|i: int| 0 <= i < s.len() && !(s[i] != '\r' && s[i] != '\n');
        assert(s.contains(s[i]));
    }
}

proof fn lemma_clean_concat(a: Seq<char>, b: Seq<char>)
    ensures
        clean(a + b) <==> clean(a) && clean(b),
{
    if clean(a + b) {
        assert forall|i: int| 0 <= i < a.len() implies a[i] != '\r' && a[i] != '\n' by {
            assert((a + b)[i] == a[i]);
        }
        assert forall|i: int| 0 <= i < b.len() implies b[i] != '\r' && b[i] != '\n' by {
            assert((a + b)[a.len() + i] == b[i]);
        }
    }
    if clean(a) && clean(b) {
        assert forall|i: int| 0 <= i < (a + b).len() implies (a + b)[i] != '\r' && (a + b)[i]
            != '\n' by {
            if i < a.len() {
                assert((a + b)[i] == a[i]);
            } else {
                assert((a + b)[i] == b[i - a.len()]);
            }
        }
    }
}

/// Whether every character of `s` is an ASCII digit.
spec fn all_digits(s: Seq<char>) -> bool {
    forall|i: int| 0 <= i < s.len() ==> '0' <= #[trigger] s[i] <= '9'
}

proof fn lemma_digits_clean(s: Seq<char>)
    requires
        all_digits(s),
    ensures
        clean(s),
{
    assert forall|i: int| 0 <= i < s.len() implies s[i] != '\r' && s[i] != '\n' by {
        assert('0' <= s[i] <= '9');
    }
}

proof fn lemma_decimal_digits(v: nat)
    ensures
        all_digits(decimal(v)),
    decreases v,
{
    if v < 10 {
        assert(digit(v as int) == (48 + v) as char);
        assert(decimal(v)[0] == digit(v as int));
    } else {
        lemma_decimal_digits(v / 10);
        let d = decimal(v / 10);
        let last = digit((v % 10) as int);
        assert('0' <= last <= '9');
        assert forall|i: int| 0 <= i < decimal(v).len() implies '0' <= #[trigger] decimal(v)[i]
            <= '9' by {
            if i < d.len() {
                assert(decimal(v)[i] == d[i]);
            } else {
                assert(decimal(v)[i] == last);
            }
        }
    }
}

proof fn lemma_pad_nat_digits(v: nat, w: nat)
    ensures
        all_digits(pad_nat(v, w)),
{
    lemma_decimal_digits(v);
    let d = decimal(v);
    if d.len() < w {
        let z = zeros((w - d.len()) as nat);
        assert forall|i: int| 0 <= i < (z + d).len() implies '0' <= #[trigger] (z + d)[i]
            <= '9' by {
            if i < z.len() {
                assert((z + d)[i] == '0');
            } else {
                assert((z + d)[i] == d[i - z.len()]);
            }
        }
    }
}

proof fn lemma_pad_int_clean(n: int, w: nat)
    ensures
        clean(pad_int(n, w)),
{
    if n < 0 {
        let w1: nat = if w >= 1 {
            (w - 1) as nat
        } else {
            0
        };
        lemma_pad_nat_digits((-n) as nat, w1);
        lemma_digits_clean(pad_nat((-n) as nat, w1));
        lemma_clean_concat(seq!['-'], pad_nat((-n) as nat, w1));
    } else {
        lemma_pad_nat_digits(n as nat, w);
        lemma_digits_clean(pad_nat(n as nat, w));
    }
}

proof fn lemma_date_text_clean(d: CivilDate)
    ensures
        clean(date_text(d)),
{
    lemma_pad_int_clean(d.year, 4);
    lemma_pad_int_clean(d.month, 2);
    lemma_pad_int_clean(d.day, 2);
    lemma_clean_concat(pad_int(d.year, 4), pad_int(d.month, 2));
    lemma_clean_concat(pad_int(d.year, 4) + pad_int(d.month, 2), pad_int(d.day, 2));
}

proof fn lemma_utc_text_clean(dt: UtcDateTime)
    ensures
        clean(utc_text(dt)),
{
    lemma_date_text_clean(dt.date());
    lemma_pad_int_clean(dt.hour as int, 2);
    lemma_pad_int_clean(dt.minute as int, 2);
    lemma_pad_int_clean(dt.second as int, 2);
    let a = date_text(dt.date());
    let b = a + seq!['T'];
    let c = b + pad_int(dt.hour as int, 2);
    let d = c + pad_int(dt.minute as int, 2);
    let e = d + pad_int(dt.second as int, 2);
    lemma_clean_concat(a, seq!['T']);
    lemma_clean_concat(b, pad_int(dt.hour as int, 2));
    lemma_clean_concat(c, pad_int(dt.minute as int, 2));
    lemma_clean_concat(d, pad_int(dt.second as int, 2));
    lemma_clean_concat(e, seq!['Z']);
}

proof fn lemma_utc_text_of_clean(epoch: int, t: Seq<char>)
    requires
        is_utc_text_of(epoch, t),
    ensures
        clean(t),
{
    if crate::civil::epoch_in_range(epoch) {
        let dt = choose|dt: UtcDateTime|
            #![trigger dt.epoch_seconds()]
            dt.is_valid() && dt.epoch_seconds() == epoch && t == utc_text(dt);
        lemma_utc_text_clean(dt);
    } else {
        lemma_utc_text_clean(crate::civil::unix_epoch());
    }
}

proof fn lemma_start_text_clean(time: EventTime, t: Seq<char>)
    requires
        is_start_text(time, t),
    ensures
        clean(t),
{
    match time {
        EventTime::AllDay(d) => lemma_date_text_clean(d@),
        EventTime::Utc(e) => lemma_utc_text_of_clean(e as int, t),
        EventTime::Local { date, minute_of_day, tz } => {
            if is_zoned_text_of(date@, minute_of_day as int, t) {
                let (d, m) = crate::civil::wall_clock(date@, minute_of_day as int);
                let e = choose|e: int|
                    #![trigger is_utc_text_of(e, t)]
                    crate::civil::epoch_in_range(e) && crate::civil::wall_clock_seconds(d, m)
                        - crate::civil::max_offset_seconds() <= e <= crate::civil::wall_clock_seconds(
                        d,
                        m,
                    ) + crate::civil::max_offset_seconds() && is_utc_text_of(e, t);
                lemma_utc_text_of_clean(e, t);
            } else {
                lemma_utc_text_of_clean(0, t);
            }
        },
    }
}

proof fn lemma_end_text_clean(time: EventTime, t: Seq<char>)
    requires
        is_end_text(time, t),
    ensures
        clean(t),
{
    match time {
        EventTime::AllDay(d) => lemma_date_text_clean(all_day_end(d@)),
        _ => lemma_start_text_clean(time, t),
    }
}

/// Whether every line of `ls` is clean.
pub open spec fn all_clean(ls: Seq<Seq<char>>) -> bool {
    forall|i: int| 0 <= i < ls.len() ==> clean(#[trigger] ls[i])
}

proof fn lemma_escaped_line_clean(prefix: Seq<char>, text: Seq<char>)
    requires
        clean(prefix),
    ensures
        clean(prefix + escape_text(text)),
{
    lemma_escape_text_has_no_line_breaks(text);
    lemma_clean_iff(escape_text(text));
    lemma_clean_concat(prefix, escape_text(text));
}

proof fn lemma_clean3(a: Seq<char>, b: Seq<char>, c: Seq<char>)
    requires
        clean(a),
        clean(b),
        clean(c),
    ensures
        clean(a + b + c),
{
    lemma_clean_concat(a, b);
    lemma_clean_concat(a + b, c);
}

proof fn lemma_all_clean_concat(a: Seq<Seq<char>>, b: Seq<Seq<char>>)
    requires
        all_clean(a),
        all_clean(b),
    ensures
        all_clean(a + b),
{
    assert forall|i: int| 0 <= i < (a + b).len() implies clean(#[trigger] (a + b)[i]) by {
        if i < a.len() {
            assert((a + b)[i] == a[i]);
        } else {
            assert((a + b)[i] == b[i - a.len()]);
        }
    }
}

proof fn lemma_strip_line_breaks_clean(s: Seq<char>)
    ensures
        clean(strip_line_breaks(s)),
    decreases s.len(),
{
    if s.len() > 0 {
        lemma_strip_line_breaks_clean(s.drop_last());
        let r = strip_line_breaks(s.drop_last());
        if !(s.last() == '\r' || s.last() == '\n') {
            assert forall|i: int| 0 <= i < r.push(s.last()).len() implies #[trigger] r.push(
                s.last(),
            )[i] != '\r' && r.push(s.last())[i] != '\n' by {
                if i < r.len() {
                    assert(r.push(s.last())[i] == r[i]);
                }
            }
        }
    }
}

proof fn lemma_time_line_clean(keyword: Seq<char>, time: EventTime, text: Seq<char>)
    requires
        clean(keyword),
        clean(text),
    ensures
        clean(keyword + value_param(time) + ":"@ + text),
{
    reveal_strlit(":");
    reveal_strlit(";VALUE=DATE");
    reveal_strlit("");
    assert(clean(value_param(time)));
    lemma_clean3(keyword, value_param(time), ":"@);
    lemma_clean_concat(keyword + value_param(time) + ":"@, text);
}

proof fn lemma_event_head_clean(uid_domain: Option<Seq<char>>, ev: EventView, t: EventTexts)
    requires
        event_texts_ok(ev, t),
    ensures
        all_clean(event_head_lines(uid_domain, ev, t)),
{
    reveal_strlit("BEGIN:VEVENT");
    reveal_strlit("UID:");
    reveal_strlit("DTSTAMP:");
    reveal_strlit("SUMMARY:");
    reveal_strlit("DTSTART");
    reveal_strlit("DTEND");
    lemma_utc_text_of_clean(crate::ics::dtstamp_epoch(ev), t.dtstamp@);
    lemma_start_text_clean(ev.start, t.start@);
    lemma_end_text_clean(ev.end, t.end@);
    lemma_escaped_line_clean("UID:"@, uid_text(uid_domain, ev.uid));
    lemma_clean_concat("DTSTAMP:"@, t.dtstamp@);
    lemma_escaped_line_clean("SUMMARY:"@, ev.summary);
    lemma_time_line_clean("DTSTART"@, ev.start, t.start@);
    lemma_time_line_clean("DTEND"@, ev.end, t.end@);
    let head = event_head_lines(uid_domain, ev, t);
    assert forall|i: int| 0 <= i < head.len() implies clean(#[trigger] head[i]) by {
        if i == 0 {
        } else if i == 1 {
        } else if i == 2 {
        } else if i == 3 {
        } else if i == 4 {
        } else {
        }
    }
}

proof fn lemma_event_detail_clean(ev: EventView)
    ensures
        all_clean(event_detail_lines(ev)),
{
    reveal_strlit("DESCRIPTION:");
    reveal_strlit("STATUS:");
    reveal_strlit("TENTATIVE");
    reveal_strlit("CONFIRMED");
    reveal_strlit("CANCELLED");
    reveal_strlit("ORGANIZER;CN=");
    reveal_strlit(":");
    reveal_strlit("mailto:");
    reveal_strlit("invalid:nomail");
    reveal_strlit("TRANSP:TRANSPARENT");
    match ev.description {
        Some(d) => lemma_escaped_line_clean("DESCRIPTION:"@, d),
        None => {},
    }
    match ev.status {
        Some(st) => {
            assert(clean(st.keyword()));
            lemma_clean_concat("STATUS:"@, st.keyword());
        },
        None => {},
    }
    match ev.organizer {
        Some((cn, email)) => {
            lemma_param_value_is_safe(cn);
            lemma_clean_iff(param_value(cn));
            let addr = organizer_address(email);
            match email {
                Some(m) => {
                    lemma_strip_line_breaks_clean(m);
                    lemma_clean_concat("mailto:"@, strip_line_breaks(m));
                },
                None => {},
            }
            lemma_clean3("ORGANIZER;CN="@, param_value(cn), ":"@);
            lemma_clean_concat("ORGANIZER;CN="@ + param_value(cn) + ":"@, addr);
        },
        None => {},
    }
    let d0 = opt_line(
        match ev.description {
            Some(d) => Some("DESCRIPTION:"@ + escape_text(d)),
            None => None,
        },
    );
    let d1 = opt_line(
        match ev.status {
            Some(st) => Some("STATUS:"@ + st.keyword()),
            None => None,
        },
    );
    let d2 = opt_line(
        match ev.organizer {
            Some((cn, email)) => Some(
                "ORGANIZER;CN="@ + param_value(cn) + ":"@ + organizer_address(email),
            ),
            None => None,
        },
    );
    let d3 = opt_line(
        if ev.transp == Transp::Transparent {
            Some("TRANSP:TRANSPARENT"@)
        } else {
            None
        },
    );
    lemma_all_clean_concat(d0, d1);
    lemma_all_clean_concat(d0 + d1, d2);
    lemma_all_clean_concat(d0 + d1 + d2, d3);
}

proof fn lemma_event_tail_clean(ev: EventView, t: EventTexts)
    requires
        event_texts_ok(ev, t),
    ensures
        all_clean(event_tail_lines(t)),
{
    reveal_strlit("LAST-MODIFIED:");
    reveal_strlit("END:VEVENT");
    match t.last_modified {
        Some(x) => {
            match ev.last_modified {
                Some(e) => lemma_utc_text_of_clean(e as int, x@),
                None => {},
            }
            lemma_clean_concat("LAST-MODIFIED:"@, x@);
        },
        None => {},
    }
    let t0 = opt_line(
        match t.last_modified {
            Some(x) => Some("LAST-MODIFIED:"@ + x@),
            None => None,
        },
    );
    assert(all_clean(seq!["END:VEVENT"@]));
    lemma_all_clean_concat(t0, seq!["END:VEVENT"@]);
}

pub(crate) proof fn lemma_event_lines_clean(uid_domain: Option<Seq<char>>, ev: EventView, t: EventTexts)
    requires
        event_texts_ok(ev, t),
    ensures
        all_clean(event_lines(uid_domain, ev, t)),
{
    lemma_event_head_clean(uid_domain, ev, t);
    lemma_event_detail_clean(ev);
    lemma_event_tail_clean(ev, t);
    let head = event_head_lines(uid_domain, ev, t);
    lemma_all_clean_concat(head, event_detail_lines(ev));
    lemma_all_clean_concat(head + event_detail_lines(ev), event_tail_lines(t));
}

pub(crate) proof fn lemma_header_lines_clean(cal: CalendarView)
    ensures
        all_clean(header_lines(cal)),
{
    reveal_strlit("BEGIN:VCALENDAR");
    reveal_strlit("VERSION:2.0");
    reveal_strlit("PRODID:");
    reveal_strlit("CALSCALE:GREGORIAN");
    reveal_strlit("METHOD:PUBLISH");
    reveal_strlit("X-WR-CALNAME:");
    reveal_strlit("NAME:");
    reveal_strlit("X-WR-CALDESC:");
    reveal_strlit("DESCRIPTION:");
    reveal_strlit("X-WR-TIMEZONE:");
    lemma_escaped_line_clean("PRODID:"@, cal.prodid);
    match cal.name {
        Some(n) => {
            lemma_escaped_line_clean("X-WR-CALNAME:"@, n);
            lemma_escaped_line_clean("NAME:"@, n);
        },
        None => {},
    }
    match cal.description {
        Some(d) => {
            lemma_escaped_line_clean("X-WR-CALDESC:"@, d);
            lemma_escaped_line_clean("DESCRIPTION:"@, d);
        },
        None => {},
    }
    match cal.timezone {
        Some(tz) => lemma_escaped_line_clean("X-WR-TIMEZONE:"@, tz),
        None => {},
    }
    let h = header_lines(cal);
    assert forall|i: int| 0 <= i < h.len() implies clean(#[trigger] h[i]) by {
        if i < 5 {
        } else {
        }
    }
}

/// The physical lines of one logical content line, without their CRLF.
pub open spec fn physical_lines(s: Seq<char>) -> Seq<Seq<char>> {
    if s.len() == 0 {
        seq![seq![]]
    } else {
        fold_segments(s, true)
    }
}

/// Whether every physical line fits in 75 octets and holds no line break.
pub open spec fn all_fit(segs: Seq<Seq<char>>) -> bool {
    forall|j: int|
        0 <= j < segs.len() ==> octets(#[trigger] segs[j]) <= MAX_LINE_OCTETS && clean(segs[j])
}

proof fn lemma_terminate_concat(a: Seq<Seq<char>>, b: Seq<Seq<char>>)
    ensures
        terminate_lines(a + b) == terminate_lines(a) + terminate_lines(b),
    decreases a.len(),
{
    if a.len() == 0 {
        assert(a + b =~= b);
        assert(terminate_lines(a) =~= Seq::<char>::empty());
    } else {
        assert((a + b).drop_first() =~= a.drop_first() + b);
        lemma_terminate_concat(a.drop_first(), b);
        assert(terminate_lines(a + b) =~= a[0] + crlf() + (terminate_lines(a.drop_first())
            + terminate_lines(b)));
    }
}

proof fn lemma_all_fit_concat(a: Seq<Seq<char>>, b: Seq<Seq<char>>)
    requires
        all_fit(a),
        all_fit(b),
    ensures
        all_fit(a + b),
{
    assert forall|j: int| 0 <= j < (a + b).len() implies octets(#[trigger] (a + b)[j])
        <= MAX_LINE_OCTETS && clean((a + b)[j]) by {
        if j < a.len() {
            assert((a + b)[j] == a[j]);
        } else {
            assert((a + b)[j] == b[j - a.len()]);
        }
    }
}

proof fn lemma_content_line_physical(s: Seq<char>)
    requires
        clean(s),
    ensures
        content_line(s) == terminate_lines(physical_lines(s)),
        all_fit(physical_lines(s)),
{
    lemma_clean_iff(s);
    if s.len() == 0 {
        let segs: Seq<Seq<char>> = seq![seq![]];
        assert(segs.drop_first() =~= Seq::<Seq<char>>::empty());
        assert(terminate_lines(Seq::<Seq<char>>::empty()) =~= Seq::<char>::empty());
        assert(segs[0] =~= Seq::<char>::empty());
        assert(physical_lines(s) == segs);
        assert(terminate_lines(segs) =~= crlf());
        assert(octets(Seq::<char>::empty()) == 0);
    } else {
        lemma_content_line_octets(s);
        let segs = fold_segments(s, true);
        assert forall|j: int| 0 <= j < segs.len() implies octets(#[trigger] segs[j])
            <= MAX_LINE_OCTETS && clean(segs[j]) by {
            lemma_clean_iff(segs[j]);
        }
    }
}

/// The physical lines of a sequence of logical lines.
pub open spec fn lines_physical(ls: Seq<Seq<char>>) -> Seq<Seq<char>>
    decreases ls.len(),
{
    if ls.len() == 0 {
        seq![]
    } else {
        lines_physical(ls.drop_last()) + physical_lines(ls.last())
    }
}

proof fn lemma_lines_text_physical(ls: Seq<Seq<char>>)
    requires
        all_clean(ls),
    ensures
        lines_text(ls) == terminate_lines(lines_physical(ls)),
        all_fit(lines_physical(ls)),
    decreases ls.len(),
{
    if ls.len() == 0 {
        assert(terminate_lines(Seq::<Seq<char>>::empty()) =~= Seq::<char>::empty());
    } else {
        let init = ls.drop_last();
        assert(all_clean(init)) by {
            assert forall|i: int| 0 <= i < init.len() implies clean(#[trigger] init[i]) by {
                assert(init[i] == ls[i]);
            }
        }
        assert(clean(ls.last()));
        lemma_lines_text_physical(init);
        lemma_content_line_physical(ls.last());
        lemma_terminate_concat(lines_physical(init), physical_lines(ls.last()));
        lemma_all_fit_concat(lines_physical(init), physical_lines(ls.last()));
    }
}

/// The physical lines of the first `k` events of a calendar.
spec fn events_physical(cal: CalendarView, ts: Seq<EventTexts>, k: int) -> Seq<Seq<char>>
    decreases k,
{
    if k <= 0 {
        seq![]
    } else {
        events_physical(cal, ts, k - 1) + lines_physical(
            event_lines(cal.uid_domain, cal.events[k - 1], ts[k - 1]),
        )
    }
}

proof fn lemma_events_text_physical(cal: CalendarView, ts: Seq<EventTexts>, k: int)
    requires
        0 <= k <= cal.events.len(),
        ts.len() == cal.events.len(),
        forall|i: int| 0 <= i < ts.len() ==> #[trigger] event_texts_ok(cal.events[i], ts[i]),
    ensures
        events_text(cal, ts, k) == terminate_lines(events_physical(cal, ts, k)),
        all_fit(events_physical(cal, ts, k)),
    decreases k,
{
    if k == 0 {
        assert(terminate_lines(Seq::<Seq<char>>::empty()) =~= Seq::<char>::empty());
    } else {
        lemma_events_text_physical(cal, ts, k - 1);
        let ls = event_lines(cal.uid_domain, cal.events[k - 1], ts[k - 1]);
        assert(event_texts_ok(cal.events[k - 1], ts[k - 1]));
        lemma_event_lines_clean(cal.uid_domain, cal.events[k - 1], ts[k - 1]);
        lemma_lines_text_physical(ls);
        lemma_terminate_concat(events_physical(cal, ts, k - 1), lines_physical(ls));
        lemma_all_fit_concat(events_physical(cal, ts, k - 1), lines_physical(ls));
    }
}

/// A serialized calendar is a sequence of physical lines, each terminated with CRLF, none longer
/// than 75 octets and none holding a CR or LF of its own (RFC 5545 3.1), so the text has CRLF line
/// endings only, whatever the calendar's texts hold.
pub proof fn lemma_calendar_physical_lines(cal: CalendarView, ts: Seq<EventTexts>)
    requires
        ts.len() == cal.events.len(),
        forall|i: int| 0 <= i < ts.len() ==> #[trigger] event_texts_ok(cal.events[i], ts[i]),
    ensures
        exists|segs: Seq<Seq<char>>|
            calendar_text(cal, ts) == terminate_lines(segs) && #[trigger] all_fit(segs),
{
    reveal_strlit("END:VCALENDAR");
    lemma_header_lines_clean(cal);
    let h = header_lines(cal);
    lemma_lines_text_physical(h);
    lemma_events_text_physical(cal, ts, cal.events.len() as int);
    let e = events_physical(cal, ts, cal.events.len() as int);
    assert(clean("END:VCALENDAR"@));
    lemma_content_line_physical("END:VCALENDAR"@);
    let last = physical_lines("END:VCALENDAR"@);
    lemma_terminate_concat(lines_physical(h), e);
    lemma_terminate_concat(lines_physical(h) + e, last);
    lemma_all_fit_concat(lines_physical(h), e);
    lemma_all_fit_concat(lines_physical(h) + e, last);
    let segs = lines_physical(h) + e + last;
    assert(calendar_text(cal, ts) == terminate_lines(segs));
}

/// Text made of CRLF-terminated lines without line breaks of their own has CRLF line endings
/// only: every CR is followed by an LF and every LF follows a CR.
pub open spec fn crlf_framed(t: Seq<char>) -> bool {
    &&& forall|i: int| 0 <= i < t.len() && #[trigger] t[i] == '\r' ==> i + 1 < t.len() && t[i
        + 1] == '\n'
    &&& forall|i: int| 0 <= i < t.len() && #[trigger] t[i] == '\n' ==> i > 0 && t[i - 1] == '\r'
}

/// Lines that hold no line break, each followed by CRLF, form CRLF-framed text that ends in CRLF
/// unless there is no line at all.
pub proof fn lemma_terminated_lines_framed(segs: Seq<Seq<char>>)
    requires
        forall|j: int| 0 <= j < segs.len() ==> clean(#[trigger] segs[j]),
    ensures
        crlf_framed(terminate_lines(segs)),
    decreases segs.len(),
{
    if segs.len() > 0 {
        let rest = segs.drop_first();
        assert forall|j: int| 0 <= j < rest.len() implies clean(#[trigger] rest[j]) by {
            assert(rest[j] == segs[j + 1]);
        }
        lemma_terminated_lines_framed(rest);
        let a = segs[0];
        let r = terminate_lines(rest);
        let t = terminate_lines(segs);
        assert(clean(a));
        assert(t =~= a + crlf() + r);
        assert forall|i: int| 0 <= i < t.len() && #[trigger] t[i] == '\r' implies i + 1 < t.len()
            && t[i + 1] == '\n' by {
            if i < a.len() {
                assert(t[i] == a[i]);
            } else if i == a.len() {
            } else if i == a.len() + 1 {
            } else {
                assert(t[i] == r[i - a.len() - 2]);
                assert(t[i + 1] == r[i + 1 - a.len() - 2]);
            }
        }
        assert forall|i: int| 0 <= i < t.len() && #[trigger] t[i] == '\n' implies i > 0 && t[i
            - 1] == '\r' by {
            if i < a.len() {
                assert(t[i] == a[i]);
            } else if i == a.len() {
            } else if i == a.len() + 1 {
            } else {
                assert(t[i] == r[i - a.len() - 2]);
                if i - a.len() - 2 > 0 {
                    assert(t[i - 1] == r[i - 1 - a.len() - 2]);
                }
            }
        }
    }
}

/// A serialized calendar has CRLF line endings only: no bare CR or LF survives, whatever its
/// texts hold.
pub proof fn lemma_calendar_crlf_framed(cal: CalendarView, ts: Seq<EventTexts>)
    requires
        ts.len() == cal.events.len(),
        forall|i: int| 0 <= i < ts.len() ==> #[trigger] event_texts_ok(cal.events[i], ts[i]),
    ensures
        crlf_framed(calendar_text(cal, ts)),
{
    lemma_calendar_physical_lines(cal, ts);
    let segs = choose|segs: Seq<Seq<char>>|
        calendar_text(cal, ts) == terminate_lines(segs) && #[trigger] all_fit(segs);
    lemma_terminated_lines_framed(segs);
}

// ---------------------------------------------------------------------------------------------
// One DTSTAMP per event
// ---------------------------------------------------------------------------------------------
/// Whether a logical content line is a `DTSTAMP` property.
pub open spec fn is_dtstamp_line(l: Seq<char>) -> bool {
    l.len() >= 8 && l.take(8) == "DTSTAMP:"@
}

pub(crate) proof fn lemma_differs_at(p: Seq<char>, x: Seq<char>, k: int)
    requires
        0 <= k < 8,
        k < p.len(),
        p[k] != "DTSTAMP:"@[k],
    ensures
        !is_dtstamp_line(p + x),
{
    if is_dtstamp_line(p + x) {
        assert((p + x).take(8)[k] == (p + x)[k]);
    }
}

proof fn lemma_literal_differs_at(p: Seq<char>, k: int)
    requires
        0 <= k < 8,
        k < p.len(),
        p[k] != "DTSTAMP:"@[k],
    ensures
        !is_dtstamp_line(p),
{
    lemma_differs_at(p, Seq::empty(), k);
    assert(p + Seq::<char>::empty() =~= p);
}

proof fn lemma_opt_line_not_dtstamp(l: Option<Seq<char>>)
    requires
        l matches Some(x) ==> !is_dtstamp_line(x),
    ensures
        forall|j: int| 0 <= j < opt_line(l).len() ==> !is_dtstamp_line(#[trigger] opt_line(l)[j]),
{
}

proof fn lemma_head_dtstamp(uid_domain: Option<Seq<char>>, ev: EventView, t: EventTexts)
    ensures
        event_head_lines(uid_domain, ev, t).len() == 6,
        event_head_lines(uid_domain, ev, t)[2] == "DTSTAMP:"@ + t.dtstamp@,
        forall|j: int|
            0 <= j < 6 ==> (is_dtstamp_line(#[trigger] event_head_lines(uid_domain, ev, t)[j])
                <==> j == 2),
{
    reveal_strlit("DTSTAMP:");
    reveal_strlit("BEGIN:VEVENT");
    reveal_strlit("UID:");
    reveal_strlit("SUMMARY:");
    reveal_strlit("DTSTART");
    reveal_strlit("DTEND");
    let head = event_head_lines(uid_domain, ev, t);
    assert(("DTSTAMP:"@ + t.dtstamp@).take(8) =~= "DTSTAMP:"@);
    lemma_literal_differs_at("BEGIN:VEVENT"@, 0);
    lemma_differs_at("UID:"@, escape_text(uid_text(uid_domain, ev.uid)), 0);
    lemma_differs_at("SUMMARY:"@, escape_text(ev.summary), 0);
    let start_rest = value_param(ev.start) + ":"@ + t.start@;
    assert("DTSTART"@ + value_param(ev.start) + ":"@ + t.start@ =~= "DTSTART"@ + start_rest);
    lemma_differs_at("DTSTART"@, start_rest, 5);
    let end_rest = value_param(ev.end) + ":"@ + t.end@;
    assert("DTEND"@ + value_param(ev.end) + ":"@ + t.end@ =~= "DTEND"@ + end_rest);
    lemma_differs_at("DTEND"@, end_rest, 2);
}

proof fn lemma_detail_no_dtstamp(ev: EventView)
    ensures
        forall|j: int|
            0 <= j < event_detail_lines(ev).len() ==> !is_dtstamp_line(
                #[trigger] event_detail_lines(ev)[j],
            ),
{
    reveal_strlit("DTSTAMP:");
    reveal_strlit("DESCRIPTION:");
    reveal_strlit("STATUS:");
    reveal_strlit("ORGANIZER;CN=");
    reveal_strlit("TRANSP:TRANSPARENT");
    let description = match ev.description {
        Some(d) => Some("DESCRIPTION:"@ + escape_text(d)),
        None => None,
    };
    if let Some(d) = ev.description {
        lemma_differs_at("DESCRIPTION:"@, escape_text(d), 1);
    }
    let status = match ev.status {
        Some(st) => Some("STATUS:"@ + st.keyword()),
        None => None,
    };
    if let Some(st) = ev.status {
        lemma_differs_at("STATUS:"@, st.keyword(), 0);
    }
    let organizer = match ev.organizer {
        Some((cn, email)) => Some(
            "ORGANIZER;CN="@ + param_value(cn) + ":"@ + organizer_address(email),
        ),
        None => None,
    };
    if let Some((cn, email)) = ev.organizer {
        let rest = param_value(cn) + ":"@ + organizer_address(email);
        assert("ORGANIZER;CN="@ + param_value(cn) + ":"@ + organizer_address(email)
            =~= "ORGANIZER;CN="@ + rest);
        lemma_differs_at("ORGANIZER;CN="@, rest, 0);
    }
    let transp = if ev.transp == Transp::Transparent {
        Some("TRANSP:TRANSPARENT"@)
    } else {
        None
    };
    lemma_literal_differs_at("TRANSP:TRANSPARENT"@, 0);
    lemma_opt_line_not_dtstamp(description);
    lemma_opt_line_not_dtstamp(status);
    lemma_opt_line_not_dtstamp(organizer);
    lemma_opt_line_not_dtstamp(transp);
    let a = opt_line(description);
    let b = opt_line(status);
    let c = opt_line(organizer);
    let d = opt_line(transp);
    let detail = event_detail_lines(ev);
    assert(detail =~= a + b + c + d);
    assert forall|k: int| 0 <= k < detail.len() implies !is_dtstamp_line(#[trigger] detail[k]) by {
        if k < a.len() {
            assert(detail[k] == a[k]);
        } else if k < a.len() + b.len() {
            assert(detail[k] == b[k - a.len()]);
        } else if k < a.len() + b.len() + c.len() {
            assert(detail[k] == c[k - a.len() - b.len()]);
        } else {
            assert(detail[k] == d[k - a.len() - b.len() - c.len()]);
        }
    }
}

proof fn lemma_tail_no_dtstamp(t: EventTexts)
    ensures
        forall|j: int|
            0 <= j < event_tail_lines(t).len() ==> !is_dtstamp_line(
                #[trigger] event_tail_lines(t)[j],
            ),
{
    reveal_strlit("DTSTAMP:");
    reveal_strlit("LAST-MODIFIED:");
    reveal_strlit("END:VEVENT");
    let last_modified = match t.last_modified {
        Some(x) => Some("LAST-MODIFIED:"@ + x@),
        None => None,
    };
    if let Some(x) = t.last_modified {
        lemma_differs_at("LAST-MODIFIED:"@, x@, 0);
    }
    lemma_opt_line_not_dtstamp(last_modified);
    lemma_literal_differs_at("END:VEVENT"@, 0);
    let a = opt_line(last_modified);
    let tail = event_tail_lines(t);
    assert forall|k: int| 0 <= k < tail.len() implies !is_dtstamp_line(#[trigger] tail[k]) by {
        if k < a.len() {
            assert(tail[k] == a[k]);
        } else {
            assert(tail[k] == "END:VEVENT"@);
        }
    }
}

/// Every `VEVENT` carries exactly one `DTSTAMP` line (RFC 5545 3.6.1), and it shows the event's
/// stamp: the explicit one, else `LAST-MODIFIED`, else the Unix epoch.
pub proof fn lemma_event_has_one_dtstamp(uid_domain: Option<Seq<char>>, ev: EventView, t: EventTexts)
    requires
        event_texts_ok(ev, t),
    ensures
        is_dtstamp_line(event_lines(uid_domain, ev, t)[2]),
        is_utc_text_of(dtstamp_epoch(ev), event_lines(uid_domain, ev, t)[2].skip(8)),
        forall|j: int|
            0 <= j < event_lines(uid_domain, ev, t).len() ==> (is_dtstamp_line(
                #[trigger] event_lines(uid_domain, ev, t)[j],
            ) <==> j == 2),
{
    reveal_strlit("DTSTAMP:");
    let head = event_head_lines(uid_domain, ev, t);
    let detail = event_detail_lines(ev);
    let tail = event_tail_lines(t);
    let lines = event_lines(uid_domain, ev, t);
    lemma_head_dtstamp(uid_domain, ev, t);
    lemma_detail_no_dtstamp(ev);
    lemma_tail_no_dtstamp(t);
    assert(lines[2] == head[2]);
    assert(("DTSTAMP:"@ + t.dtstamp@).skip(8) =~= t.dtstamp@);
    assert forall|j: int| 0 <= j < lines.len() implies (is_dtstamp_line(#[trigger] lines[j]) <==> j
        == 2) by {
        if j < 6 {
            assert(lines[j] == head[j]);
        } else if j < 6 + detail.len() {
            assert(lines[j] == detail[j - 6]);
        } else {
            assert(lines[j] == tail[j - 6 - detail.len()]);
        }
    }
}

} // verus!
