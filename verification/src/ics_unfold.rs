//! Unfolding a serialized calendar gives back its logical content lines (RFC 5545 3.1).
use vstd::prelude::*;

use crate::ics::{
    calendar_text, event_detail_lines, event_head_lines, event_lines, event_tail_lines,
    event_texts_ok, events_text, header_lines, lines_text, opt_line, organizer_address,
    uid_text, value_param, CalendarView, EventTexts, EventView, Transp,
};
use crate::ics_laws::{
    all_clean, clean, lemma_clean_iff, lemma_event_lines_clean, lemma_header_lines_clean,
};
use crate::ics_text::{
    content_line, crlf, escape_text, fit_count, fold_segments, lemma_fold_step,
    lemma_no_cr_take_skip, line_budget, param_value, terminate_lines,
};

verus! {

/// Removes the line folding of RFC 5545 3.1: every CRLF that a space follows goes, with the
/// space; every other character stays.
pub open spec fn unfold_all(t: Seq<char>) -> Seq<char>
    decreases t.len(),
{
    if t.len() == 0 {
        seq![]
    } else if t.len() >= 3 && t[0] == '\r' && t[1] == '\n' && t[2] == ' ' {
        unfold_all(t.skip(3))
    } else {
        seq![t[0]] + unfold_all(t.drop_first())
    }
}

/// The logical lines, each followed by CRLF.
pub open spec fn logical_text(ls: Seq<Seq<char>>) -> Seq<char>
    decreases ls.len(),
{
    if ls.len() == 0 {
        seq![]
    } else {
        logical_text(ls.drop_last()) + ls.last() + crlf()
    }
}

/// Whether a text cannot be taken for a continuation line: it does not start with a space.
pub open spec fn starts_clear(l: Seq<char>) -> bool {
    l.len() == 0 || l[0] != ' '
}

/// The logical lines of the first `k` events of a calendar.
pub open spec fn event_lines_upto(cal: CalendarView, ts: Seq<EventTexts>, k: int) -> Seq<
    Seq<char>,
>
    decreases k,
{
    if k <= 0 {
        seq![]
    } else {
        event_lines_upto(cal, ts, k - 1) + event_lines(
            cal.uid_domain,
            cal.events[k - 1],
            ts[k - 1],
        )
    }
}

/// The logical content lines of a calendar, with the stamps `ts` for its events.
pub open spec fn calendar_lines(cal: CalendarView, ts: Seq<EventTexts>) -> Seq<Seq<char>> {
    header_lines(cal) + event_lines_upto(cal, ts, cal.events.len() as int) + seq![
        "END:VCALENDAR"@,
    ]
}

proof fn lemma_unfold_all_prefix(a: Seq<char>, t: Seq<char>)
    requires
        !a.contains('\r'),
    ensures
        unfold_all(a + t) == a + unfold_all(t),
    decreases a.len(),
{
    if a.len() == 0 {
        assert(a + t =~= t);
    } else {
        assert(a[0] != '\r') by {
            if a[0] == '\r' {
                assert(a.contains('\r'));
            }
        }
        let at = a + t;
        assert(at[0] == a[0]);
        assert(at.drop_first() =~= a.drop_first() + t);
        assert(!a.drop_first().contains('\r')) by {
            if a.drop_first().contains('\r') {
                let j = choose|j: int| 0 <= j < a.drop_first().len() && a.drop_first()[j] == '\r';
                assert(a[j + 1] == '\r');
            }
        }
        lemma_unfold_all_prefix(a.drop_first(), t);
        assert(seq![a[0]] + (a.drop_first() + unfold_all(t)) =~= a + unfold_all(t));
    }
}

proof fn lemma_unfold_all_crlf(rest: Seq<char>)
    requires
        starts_clear(rest),
    ensures
        unfold_all(crlf() + rest) == crlf() + unfold_all(rest),
{
    let t = crlf() + rest;
    assert(t[0] == '\r' && t[1] == '\n');
    if rest.len() > 0 {
        assert(t[2] == rest[0]);
    }
    assert(t.drop_first() =~= seq!['\n'] + rest);
    let u = t.drop_first();
    assert(u[0] == '\n');
    assert(u.drop_first() =~= rest);
    assert(unfold_all(u) == seq!['\n'] + unfold_all(rest));
    assert(seq!['\r'] + (seq!['\n'] + unfold_all(rest)) =~= crlf() + unfold_all(rest));
}

proof fn lemma_unfold_all_continuations(u: Seq<char>, rest: Seq<char>)
    requires
        !u.contains('\r'),
        starts_clear(rest),
    ensures
        unfold_all(crlf() + terminate_lines(fold_segments(u, false)) + rest) == u + crlf()
            + unfold_all(rest),
    decreases u.len(),
{
    if u.len() == 0 {
        assert(fold_segments(u, false) =~= Seq::<Seq<char>>::empty());
        assert(crlf() + terminate_lines(fold_segments(u, false)) + rest =~= crlf() + rest);
        lemma_unfold_all_crlf(rest);
        assert(u + crlf() + unfold_all(rest) =~= crlf() + unfold_all(rest));
    } else {
        lemma_fold_step(u, false);
        let n = fit_count(u, line_budget(false));
        let r2 = terminate_lines(fold_segments(u.skip(n as int), false));
        let whole = crlf() + terminate_lines(fold_segments(u, false)) + rest;
        assert(whole =~= seq!['\r', '\n', ' '] + (u.take(n as int) + (crlf() + r2 + rest)));
        assert(whole.skip(3) =~= u.take(n as int) + (crlf() + r2 + rest));
        lemma_no_cr_take_skip(u, n as int);
        lemma_unfold_all_prefix(u.take(n as int), crlf() + r2 + rest);
        lemma_unfold_all_continuations(u.skip(n as int), rest);
        assert(u.take(n as int) + (u.skip(n as int) + crlf() + unfold_all(rest)) =~= u + crlf()
            + unfold_all(rest));
    }
}

proof fn lemma_unfold_all_content_line(s: Seq<char>, rest: Seq<char>)
    requires
        !s.contains('\r'),
        starts_clear(rest),
    ensures
        unfold_all(content_line(s) + rest) == s + crlf() + unfold_all(rest),
        starts_clear(s) ==> starts_clear(content_line(s) + rest),
{
    if s.len() == 0 {
        lemma_unfold_all_crlf(rest);
        assert(s + crlf() + unfold_all(rest) =~= crlf() + unfold_all(rest));
        assert((content_line(s) + rest)[0] == '\r');
    } else {
        lemma_fold_step(s, true);
        let n = fit_count(s, line_budget(true));
        let r2 = terminate_lines(fold_segments(s.skip(n as int), false));
        lemma_no_cr_take_skip(s, n as int);
        assert(content_line(s) + rest =~= s.take(n as int) + (crlf() + r2 + rest));
        lemma_unfold_all_prefix(s.take(n as int), crlf() + r2 + rest);
        lemma_unfold_all_continuations(s.skip(n as int), rest);
        assert(s.take(n as int) + (s.skip(n as int) + crlf() + unfold_all(rest)) =~= s + crlf()
            + unfold_all(rest));
        assert((content_line(s) + rest)[0] == s[0]);
    }
}

proof fn lemma_unfold_all_lines(ls: Seq<Seq<char>>, rest: Seq<char>)
    requires
        all_clean(ls),
        forall|i: int| 0 <= i < ls.len() ==> starts_clear(#[trigger] ls[i]),
        starts_clear(rest),
    ensures
        unfold_all(lines_text(ls) + rest) == logical_text(ls) + unfold_all(rest),
        starts_clear(lines_text(ls) + rest),
    decreases ls.len(),
{
    if ls.len() == 0 {
        assert(lines_text(ls) + rest =~= rest);
        assert(logical_text(ls) + unfold_all(rest) =~= unfold_all(rest));
    } else {
        let init = ls.drop_last();
        let l = ls.last();
        assert(clean(l));
        lemma_clean_iff(l);
        assert(starts_clear(l));
        lemma_unfold_all_content_line(l, rest);
        assert(all_clean(init)) by {
            assert forall|i: int| 0 <= i < init.len() implies clean(#[trigger] init[i]) by {
                assert(init[i] == ls[i]);
            }
        }
        assert forall|i: int| 0 <= i < init.len() implies starts_clear(#[trigger] init[i]) by {
            assert(init[i] == ls[i]);
        }
        lemma_unfold_all_lines(init, content_line(l) + rest);
        assert(lines_text(ls) + rest =~= lines_text(init) + (content_line(l) + rest));
        assert(logical_text(init) + (l + crlf() + unfold_all(rest)) =~= logical_text(ls)
            + unfold_all(rest));
    }
}

proof fn lemma_lines_text_concat(a: Seq<Seq<char>>, b: Seq<Seq<char>>)
    ensures
        lines_text(a + b) == lines_text(a) + lines_text(b),
    decreases b.len(),
{
    if b.len() == 0 {
        assert(a + b =~= a);
        assert(lines_text(a) + lines_text(b) =~= lines_text(a));
    } else {
        assert((a + b).drop_last() =~= a + b.drop_last());
        assert((a + b).last() == b.last());
        lemma_lines_text_concat(a, b.drop_last());
        assert(lines_text(a) + lines_text(b.drop_last()) + content_line(b.last()) =~= lines_text(a)
            + (lines_text(b.drop_last()) + content_line(b.last())));
    }
}

proof fn lemma_events_text_lines(cal: CalendarView, ts: Seq<EventTexts>, k: int)
    ensures
        events_text(cal, ts, k) == lines_text(event_lines_upto(cal, ts, k)),
    decreases k,
{
    if k > 0 {
        lemma_events_text_lines(cal, ts, k - 1);
        lemma_lines_text_concat(
            event_lines_upto(cal, ts, k - 1),
            event_lines(cal.uid_domain, cal.events[k - 1], ts[k - 1]),
        );
    }
}

proof fn lemma_lead(p: Seq<char>, x: Seq<char>)
    requires
        p.len() > 0,
        p[0] != ' ',
    ensures
        starts_clear(p + x),
{
    assert((p + x)[0] == p[0]);
}

proof fn lemma_opt_line_clear(l: Option<Seq<char>>)
    requires
        l matches Some(x) ==> starts_clear(x),
    ensures
        forall|j: int| 0 <= j < opt_line(l).len() ==> starts_clear(#[trigger] opt_line(l)[j]),
{
}

proof fn lemma_header_lines_clear(cal: CalendarView)
    ensures
        forall|i: int|
            0 <= i < header_lines(cal).len() ==> starts_clear(#[trigger] header_lines(cal)[i]),
{
    reveal_strlit("BEGIN:VCALENDAR");
    reveal_strlit("VERSION:2.0");
    reveal_strlit("PRODID:");
    reveal_strlit("CALSCALE:GREGORIAN");
    reveal_strlit("METHOD:PUBLISH");
    reveal_strlit("X-WR-CALNAME:");
    reveal_strlit("NAME:");
    reveal_strlit("X-WR-CALDESC:");
    reveal_strlit("DESCRIPTION:");
    reveal_strlit("X-WR-TIMEZONE:");
    lemma_lead("PRODID:"@, escape_text(cal.prodid));
    if let Some(n) = cal.name {
        lemma_lead("X-WR-CALNAME:"@, escape_text(n));
        lemma_lead("NAME:"@, escape_text(n));
    }
    if let Some(d) = cal.description {
        lemma_lead("X-WR-CALDESC:"@, escape_text(d));
        lemma_lead("DESCRIPTION:"@, escape_text(d));
    }
    if let Some(tz) = cal.timezone {
        lemma_lead("X-WR-TIMEZONE:"@, escape_text(tz));
    }
    let h = header_lines(cal);
    assert forall|i: int| 0 <= i < h.len() implies starts_clear(#[trigger] h[i]) by {
        if i < 5 {
        } else {
        }
    }
}

proof fn lemma_head_lines_clear(uid_domain: Option<Seq<char>>, ev: EventView, t: EventTexts)
    ensures
        forall|i: int|
            0 <= i < event_head_lines(uid_domain, ev, t).len() ==> starts_clear(
                #[trigger] event_head_lines(uid_domain, ev, t)[i],
            ),
{
    reveal_strlit("BEGIN:VEVENT");
    reveal_strlit("UID:");
    reveal_strlit("DTSTAMP:");
    reveal_strlit("SUMMARY:");
    reveal_strlit("DTSTART");
    reveal_strlit("DTEND");
    lemma_lead("UID:"@, escape_text(uid_text(uid_domain, ev.uid)));
    lemma_lead("DTSTAMP:"@, t.dtstamp@);
    lemma_lead("SUMMARY:"@, escape_text(ev.summary));
    let start_rest = value_param(ev.start) + ":"@ + t.start@;
    assert("DTSTART"@ + value_param(ev.start) + ":"@ + t.start@ =~= "DTSTART"@ + start_rest);
    lemma_lead("DTSTART"@, start_rest);
    let end_rest = value_param(ev.end) + ":"@ + t.end@;
    assert("DTEND"@ + value_param(ev.end) + ":"@ + t.end@ =~= "DTEND"@ + end_rest);
    lemma_lead("DTEND"@, end_rest);
}

proof fn lemma_detail_lines_clear(ev: EventView)
    ensures
        forall|i: int|
            0 <= i < event_detail_lines(ev).len() ==> starts_clear(
                #[trigger] event_detail_lines(ev)[i],
            ),
{
    reveal_strlit("DESCRIPTION:");
    reveal_strlit("STATUS:");
    reveal_strlit("ORGANIZER;CN=");
    reveal_strlit("TRANSP:TRANSPARENT");
    let description = match ev.description {
        Some(d) => Some("DESCRIPTION:"@ + escape_text(d)),
        None => None,
    };
    if let Some(d) = ev.description {
        lemma_lead("DESCRIPTION:"@, escape_text(d));
    }
    let status = match ev.status {
        Some(st) => Some("STATUS:"@ + st.keyword()),
        None => None,
    };
    if let Some(st) = ev.status {
        lemma_lead("STATUS:"@, st.keyword());
    }
    let organizer = match ev.organizer {
        Some((cn, email)) => Some(
            "ORGANIZER;CN="@ + param_value(cn) + ":"@ + organizer_address(email),
        ),
        None => None,
    };
    if let Some((cn, email)) = ev.organizer {
        let rest = param_value(cn) + ":"@ + organizer_address(email);
        assert("ORGANIZER;CN="@ + param_value(cn) + ":"@ + organizer_address(email)
            =~= "ORGANIZER;CN="@ + rest);
        lemma_lead("ORGANIZER;CN="@, rest);
    }
    let transp = if ev.transp == Transp::Transparent {
        Some("TRANSP:TRANSPARENT"@)
    } else {
        None
    };
    lemma_opt_line_clear(description);
    lemma_opt_line_clear(status);
    lemma_opt_line_clear(organizer);
    lemma_opt_line_clear(transp);
    let a = opt_line(description);
    let b = opt_line(status);
    let c = opt_line(organizer);
    let d = opt_line(transp);
    let detail = event_detail_lines(ev);
    assert(detail =~= a + b + c + d);
    assert forall|k: int| 0 <= k < detail.len() implies starts_clear(#[trigger] detail[k]) by {
        if k < a.len() {
            assert(detail[k] == a[k]);
        } else if k < a.len() + b.len() {
            assert(detail[k] == b[k - a.len()]);
        } else if k < a.len() + b.len() + c.len() {
            assert(detail[k] == c[k - a.len() - b.len()]);
        } else {
            assert(detail[k] == d[k - a.len() - b.len() - c.len()]);
        }
    }
}

proof fn lemma_tail_lines_clear(t: EventTexts)
    ensures
        forall|i: int|
            0 <= i < event_tail_lines(t).len() ==> starts_clear(#[trigger] event_tail_lines(t)[i]),
{
    reveal_strlit("LAST-MODIFIED:");
    reveal_strlit("END:VEVENT");
    let last_modified = match t.last_modified {
        Some(x) => Some("LAST-MODIFIED:"@ + x@),
        None => None,
    };
    if let Some(x) = t.last_modified {
        lemma_lead("LAST-MODIFIED:"@, x@);
    }
    lemma_opt_line_clear(last_modified);
    let a = opt_line(last_modified);
    let tail = event_tail_lines(t);
    assert forall|k: int| 0 <= k < tail.len() implies starts_clear(#[trigger] tail[k]) by {
        if k < a.len() {
            assert(tail[k] == a[k]);
        } else {
            assert(tail[k] == "END:VEVENT"@);
        }
    }
}

proof fn lemma_event_lines_clear(uid_domain: Option<Seq<char>>, ev: EventView, t: EventTexts)
    ensures
        forall|i: int|
            0 <= i < event_lines(uid_domain, ev, t).len() ==> starts_clear(
                #[trigger] event_lines(uid_domain, ev, t)[i],
            ),
{
    let head = event_head_lines(uid_domain, ev, t);
    let detail = event_detail_lines(ev);
    let tail = event_tail_lines(t);
    let lines = event_lines(uid_domain, ev, t);
    lemma_head_lines_clear(uid_domain, ev, t);
    lemma_detail_lines_clear(ev);
    lemma_tail_lines_clear(t);
    assert forall|j: int| 0 <= j < lines.len() implies starts_clear(#[trigger] lines[j]) by {
        if j < head.len() {
            assert(lines[j] == head[j]);
        } else if j < head.len() + detail.len() {
            assert(lines[j] == detail[j - head.len()]);
        } else {
            assert(lines[j] == tail[j - head.len() - detail.len()]);
        }
    }
}

/// The lines of two parts are clean and clear when those of each part are.
proof fn lemma_parts_ok(a: Seq<Seq<char>>, b: Seq<Seq<char>>)
    requires
        all_clean(a),
        all_clean(b),
        forall|i: int| 0 <= i < a.len() ==> starts_clear(#[trigger] a[i]),
        forall|i: int| 0 <= i < b.len() ==> starts_clear(#[trigger] b[i]),
    ensures
        all_clean(a + b),
        forall|i: int| 0 <= i < (a + b).len() ==> starts_clear(#[trigger] (a + b)[i]),
{
    assert forall|i: int| 0 <= i < (a + b).len() implies clean(#[trigger] (a + b)[i]) && starts_clear(
        (a + b)[i],
    ) by {
        if i < a.len() {
            assert((a + b)[i] == a[i]);
        } else {
            assert((a + b)[i] == b[i - a.len()]);
        }
    }
}

proof fn lemma_event_lines_upto_ok(cal: CalendarView, ts: Seq<EventTexts>, k: int)
    requires
        0 <= k <= cal.events.len(),
        ts.len() == cal.events.len(),
        forall|i: int| 0 <= i < ts.len() ==> #[trigger] event_texts_ok(cal.events[i], ts[i]),
    ensures
        all_clean(event_lines_upto(cal, ts, k)),
        forall|i: int|
            0 <= i < event_lines_upto(cal, ts, k).len() ==> starts_clear(
                #[trigger] event_lines_upto(cal, ts, k)[i],
            ),
    decreases k,
{
    if k > 0 {
        lemma_event_lines_upto_ok(cal, ts, k - 1);
        assert(event_texts_ok(cal.events[k - 1], ts[k - 1]));
        lemma_event_lines_clean(cal.uid_domain, cal.events[k - 1], ts[k - 1]);
        lemma_event_lines_clear(cal.uid_domain, cal.events[k - 1], ts[k - 1]);
        lemma_parts_ok(
            event_lines_upto(cal, ts, k - 1),
            event_lines(cal.uid_domain, cal.events[k - 1], ts[k - 1]),
        );
    }
}

/// Unfolding a serialized calendar, that is removing every CRLF that a space follows together
/// with the space (RFC 5545 3.1), gives back its logical content lines, each followed by CRLF,
/// whatever the calendar's texts hold.
pub proof fn lemma_calendar_unfolds_to_lines(cal: CalendarView, ts: Seq<EventTexts>)
    requires
        ts.len() == cal.events.len(),
        forall|i: int| 0 <= i < ts.len() ==> #[trigger] event_texts_ok(cal.events[i], ts[i]),
    ensures
        unfold_all(calendar_text(cal, ts)) == logical_text(calendar_lines(cal, ts)),
{
    reveal_strlit("END:VCALENDAR");
    let h = header_lines(cal);
    let e = event_lines_upto(cal, ts, cal.events.len() as int);
    let last: Seq<Seq<char>> = seq!["END:VCALENDAR"@];
    lemma_header_lines_clean(cal);
    lemma_header_lines_clear(cal);
    lemma_event_lines_upto_ok(cal, ts, cal.events.len() as int);
    assert(clean("END:VCALENDAR"@));
    assert(all_clean(last));
    assert(forall|i: int| 0 <= i < last.len() ==> starts_clear(#[trigger] last[i]));
    lemma_parts_ok(h, e);
    lemma_parts_ok(h + e, last);
    lemma_events_text_lines(cal, ts, cal.events.len() as int);
    lemma_lines_text_concat(h, e);
    lemma_lines_text_concat(h + e, last);
    assert(last.drop_last() =~= Seq::<Seq<char>>::empty());
    assert(lines_text(Seq::<Seq<char>>::empty()) =~= Seq::<char>::empty());
    assert(last.last() == "END:VCALENDAR"@);
    assert(lines_text(last) =~= content_line("END:VCALENDAR"@));
    assert(calendar_text(cal, ts) == lines_text(calendar_lines(cal, ts)));
    lemma_unfold_all_lines(calendar_lines(cal, ts), Seq::empty());
    assert(calendar_text(cal, ts) + Seq::<char>::empty() =~= calendar_text(cal, ts));
    assert(logical_text(calendar_lines(cal, ts)) + unfold_all(Seq::<char>::empty())
        =~= logical_text(calendar_lines(cal, ts)));
}

} // verus!
