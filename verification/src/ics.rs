//! A small, domain-free RFC 5545 (iCalendar) serializer: build [`Event`]s and a [`Calendar`],
//! then serialize the calendar to a `VCALENDAR` text with CRLF line endings, 75-octet line
//! folding on UTF-8 boundaries, `TEXT` escaping, `DATE` versus `DATE-TIME` stamps and DST-correct
//! wall-clock-to-UTC conversion.
use vstd::prelude::*;

use crate::civil::{
    date_text, epoch_to_ics_utc, format_ics_date, is_utc_text_of, last_date,
    local_to_ics_utc, utc_text, unix_epoch, zoned_text_in, CivilDate, Date,
};
use crate::ics_text::{
    content_line, escape_ics_text, escape_text, format_param_value, param_value,
    write_content_line,
};
use crate::text::{chars_of, string_of};

verus! {

/// `STATUS` value for a `VEVENT` (RFC 5545 3.8.1.11).
#[derive(Debug, Clone, Copy, PartialEq, Eq, Structural)]
pub enum EventStatus {
    /// `TENTATIVE`: the event is provisional.
    Tentative,
    /// `CONFIRMED`: the event is definite.
    Confirmed,
    /// `CANCELLED`: the event was cancelled.
    Cancelled,
}

impl EventStatus {
    /// The RFC 5545 keyword for this status.
    pub open spec fn keyword(self) -> Seq<char> {
        match self {
            EventStatus::Tentative => "TENTATIVE"@,
            EventStatus::Confirmed => "CONFIRMED"@,
            EventStatus::Cancelled => "CANCELLED"@,
        }
    }

    /// The RFC 5545 keyword for this status.
    pub fn as_ics(self) -> (r: &'static str)
        ensures
            r@ == self.keyword(),
    {
        match self {
            EventStatus::Tentative => "TENTATIVE",
            EventStatus::Confirmed => "CONFIRMED",
            EventStatus::Cancelled => "CANCELLED",
        }
    }
}

/// `TRANSP` value (RFC 5545 3.8.2.7): whether the event consumes the subscriber's free/busy time.
#[derive(Debug, Clone, Copy, PartialEq, Eq, Structural)]
pub enum Transp {
    /// Blocks the time as busy. The RFC default, so it is omitted on the wire.
    Opaque,
    /// Informational only; does not mark the subscriber busy. Emits `TRANSP:TRANSPARENT`.
    Transparent,
}

impl Default for Transp {
    fn default() -> (t: Transp)
        ensures
            t == Transp::Opaque,
    {
        Transp::Opaque
    }
}

/// A typed start or end value for an [`Event`]; the serializer renders each variant to its correct
/// iCalendar form.
#[derive(Debug, Clone)]
pub enum EventTime {
    /// A whole civil day. `DTSTART`/`DTEND` emit as `VALUE=DATE`, and an all-day `DTEND` is made
    /// the exclusive day after this date by the serializer.
    AllDay(Date),
    /// A fixed UTC instant in epoch seconds, emitted as a `DATE-TIME` with a trailing `Z`.
    Utc(i64),
    /// A wall-clock time: `minute_of_day` minutes past midnight on `date` in the IANA zone `tz`,
    /// converted to a true UTC `DATE-TIME`.
    Local {
        /// Civil date the wall-clock minute is measured on.
        date: Date,
        /// Minutes past local midnight, `0..=1440` (1440 is end-of-day 24:00).
        minute_of_day: u16,
        /// IANA time-zone identifier, for example `Europe/Berlin`.
        tz: String,
    },
}

/// Whether `t` is the `DTSTART` value of `time`: the `DATE` of an all-day value, the UTC
/// `DATE-TIME` of an instant, and for a wall-clock time the UTC `DATE-TIME` it converts to, or the
/// Unix epoch when it cannot be converted.
pub open spec fn is_start_text(time: EventTime, t: Seq<char>) -> bool {
    match time {
        EventTime::AllDay(d) => t == date_text(d@),
        EventTime::Utc(epoch) => is_utc_text_of(epoch as int, t),
        EventTime::Local { date, minute_of_day, tz } => {
            ||| zoned_text_in(tz@, date@, minute_of_day as int, t)
            ||| is_utc_text_of(0, t)
        },
    }
}

/// The exclusive end day of an all-day value: the day after it, or the day itself for the last
/// supported date.
pub open spec fn all_day_end(d: CivilDate) -> CivilDate {
    if d == last_date() {
        d
    } else {
        d.next_day()
    }
}

/// Whether `t` is the `DTEND` value of `time`: the exclusive next day of an all-day value (RFC
/// 5545 3.6.1), otherwise as for `DTSTART`.
pub open spec fn is_end_text(time: EventTime, t: Seq<char>) -> bool {
    match time {
        EventTime::AllDay(d) => t == date_text(all_day_end(d@)),
        _ => is_start_text(time, t),
    }
}

/// The `;VALUE=DATE` parameter of an all-day value, empty for a `DATE-TIME`.
pub open spec fn value_param(time: EventTime) -> Seq<char> {
    match time {
        EventTime::AllDay(_) => ";VALUE=DATE"@,
        _ => ""@,
    }
}

impl EventTime {
    /// Whether this value is a `DATE` (all-day) rather than a `DATE-TIME`.
    pub fn is_all_day(&self) -> (b: bool)
        ensures
            b <==> self is AllDay,
    {
        match self {
            EventTime::AllDay(_) => true,
            _ => false,
        }
    }

    /// The `;VALUE=DATE` property parameter for an all-day value, empty for a `DATE-TIME`. Picked
    /// per value so `DTSTART` and `DTEND` each describe their own type rather than both following
    /// the start's.
    pub fn value_param(&self) -> (r: &'static str)
        ensures
            r@ == value_param(*self),
    {
        if self.is_all_day() {
            ";VALUE=DATE"
        } else {
            ""
        }
    }

    /// Format as a `DTSTART` value.
    pub fn format_start(&self) -> (r: String)
        ensures
            is_start_text(*self, r@),
    {
        match self {
            EventTime::AllDay(date) => format_ics_date(*date),
            EventTime::Utc(epoch) => epoch_to_ics_utc(*epoch),
            EventTime::Local { date, minute_of_day, tz } => {
                match local_to_ics_utc(*date, *minute_of_day, tz.as_str()) {
                    Ok(t) => t,
                    Err(_) => epoch_to_ics_utc(0),
                }
            },
        }
    }

    /// Format as a `DTEND` value. An all-day end is exclusive, so it emits the civil day after the
    /// stored date (RFC 5545 3.6.1).
    pub fn format_end(&self) -> (r: String)
        ensures
            is_end_text(*self, r@),
    {
        match self {
            EventTime::AllDay(date) => {
                let end = match date.tomorrow() {
                    Some(next) => next,
                    None => *date,
                };
                format_ics_date(end)
            },
            _ => self.format_start(),
        }
    }
}

/// A `VEVENT` `ORGANIZER` (RFC 5545 3.8.4.3): the calendar user responsible for the event. Carries
/// a display `CN` and, when known, a `mailto:` address; without an address the value falls back to
/// the non-routable `invalid:nomail` URI so the property stays spec-valid.
#[derive(Debug, Clone)]
struct Organizer {
    cn: String,
    email: Option<String>,
}

/// An optional string as an optional character sequence.
pub open spec fn opt_view(o: Option<String>) -> Option<Seq<char>> {
    match o {
        Some(s) => Some(s@),
        None => None,
    }
}

/// The fields of an [`Event`].
pub ghost struct EventView {
    pub uid: Seq<char>,
    pub summary: Seq<char>,
    pub start: EventTime,
    pub end: EventTime,
    pub description: Option<Seq<char>>,
    pub status: Option<EventStatus>,
    pub transp: Transp,
    /// The display name and the optional address of the organizer.
    pub organizer: Option<(Seq<char>, Option<Seq<char>>)>,
    pub dtstamp: Option<i64>,
    pub last_modified: Option<i64>,
}

/// A single `VEVENT`.
///
/// Build one with [`Event::all_day`], [`Event::all_day_range`], or [`Event::timed`], then layer
/// optional fields with the `with_*` methods. The type has no public fields, so it can only be
/// constructed through those builders.
#[derive(Debug, Clone)]
pub struct Event {
    uid: String,
    summary: String,
    start: EventTime,
    end: EventTime,
    description: Option<String>,
    status: Option<EventStatus>,
    transp: Transp,
    organizer: Option<Organizer>,
    dtstamp: Option<i64>,
    last_modified: Option<i64>,
}

impl View for Event {
    type V = EventView;

    closed spec fn view(&self) -> EventView {
        EventView {
            uid: self.uid@,
            summary: self.summary@,
            start: self.start,
            end: self.end,
            description: opt_view(self.description),
            status: self.status,
            transp: self.transp,
            organizer: match self.organizer {
                Some(o) => Some((o.cn@, opt_view(o.email))),
                None => None,
            },
            dtstamp: self.dtstamp,
            last_modified: self.last_modified,
        }
    }
}

/// The fields of a fresh event: no optional field set and `TRANSP` opaque.
pub open spec fn base_view(
    uid: Seq<char>,
    summary: Seq<char>,
    start: EventTime,
    end: EventTime,
) -> EventView {
    EventView {
        uid,
        summary,
        start,
        end,
        description: None,
        status: None,
        transp: Transp::Opaque,
        organizer: None,
        dtstamp: None,
        last_modified: None,
    }
}

/// The epoch seconds that `DTSTAMP` shows: the explicit stamp, else `LAST-MODIFIED`, else the
/// Unix epoch.
pub open spec fn dtstamp_epoch(ev: EventView) -> int {
    match ev.dtstamp {
        Some(e) => e as int,
        None => match ev.last_modified {
            Some(e) => e as int,
            None => 0,
        },
    }
}

/// The stamps of one event as the serializer writes them.
pub struct EventTexts {
    pub dtstamp: String,
    pub start: String,
    pub end: String,
    pub last_modified: Option<String>,
}

/// Whether `t` holds the values that the serializer writes for the stamps of `ev`.
pub open spec fn event_texts_ok(ev: EventView, t: EventTexts) -> bool {
    &&& is_utc_text_of(dtstamp_epoch(ev), t.dtstamp@)
    &&& is_start_text(ev.start, t.start@)
    &&& is_end_text(ev.end, t.end@)
    &&& match ev.last_modified {
        Some(e) => t.last_modified matches Some(x) && is_utc_text_of(e as int, x@),
        None => t.last_modified is None,
    }
}

impl Event {
    fn base(uid: &str, summary: &str, start: EventTime, end: EventTime) -> (e: Event)
        ensures
            e@ == base_view(uid@, summary@, start, end),
    {
        Event {
            uid: string_of(uid),
            summary: string_of(summary),
            start,
            end,
            description: None,
            status: None,
            transp: Transp::Opaque,
            organizer: None,
            dtstamp: None,
            last_modified: None,
        }
    }

    /// A whole-day event on a single civil `date`. `DTEND` emits the exclusive next day (RFC 5545
    /// 3.6.1).
    pub fn all_day(uid: &str, summary: &str, date: Date) -> (e: Event)
        ensures
            e@ == base_view(uid@, summary@, EventTime::AllDay(date), EventTime::AllDay(date)),
    {
        Self::base(uid, summary, EventTime::AllDay(date), EventTime::AllDay(date))
    }

    /// A whole-day event spanning `start..=end` inclusive. `DTEND` emits the exclusive day after
    /// `end`.
    pub fn all_day_range(uid: &str, summary: &str, start: Date, end: Date) -> (e: Event)
        ensures
            e@ == base_view(uid@, summary@, EventTime::AllDay(start), EventTime::AllDay(end)),
    {
        Self::base(uid, summary, EventTime::AllDay(start), EventTime::AllDay(end))
    }

    /// An event with typed `start` and `end` instants (UTC or local wall-clock). Use
    /// [`all_day`](Self::all_day) / [`all_day_range`](Self::all_day_range) for `DATE` values.
    pub fn timed(uid: &str, summary: &str, start: EventTime, end: EventTime) -> (e: Event)
        ensures
            e@ == base_view(uid@, summary@, start, end),
    {
        Self::base(uid, summary, start, end)
    }

    /// Set the `DESCRIPTION` text (escaped on emit).
    pub fn with_description(self, description: &str) -> (e: Event)
        ensures
            e@ == (EventView { description: Some(description@), ..self@ }),
    {
        Event { description: Some(string_of(description)), ..self }
    }

    /// Set the `STATUS`.
    pub fn with_status(self, status: EventStatus) -> (e: Event)
        ensures
            e@ == (EventView { status: Some(status), ..self@ }),
    {
        Event { status: Some(status), ..self }
    }

    /// Set the `TRANSP`. `Transparent` keeps the event from consuming the subscriber's free/busy
    /// time; `Opaque` is the default and is omitted.
    pub fn with_transp(self, transp: Transp) -> (e: Event)
        ensures
            e@ == (EventView { transp, ..self@ }),
    {
        Event { transp, ..self }
    }

    /// Set the `ORGANIZER` (RFC 5545 3.8.4.3). `cn` is the display name; `email`, when given, is
    /// emitted as the `mailto:` calendar address, without any CR or LF so that it cannot break the
    /// line framing, otherwise the value falls back to a non-routable `invalid:nomail` URI.
    pub fn with_organizer(self, cn: &str, email: Option<String>) -> (e: Event)
        ensures
            e@ == (EventView { organizer: Some((cn@, opt_view(email))), ..self@ }),
    {
        Event { organizer: Some(Organizer { cn: string_of(cn), email }), ..self }
    }

    /// Set `LAST-MODIFIED` (epoch seconds). This also becomes the default `DTSTAMP` unless
    /// [`with_dtstamp`](Self::with_dtstamp) overrides it.
    pub fn with_last_modified(self, epoch: i64) -> (e: Event)
        ensures
            e@ == (EventView { last_modified: Some(epoch), ..self@ }),
    {
        Event { last_modified: Some(epoch), ..self }
    }

    /// Override `DTSTAMP` (epoch seconds) independently of `LAST-MODIFIED`. `DTSTAMP` is REQUIRED,
    /// so it always emits; without this it mirrors `LAST-MODIFIED`, falling back to the Unix epoch
    /// when neither is set.
    pub fn with_dtstamp(self, epoch: i64) -> (e: Event)
        ensures
            e@ == (EventView { dtstamp: Some(epoch), ..self@ }),
    {
        Event { dtstamp: Some(epoch), ..self }
    }

    /// The stamps that the serializer writes for this event: `DTSTAMP`, `DTSTART`, `DTEND` and
    /// `LAST-MODIFIED`.
    pub fn time_texts(&self) -> (t: EventTexts)
        ensures
            event_texts_ok(self@, t),
    {
        let stamp: i64 = match self.dtstamp {
            Some(e) => e,
            None => match self.last_modified {
                Some(e) => e,
                None => 0,
            },
        };
        let last_modified = match self.last_modified {
            Some(e) => Some(epoch_to_ics_utc(e)),
            None => None,
        };
        EventTexts {
            dtstamp: epoch_to_ics_utc(stamp),
            start: self.start.format_start(),
            end: self.end.format_end(),
            last_modified,
        }
    }
}

/// The text of a sequence of logical content lines, each folded and terminated with CRLF.
pub open spec fn lines_text(lines: Seq<Seq<char>>) -> Seq<char>
    decreases lines.len(),
{
    if lines.len() == 0 {
        seq![]
    } else {
        lines_text(lines.drop_last()) + content_line(lines.last())
    }
}

/// `s` without its carriage returns and line feeds.
pub open spec fn strip_line_breaks(s: Seq<char>) -> Seq<char>
    decreases s.len(),
{
    if s.len() == 0 {
        seq![]
    } else if s.last() == '\r' || s.last() == '\n' {
        strip_line_breaks(s.drop_last())
    } else {
        strip_line_breaks(s.drop_last()).push(s.last())
    }
}

/// The calendar address of an organizer: `mailto:` and the address without line breaks, which
/// would break the line framing, or the non-routable `invalid:nomail` without one.
pub open spec fn organizer_address(email: Option<Seq<char>>) -> Seq<char> {
    match email {
        Some(m) => "mailto:"@ + strip_line_breaks(m),
        None => "invalid:nomail"@,
    }
}

/// Appends `s` without its carriage returns and line feeds.
fn push_without_line_breaks(out: &mut String, s: &str)
    ensures
        final(out)@ == old(out)@ + strip_line_breaks(s@),
{
    let cs = chars_of(s);
    let mut i: usize = 0;
    while i < cs.len()
        invariant
            cs@ == s@,
            i <= cs.len(),
            out@ == old(out)@ + strip_line_breaks(cs@.take(i as int)),
        decreases cs.len() - i,
    {
        let c = cs[i];
        assert(cs@.take(i + 1).drop_last() =~= cs@.take(i as int));
        assert(cs@.take(i + 1).last() == c);
        if c != '\r' && c != '\n' {
            crate::text::push_char(out, c);
        }
        i += 1;
    }
    assert(cs@.take(cs.len() as int) =~= cs@);
}

/// The UID of an event as a calendar writes it: with `@` and the calendar's UID domain appended
/// when it has one.
pub open spec fn uid_text(uid_domain: Option<Seq<char>>, uid: Seq<char>) -> Seq<char> {
    match uid_domain {
        Some(d) => uid + seq!['@'] + d,
        None => uid,
    }
}

/// One line when the option holds one, none otherwise.
pub open spec fn opt_line(l: Option<Seq<char>>) -> Seq<Seq<char>> {
    match l {
        Some(x) => seq![x],
        None => seq![],
    }
}

/// The lines that open a `VEVENT`: its UID, stamps, summary, start and end.
pub open spec fn event_head_lines(uid_domain: Option<Seq<char>>, ev: EventView, t: EventTexts) -> Seq<
    Seq<char>,
> {
    seq![
        "BEGIN:VEVENT"@,
        "UID:"@ + escape_text(uid_text(uid_domain, ev.uid)),
        "DTSTAMP:"@ + t.dtstamp@,
        "SUMMARY:"@ + escape_text(ev.summary),
        "DTSTART"@ + value_param(ev.start) + ":"@ + t.start@,
        "DTEND"@ + value_param(ev.end) + ":"@ + t.end@,
    ]
}

/// The optional lines of a `VEVENT`, each only where its field is set: description, status,
/// organizer, and `TRANSP` for a transparent event.
pub open spec fn event_detail_lines(ev: EventView) -> Seq<Seq<char>> {
    opt_line(
        match ev.description {
            Some(d) => Some("DESCRIPTION:"@ + escape_text(d)),
            None => None,
        },
    ) + opt_line(
        match ev.status {
            Some(st) => Some("STATUS:"@ + st.keyword()),
            None => None,
        },
    ) + opt_line(
        match ev.organizer {
            Some((cn, email)) => Some(
                "ORGANIZER;CN="@ + param_value(cn) + ":"@ + organizer_address(email),
            ),
            None => None,
        },
    ) + opt_line(
        if ev.transp == Transp::Transparent {
            Some("TRANSP:TRANSPARENT"@)
        } else {
            None
        },
    )
}

/// The lines that close a `VEVENT`: `LAST-MODIFIED` where it is set, and `END:VEVENT`.
pub open spec fn event_tail_lines(t: EventTexts) -> Seq<Seq<char>> {
    opt_line(
        match t.last_modified {
            Some(x) => Some("LAST-MODIFIED:"@ + x@),
            None => None,
        },
    ) + seq!["END:VEVENT"@]
}

/// The logical content lines of a `VEVENT`, before folding.
pub open spec fn event_lines(uid_domain: Option<Seq<char>>, ev: EventView, t: EventTexts) -> Seq<
    Seq<char>,
> {
    event_head_lines(uid_domain, ev, t) + event_detail_lines(ev) + event_tail_lines(t)
}

/// The characters of each string.
pub open spec fn strings_view(v: Seq<String>) -> Seq<Seq<char>> {
    v.map_values(|s: String| s@)
}

fn push_line(v: &mut Vec<String>, l: String)
    ensures
        strings_view(final(v)@) == strings_view(old(v)@).push(l@),
{
    v.push(l);
    assert(strings_view(v@) =~= strings_view(old(v)@).push(l@));
}

fn push_opt_line(v: &mut Vec<String>, l: Option<String>)
    ensures
        strings_view(final(v)@) == strings_view(old(v)@) + opt_line(opt_view(l)),
{
    match l {
        Some(x) => {
            push_line(v, x);
            assert(strings_view(old(v)@).push(x@) =~= strings_view(old(v)@) + seq![x@]);
        },
        None => {
            assert(strings_view(old(v)@) + Seq::<Seq<char>>::empty() =~= strings_view(old(v)@));
        },
    }
}

/// Writes the lines, each folded and terminated with CRLF.
fn write_lines(out: &mut String, lines: &Vec<String>)
    ensures
        final(out)@ == old(out)@ + lines_text(strings_view(lines@)),
{
    let n = lines.len();
    let mut i: usize = 0;
    assert(strings_view(lines@).take(0) =~= Seq::<Seq<char>>::empty());
    while i < n
        invariant
            n == lines.len(),
            i <= n,
            out@ == old(out)@ + lines_text(strings_view(lines@).take(i as int)),
        decreases n - i,
    {
        write_content_line(out, lines[i].as_str());
        let ghost sv = strings_view(lines@);
        assert(sv.take(i + 1).drop_last() =~= sv.take(i as int));
        assert(sv.take(i + 1).last() == lines@[i as int]@);
        i += 1;
    }
    assert(strings_view(lines@).take(n as int) =~= strings_view(lines@));
}

/// The fields of a [`Calendar`].
pub ghost struct CalendarView {
    pub prodid: Seq<char>,
    pub uid_domain: Option<Seq<char>>,
    pub name: Option<Seq<char>>,
    pub description: Option<Seq<char>>,
    pub timezone: Option<Seq<char>>,
    pub events: Seq<EventView>,
}

/// The logical content lines that open a `VCALENDAR`: the required properties, then the name,
/// description and time-zone hint where they are set.
pub open spec fn header_lines(cal: CalendarView) -> Seq<Seq<char>> {
    let l0 = seq![
        "BEGIN:VCALENDAR"@,
        "VERSION:2.0"@,
        "PRODID:"@ + escape_text(cal.prodid),
        "CALSCALE:GREGORIAN"@,
        "METHOD:PUBLISH"@,
    ];
    let l1 = match cal.name {
        Some(n) => l0.push("X-WR-CALNAME:"@ + escape_text(n)).push("NAME:"@ + escape_text(n)),
        None => l0,
    };
    let l2 = match cal.description {
        Some(d) => l1.push("X-WR-CALDESC:"@ + escape_text(d)).push(
            "DESCRIPTION:"@ + escape_text(d),
        ),
        None => l1,
    };
    match cal.timezone {
        Some(tz) => l2.push("X-WR-TIMEZONE:"@ + escape_text(tz)),
        None => l2,
    }
}

/// The text of the first `k` events of a calendar, with the stamps `ts`.
pub open spec fn events_text(cal: CalendarView, ts: Seq<EventTexts>, k: int) -> Seq<char>
    decreases k,
{
    if k <= 0 {
        seq![]
    } else {
        events_text(cal, ts, k - 1) + lines_text(
            event_lines(cal.uid_domain, cal.events[k - 1], ts[k - 1]),
        )
    }
}

/// The serialized calendar, with the stamps `ts` for its events.
pub open spec fn calendar_text(cal: CalendarView, ts: Seq<EventTexts>) -> Seq<char> {
    lines_text(header_lines(cal)) + events_text(cal, ts, cal.events.len() as int) + content_line(
        "END:VCALENDAR"@,
    )
}

/// Whether `t` is what a calendar serializes to: its text with stamps that fit its events.
pub open spec fn calendar_renders(cal: CalendarView, t: Seq<char>) -> bool {
    exists|ts: Seq<EventTexts>|
        #![trigger calendar_text(cal, ts)]
        ts.len() == cal.events.len() && (forall|i: int|
            0 <= i < ts.len() ==> #[trigger] event_texts_ok(cal.events[i], ts[i]))
            && t == calendar_text(cal, ts)
}

/// A `VCALENDAR` published with `METHOD:PUBLISH` on the Gregorian scale.
///
/// Build one with [`Calendar::new`] and the `with_*` methods, then serialize it with
/// [`Calendar::to_string`].
///
/// A calendar with no events still serializes (to an empty `VCALENDAR`).
#[derive(Debug, Clone)]
pub struct Calendar {
    prodid: String,
    uid_domain: Option<String>,
    name: Option<String>,
    description: Option<String>,
    timezone: Option<String>,
    events: Vec<Event>,
}

impl View for Calendar {
    type V = CalendarView;

    closed spec fn view(&self) -> CalendarView {
        CalendarView {
            prodid: self.prodid@,
            uid_domain: opt_view(self.uid_domain),
            name: opt_view(self.name),
            description: opt_view(self.description),
            timezone: opt_view(self.timezone),
            events: self.events@.map_values(|e: Event| e@),
        }
    }
}

/// A line made of a literal prefix and escaped text.
fn text_line(prefix: &str, text: &str) -> (l: String)
    ensures
        l@ == prefix@ + escape_text(text@),
{
    let mut l = string_of(prefix);
    let e = escape_ics_text(text);
    l.append(e.as_str());
    l
}

impl Calendar {
    /// Create a calendar with the required `PRODID` (RFC 5545 3.7.3).
    pub fn new(prodid: &str) -> (c: Calendar)
        ensures
            c@ == (CalendarView {
                prodid: prodid@,
                uid_domain: None,
                name: None,
                description: None,
                timezone: None,
                events: seq![],
            }),
    {
        let c = Calendar {
            prodid: string_of(prodid),
            uid_domain: None,
            name: None,
            description: None,
            timezone: None,
            events: Vec::new(),
        };
        assert(c@.events =~= seq![]);
        c
    }

    /// Append `@domain` to every event UID. Without it each [`Event`] UID emits verbatim.
    pub fn with_uid_domain(self, domain: &str) -> (c: Calendar)
        ensures
            c@ == (CalendarView { uid_domain: Some(domain@), ..self@ }),
    {
        Calendar { uid_domain: Some(string_of(domain)), ..self }
    }

    /// Set the calendar name, emitted as `X-WR-CALNAME` plus the RFC 7986 `NAME`.
    pub fn with_name(self, name: &str) -> (c: Calendar)
        ensures
            c@ == (CalendarView { name: Some(name@), ..self@ }),
    {
        Calendar { name: Some(string_of(name)), ..self }
    }

    /// Set the calendar description, emitted as `X-WR-CALDESC` plus the RFC 7986 `DESCRIPTION`.
    pub fn with_description(self, description: &str) -> (c: Calendar)
        ensures
            c@ == (CalendarView { description: Some(description@), ..self@ }),
    {
        Calendar { description: Some(string_of(description)), ..self }
    }

    /// Set the `X-WR-TIMEZONE` display-zone hint.
    pub fn with_timezone(self, timezone: &str) -> (c: Calendar)
        ensures
            c@ == (CalendarView { timezone: Some(timezone@), ..self@ }),
    {
        Calendar { timezone: Some(string_of(timezone)), ..self }
    }

    /// Set the event list. The caller owns ordering; events emit as given.
    pub fn with_events(self, events: Vec<Event>) -> (c: Calendar)
        ensures
            c@ == (CalendarView { events: events@.map_values(|e: Event| e@), ..self@ }),
    {
        Calendar { events, ..self }
    }

    fn push_head_lines(&self, v: &mut Vec<String>, ev: &Event, t: &EventTexts)
        ensures
            strings_view(final(v)@) == strings_view(old(v)@) + event_head_lines(
                self@.uid_domain,
                ev@,
                *t,
            ),
    {
        let mut uid = ev.uid.clone();
        match &self.uid_domain {
            Some(domain) => {
                crate::text::push_char(&mut uid, '@');
                uid.append(domain.as_str());
            },
            None => {},
        }
        assert(uid@ == uid_text(self@.uid_domain, ev@.uid));
        push_line(v, string_of("BEGIN:VEVENT"));
        push_line(v, text_line("UID:", uid.as_str()));
        let mut l = string_of("DTSTAMP:");
        l.append(t.dtstamp.as_str());
        push_line(v, l);
        push_line(v, text_line("SUMMARY:", ev.summary.as_str()));
        let mut l = string_of("DTSTART");
        l.append(ev.start.value_param());
        l.append(":");
        l.append(t.start.as_str());
        push_line(v, l);
        let mut l = string_of("DTEND");
        l.append(ev.end.value_param());
        l.append(":");
        l.append(t.end.as_str());
        push_line(v, l);
        assert(strings_view(v@) =~= strings_view(old(v)@) + event_head_lines(
            self@.uid_domain,
            ev@,
            *t,
        ));
    }

    fn push_detail_lines(v: &mut Vec<String>, ev: &Event)
        ensures
            strings_view(final(v)@) == strings_view(old(v)@) + event_detail_lines(ev@),
    {
        let desc = match &ev.description {
            Some(d) => Some(text_line("DESCRIPTION:", d.as_str())),
            None => None,
        };
        assert(opt_view(desc) == (match ev@.description {
            Some(d) => Some("DESCRIPTION:"@ + escape_text(d)),
            None => None,
        }));
        push_opt_line(v, desc);
        let status = match ev.status {
            Some(st) => {
                let mut l = string_of("STATUS:");
                l.append(st.as_ics());
                Some(l)
            },
            None => None,
        };
        assert(opt_view(status) == (match ev@.status {
            Some(st) => Some("STATUS:"@ + st.keyword()),
            None => None,
        }));
        push_opt_line(v, status);
        let organizer = match &ev.organizer {
            Some(org) => {
                let mut l = string_of("ORGANIZER;CN=");
                let cn = format_param_value(org.cn.as_str());
                l.append(cn.as_str());
                l.append(":");
                match &org.email {
                    Some(mail) => {
                        l.append("mailto:");
                        push_without_line_breaks(&mut l, mail.as_str());
                    },
                    None => {
                        l.append("invalid:nomail");
                    },
                }
                assert(l@ =~= "ORGANIZER;CN="@ + param_value(org.cn@) + ":"@ + organizer_address(
                    opt_view(org.email),
                ));
                Some(l)
            },
            None => None,
        };
        assert(opt_view(organizer) == (match ev@.organizer {
            Some((cn, email)) => Some(
                "ORGANIZER;CN="@ + param_value(cn) + ":"@ + organizer_address(email),
            ),
            None => None,
        }));
        push_opt_line(v, organizer);
        let transp = if ev.transp == Transp::Transparent {
            Some(string_of("TRANSP:TRANSPARENT"))
        } else {
            None
        };
        push_opt_line(v, transp);
        assert(strings_view(v@) =~= strings_view(old(v)@) + event_detail_lines(ev@));
    }

    fn push_tail_lines(v: &mut Vec<String>, t: &EventTexts)
        ensures
            strings_view(final(v)@) == strings_view(old(v)@) + event_tail_lines(*t),
    {
        let last_modified = match &t.last_modified {
            Some(x) => {
                let mut l = string_of("LAST-MODIFIED:");
                l.append(x.as_str());
                Some(l)
            },
            None => None,
        };
        push_opt_line(v, last_modified);
        push_line(v, string_of("END:VEVENT"));
        assert(strings_view(v@) =~= strings_view(old(v)@) + event_tail_lines(*t));
    }

    /// Writes the lines of one event, with its stamps `t`.
    fn write_event(&self, out: &mut String, ev: &Event, t: &EventTexts)
        ensures
            final(out)@ == old(out)@ + lines_text(event_lines(self@.uid_domain, ev@, *t)),
    {
        let mut v: Vec<String> = Vec::new();
        assert(strings_view(v@) =~= Seq::<Seq<char>>::empty());
        self.push_head_lines(&mut v, ev, t);
        Self::push_detail_lines(&mut v, ev);
        Self::push_tail_lines(&mut v, t);
        assert(strings_view(v@) =~= event_lines(self@.uid_domain, ev@, *t));
        write_lines(out, &v);
    }
}

impl Calendar {
    fn header_line_strings(&self) -> (v: Vec<String>)
        ensures
            strings_view(v@) == header_lines(self@),
    {
        let mut v: Vec<String> = Vec::new();
        push_line(&mut v, string_of("BEGIN:VCALENDAR"));
        push_line(&mut v, string_of("VERSION:2.0"));
        push_line(&mut v, text_line("PRODID:", self.prodid.as_str()));
        push_line(&mut v, string_of("CALSCALE:GREGORIAN"));
        push_line(&mut v, string_of("METHOD:PUBLISH"));
        let ghost l0 = strings_view(v@);
        assert(l0 =~= seq![
            "BEGIN:VCALENDAR"@,
            "VERSION:2.0"@,
            "PRODID:"@ + escape_text(self@.prodid),
            "CALSCALE:GREGORIAN"@,
            "METHOD:PUBLISH"@,
        ]);
        match &self.name {
            Some(name) => {
                // X-WR-CALNAME is the de-facto client property; NAME is its standardized RFC 7986
                // equivalent, emitted alongside for symmetry.
                push_line(&mut v, text_line("X-WR-CALNAME:", name.as_str()));
                push_line(&mut v, text_line("NAME:", name.as_str()));
            },
            None => {},
        }
        match &self.description {
            Some(desc) => {
                // Likewise X-WR-CALDESC plus the RFC 7986 calendar DESCRIPTION.
                push_line(&mut v, text_line("X-WR-CALDESC:", desc.as_str()));
                push_line(&mut v, text_line("DESCRIPTION:", desc.as_str()));
            },
            None => {},
        }
        match &self.timezone {
            Some(tz) => {
                push_line(&mut v, text_line("X-WR-TIMEZONE:", tz.as_str()));
            },
            None => {},
        }
        assert(strings_view(v@) =~= header_lines(self@));
        v
    }

    /// Serializes the calendar with the given stamps for its events, one [`EventTexts`] per event
    /// in order, as [`Event::time_texts`] gives them.
    pub fn render(&self, texts: &Vec<EventTexts>) -> (r: String)
        requires
            texts.len() == self@.events.len(),
        ensures
            r@ == calendar_text(self@, texts@),
    {
        let mut out = String::new();
        let head = self.header_line_strings();
        write_lines(&mut out, &head);
        let n = self.events.len();
        let mut i: usize = 0;
        assert(out@ =~= lines_text(header_lines(self@)) + events_text(self@, texts@, 0));
        while i < n
            invariant
                n == self.events.len(),
                n == texts.len(),
                i <= n,
                out@ == lines_text(header_lines(self@)) + events_text(self@, texts@, i as int),
            decreases n - i,
        {
            assert(self@.events[i as int] == self.events@[i as int]@);
            self.write_event(&mut out, &self.events[i], &texts[i]);
            assert(out@ =~= lines_text(header_lines(self@)) + events_text(
                self@,
                texts@,
                i + 1,
            ));
            i += 1;
        }
        write_content_line(&mut out, "END:VCALENDAR");
        out
    }

    /// Serializes the calendar to its `VCALENDAR` text: the required properties, the optional
    /// name, description and time-zone hint, each event as a `VEVENT` in the order given, and the
    /// closing line, every content line escaped, folded to 75 octets and terminated with CRLF.
    pub fn to_string(&self) -> (r: String)
        ensures
            calendar_renders(self@, r@),
    {
        let n = self.events.len();
        let mut texts: Vec<EventTexts> = Vec::new();
        let mut i: usize = 0;
        while i < n
            invariant
                n == self.events.len(),
                i <= n,
                texts.len() == i,
                forall|j: int|
                    0 <= j < i ==> #[trigger] event_texts_ok(self@.events[j], texts@[j]),
            decreases n - i,
        {
            assert(self@.events[i as int] == self.events@[i as int]@);
            let t = self.events[i].time_texts();
            texts.push(t);
            i += 1;
        }
        let r = self.render(&texts);
        assert(calendar_text(self@, texts@) == r@);
        r
    }
}

} // verus!
