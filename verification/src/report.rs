//! The console report of the upgrade checks: section headers, one line per finding with its
//! level and colour, counters per level, and the closing summary. The text is built here; the
//! caller writes it, setting the given style first.
use vstd::prelude::*;
use crate::civil::{decimal, push_decimal};
use crate::text::{push_char, string_of};

verus! {

/// The level of a reported line.
#[derive(Clone, Copy, Debug, PartialEq, Eq, Structural)]
pub enum LogLevel {
    Pass,
    Info,
    Skip,
    Notice,
    Warn,
    Fail,
}

/// How a piece of report text is to be shown on a colour terminal.
#[derive(Clone, Copy, Debug, PartialEq, Eq, Structural)]
pub enum Style {
    /// Default colours.
    Plain,
    Green,
    WhiteBold,
    Yellow,
    RedBold,
}

/// How many lines of each counted level were reported.
#[derive(Clone, Copy, Debug, PartialEq, Eq, Structural)]
pub struct Counters {
    pub pass: u64,
    pub skip: u64,
    pub notice: u64,
    pub warn: u64,
    pub fail: u64,
}

/// The state of a report: whether a header was printed yet, and the counters.
#[derive(Clone, Copy, Debug, PartialEq, Eq, Structural)]
pub struct Report {
    pub first_header: bool,
    pub counters: Counters,
}

/// The text that starts a line of `level`.
pub open spec fn level_prefix(level: LogLevel) -> Seq<char> {
    match level {
        LogLevel::Pass => "PASS: "@,
        LogLevel::Info => "INFO: "@,
        LogLevel::Skip => "SKIP: "@,
        LogLevel::Notice => "NOTICE: "@,
        LogLevel::Warn => "WARN: "@,
        LogLevel::Fail => "FAIL: "@,
    }
}

/// The style a line of `level` is shown in.
pub open spec fn level_style(level: LogLevel) -> Style {
    match level {
        LogLevel::Pass => Style::Green,
        LogLevel::Info => Style::Plain,
        LogLevel::Skip => Style::Plain,
        LogLevel::Notice => Style::WhiteBold,
        LogLevel::Warn => Style::Yellow,
        LogLevel::Fail => Style::RedBold,
    }
}

/// Whether the counter of `level` can still be raised (informational lines are not counted).
pub open spec fn can_count(c: Counters, level: LogLevel) -> bool {
    match level {
        LogLevel::Pass => c.pass < u64::MAX,
        LogLevel::Info => true,
        LogLevel::Skip => c.skip < u64::MAX,
        LogLevel::Notice => c.notice < u64::MAX,
        LogLevel::Warn => c.warn < u64::MAX,
        LogLevel::Fail => c.fail < u64::MAX,
    }
}

/// The counters after one more line of `level`.
pub open spec fn counted(c: Counters, level: LogLevel) -> Counters {
    match level {
        LogLevel::Pass => Counters { pass: (c.pass + 1) as u64, ..c },
        LogLevel::Info => c,
        LogLevel::Skip => Counters { skip: (c.skip + 1) as u64, ..c },
        LogLevel::Notice => Counters { notice: (c.notice + 1) as u64, ..c },
        LogLevel::Warn => Counters { warn: (c.warn + 1) as u64, ..c },
        LogLevel::Fail => Counters { fail: (c.fail + 1) as u64, ..c },
    }
}

/// The number of counted lines of all levels.
pub open spec fn total(c: Counters) -> int {
    c.fail + c.pass + c.notice + c.skip + c.warn
}

/// The text of a section header: a blank line before every header but the first, then
/// `= message =` and a blank line.
pub open spec fn header_text(first_header: bool, message: Seq<char>) -> Seq<char> {
    (if first_header {
        Seq::empty()
    } else {
        seq!['\n']
    }) + "= "@ + message + " =\n\n"@
}

/// The text of a reported line of `level`.
pub open spec fn line_text(level: LogLevel, message: Seq<char>) -> Seq<char> {
    level_prefix(level) + message + seq!['\n']
}

/// A labelled count of the summary, e.g. `PASSED:    3`.
pub open spec fn count_line(label: Seq<char>, n: nat) -> Seq<char> {
    label + decimal(n) + seq!['\n']
}

/// `piece` if `cond` holds, else nothing.
pub open spec fn piece_if(cond: bool, piece: (Style, Seq<char>)) -> Seq<(Style, Seq<char>)> {
    if cond {
        seq![piece]
    } else {
        Seq::empty()
    }
}

/// The style of the closing advice: red when something failed, else yellow.
pub open spec fn attention_style(c: Counters) -> Style {
    if c.fail > 0 {
        Style::RedBold
    } else {
        Style::Yellow
    }
}

/// The summary of a report in state `r`: the header, the total and the count of each level, the
/// warnings and failures only where there are some, then the advice to look at the output when
/// there were warnings or failures, and to fix the failures one by one when there were failures.
pub open spec fn summary_pieces(r: Report) -> Seq<(Style, Seq<char>)> {
    let c = r.counters;
    seq![
        (Style::Plain, header_text(r.first_header, "SUMMARY"@)),
        (Style::Plain, count_line("TOTAL:     "@, total(c) as nat)),
        (Style::Green, count_line("PASSED:    "@, c.pass as nat)),
        (Style::Plain, count_line("SKIPPED:   "@, c.skip as nat)),
        (Style::Plain, count_line("NOTICE:    "@, c.notice as nat)),
    ] + piece_if(c.warn > 0, (Style::Yellow, count_line("WARNINGS:  "@, c.warn as nat)))
        + piece_if(c.fail > 0, (Style::RedBold, count_line("FAILURES:  "@, c.fail as nat)))
        + piece_if(
        c.warn > 0 || c.fail > 0,
        (attention_style(c), "\nATTENTION: Please check the output for detailed information!\n"@),
    ) + piece_if(
        c.fail > 0,
        (
            Style::RedBold,
            "Try to solve the problems one at a time and rerun this checklist tool again.\n"@,
        ),
    )
}

/// The pieces of styled text held in `v`.
pub open spec fn pieces_view(v: Seq<(Style, String)>) -> Seq<(Style, Seq<char>)> {
    v.map_values(|p: (Style, String)| (p.0, p.1@))
}

fn prefix_of(level: LogLevel) -> (r: &'static str)
    ensures
        r@ == level_prefix(level),
{
    match level {
        LogLevel::Pass => "PASS: ",
        LogLevel::Info => "INFO: ",
        LogLevel::Skip => "SKIP: ",
        LogLevel::Notice => "NOTICE: ",
        LogLevel::Warn => "WARN: ",
        LogLevel::Fail => "FAIL: ",
    }
}

fn count_text(label: &str, n: u64) -> (r: String)
    ensures
        r@ == count_line(label@, n as nat),
{
    let mut r = String::new();
    r.append(label);
    push_decimal(&mut r, n);
    push_char(&mut r, '\n');
    r
}

fn push_piece(v: &mut Vec<(Style, String)>, style: Style, text: String)
    ensures
        pieces_view(final(v)@) == pieces_view(old(v)@).push((style, text@)),
{
    let ghost before = v@;
    v.push((style, text));
    assert(pieces_view(v@) =~= pieces_view(before).push((style, text@)));
}

impl Report {
    /// A report before anything was printed.
    pub fn new() -> (r: Report)
        ensures
            r.first_header,
            r.counters == (Counters { pass: 0, skip: 0, notice: 0, warn: 0, fail: 0 }),
    {
        Report {
            first_header: true,
            counters: Counters { pass: 0, skip: 0, notice: 0, warn: 0, fail: 0 },
        }
    }

    /// The text of a section header; every later header is preceded by a blank line.
    pub fn header(&mut self, message: &str) -> (r: String)
        ensures
            r@ == header_text(old(self).first_header, message@),
            !final(self).first_header,
            final(self).counters == old(self).counters,
    {
        let mut r = String::new();
        if !self.first_header {
            push_char(&mut r, '\n');
        }
        self.first_header = false;
        r.append("= ");
        r.append(message);
        r.append(" =\n\n");
        proof {
            if old(self).first_header {
                assert(r@ =~= header_text(true, message@));
            } else {
                assert(r@ =~= header_text(false, message@));
            }
        }
        r
    }

    /// A reported line of `level`, with the style to show it in; every level but `Info` is
    /// counted.
    pub fn log_line(&mut self, level: LogLevel, message: &str) -> (r: (Style, String))
        requires
            can_count(old(self).counters, level),
        ensures
            r.0 == level_style(level),
            r.1@ == line_text(level, message@),
            final(self).counters == counted(old(self).counters, level),
            final(self).first_header == old(self).first_header,
    {
        let style = match level {
            LogLevel::Pass => {
                self.counters.pass = self.counters.pass + 1;
                Style::Green
            },
            LogLevel::Info => Style::Plain,
            LogLevel::Skip => {
                self.counters.skip = self.counters.skip + 1;
                Style::Plain
            },
            LogLevel::Notice => {
                self.counters.notice = self.counters.notice + 1;
                Style::WhiteBold
            },
            LogLevel::Warn => {
                self.counters.warn = self.counters.warn + 1;
                Style::Yellow
            },
            LogLevel::Fail => {
                self.counters.fail = self.counters.fail + 1;
                Style::RedBold
            },
        };
        let mut text = String::new();
        text.append(prefix_of(level));
        text.append(message);
        push_char(&mut text, '\n');
        (style, text)
    }

    /// The summary of all lines reported so far, as pieces of styled text to write in order;
    /// it starts a section of its own.
    pub fn summary(&mut self) -> (r: Vec<(Style, String)>)
        requires
            total(old(self).counters) <= u64::MAX,
        ensures
            pieces_view(r@) == summary_pieces(*old(self)),
            !final(self).first_header,
            final(self).counters == old(self).counters,
    {
        let c = self.counters;
        let mut r: Vec<(Style, String)> = Vec::new();
        let head = self.header("SUMMARY");
        push_piece(&mut r, Style::Plain, head);
        let total_count: u64 = c.fail + c.pass + c.notice + c.skip + c.warn;
        push_piece(&mut r, Style::Plain, count_text("TOTAL:     ", total_count));
        push_piece(&mut r, Style::Green, count_text("PASSED:    ", c.pass));
        push_piece(&mut r, Style::Plain, count_text("SKIPPED:   ", c.skip));
        push_piece(&mut r, Style::Plain, count_text("NOTICE:    ", c.notice));
        let ghost base = pieces_view(r@);
        if c.warn > 0 {
            push_piece(&mut r, Style::Yellow, count_text("WARNINGS:  ", c.warn));
        }
        let ghost after_warn = pieces_view(r@);
        if c.fail > 0 {
            push_piece(&mut r, Style::RedBold, count_text("FAILURES:  ", c.fail));
        }
        let ghost after_fail = pieces_view(r@);
        if c.warn > 0 || c.fail > 0 {
            let style = if c.fail > 0 {
                Style::RedBold
            } else {
                Style::Yellow
            };
            push_piece(
                &mut r,
                style,
                string_of("\nATTENTION: Please check the output for detailed information!\n"),
            );
        }
        let ghost after_attention = pieces_view(r@);
        if c.fail > 0 {
            push_piece(
                &mut r,
                Style::RedBold,
                string_of(
                    "Try to solve the problems one at a time and rerun this checklist tool again.\n",
                ),
            );
        }
        proof {
            let w = piece_if(c.warn > 0, (Style::Yellow, count_line("WARNINGS:  "@, c.warn as nat)));
            let f = piece_if(c.fail > 0, (Style::RedBold, count_line("FAILURES:  "@, c.fail as nat)));
            let a = piece_if(
                c.warn > 0 || c.fail > 0,
                (attention_style(c), "\nATTENTION: Please check the output for detailed information!\n"@),
            );
            let t = piece_if(
                c.fail > 0,
                (
                    Style::RedBold,
                    "Try to solve the problems one at a time and rerun this checklist tool again.\n"@,
                ),
            );
            assert(after_warn =~= base + w);
            assert(after_fail =~= base + w + f);
            assert(after_attention =~= base + w + f + a);
            assert(pieces_view(r@) =~= base + w + f + a + t);
            assert(base =~= seq![
                (Style::Plain, header_text(old(self).first_header, "SUMMARY"@)),
                (Style::Plain, count_line("TOTAL:     "@, total(c) as nat)),
                (Style::Green, count_line("PASSED:    "@, c.pass as nat)),
                (Style::Plain, count_line("SKIPPED:   "@, c.skip as nat)),
                (Style::Plain, count_line("NOTICE:    "@, c.notice as nat)),
            ]);
        }
        r
    }
}

/// The characters of report lines.
pub open spec fn lines_view(v: Seq<(LogLevel, String)>) -> Seq<(LogLevel, Seq<char>)> {
    v.map_values(|l: (LogLevel, String)| (l.0, l.1@))
}

/// The levels of report lines.
pub open spec fn levels_of(lines: Seq<(LogLevel, Seq<char>)>) -> Seq<LogLevel> {
    lines.map_values(|l: (LogLevel, Seq<char>)| l.0)
}

/// The styled text that reports the lines, in order.
pub open spec fn report_pieces(lines: Seq<(LogLevel, Seq<char>)>) -> Seq<(Style, Seq<char>)> {
    lines.map_values(|l: (LogLevel, Seq<char>)| (level_style(l.0), line_text(l.0, l.1)))
}

impl Report {
    /// Reports each of `lines` in order, as [`Report::log_line`] does, and gives the styled text
    /// to write.
    pub fn log_lines(&mut self, lines: &Vec<(LogLevel, String)>) -> (r: Vec<(Style, String)>)
        requires
            total(old(self).counters) + lines.len() <= u64::MAX,
        ensures
            pieces_view(r@) == report_pieces(lines_view(lines@)),
            final(self).counters == counted_all(old(self).counters, levels_of(lines_view(lines@))),
            final(self).first_header == old(self).first_header,
    {
        let ghost start = self.counters;
        let ghost levels = levels_of(lines_view(lines@));
        let mut r: Vec<(Style, String)> = Vec::new();
        let mut i: usize = 0;
        assert(levels.take(0) =~= Seq::<LogLevel>::empty());
        while i < lines.len()
            invariant
                i <= lines.len(),
                levels == levels_of(lines_view(lines@)),
                levels.len() == lines.len(),
                total(start) + lines.len() <= u64::MAX,
                self.counters == counted_all(start, levels.take(i as int)),
                total(self.counters) <= total(start) + i,
                self.first_header == old(self).first_header,
                pieces_view(r@) == report_pieces(lines_view(lines@).take(i as int)),
            decreases lines.len() - i,
        {
            let level = lines[i].0;
            assert(levels[i as int] == level);
            let (style, text) = self.log_line(level, lines[i].1.as_str());
            let ghost before = r@;
            r.push((style, text));
            proof {
                assert(levels.take(i + 1).drop_last() =~= levels.take(i as int));
                assert(levels.take(i + 1).last() == level);
                assert(pieces_view(r@) =~= pieces_view(before).push((style, text@)));
                assert(lines_view(lines@).take(i + 1) =~= lines_view(lines@).take(i as int).push(
                    lines_view(lines@)[i as int],
                ));
                assert(report_pieces(lines_view(lines@).take(i + 1)) =~= report_pieces(
                    lines_view(lines@).take(i as int),
                ).push((style, text@)));
            }
            i += 1;
        }
        assert(levels.take(lines.len() as int) =~= levels);
        assert(lines_view(lines@).take(lines.len() as int) =~= lines_view(lines@));
        r
    }
}

/// The counters of a fresh report.
pub open spec fn no_counts() -> Counters {
    Counters { pass: 0, skip: 0, notice: 0, warn: 0, fail: 0 }
}

/// The counters after reporting lines of `levels`, in order, starting from `c`.
pub open spec fn counted_all(c: Counters, levels: Seq<LogLevel>) -> Counters
    decreases levels.len(),
{
    if levels.len() == 0 {
        c
    } else {
        counted(counted_all(c, levels.drop_last()), levels.last())
    }
}

/// How many of `levels` are counted, that is not informational.
pub open spec fn counted_lines(levels: Seq<LogLevel>) -> nat
    decreases levels.len(),
{
    if levels.len() == 0 {
        0
    } else {
        counted_lines(levels.drop_last()) + if levels.last() == LogLevel::Info {
            0nat
        } else {
            1nat
        }
    }
}

/// The total of a summary is the number of lines reported before it that are not informational,
/// and reporting them never overflows a counter while that number fits in a `u64`.
#[verifier::spinoff_prover]
#[verifier::rlimit(40)]
pub proof fn lemma_total_counts_lines(levels: Seq<LogLevel>)
    requires
        counted_lines(levels) <= u64::MAX,
    ensures
        total(counted_all(no_counts(), levels)) == counted_lines(levels),
        forall|k: int|
            0 <= k < levels.len() ==> can_count(
                counted_all(no_counts(), levels.take(k)),
                #[trigger] levels[k],
            ),
    decreases levels.len(),
{
    if levels.len() > 0 {
        let init = levels.drop_last();
        assert(counted_lines(init) <= counted_lines(levels));
        lemma_total_counts_lines(init);
        let c = counted_all(no_counts(), init);
        assert(levels.take(levels.len() - 1) =~= init);
        assert forall|k: int| 0 <= k < levels.len() implies can_count(
            counted_all(no_counts(), levels.take(k)),
            #[trigger] levels[k],
        ) by {
            if k < levels.len() - 1 {
                assert(levels.take(k) =~= init.take(k));
                assert(levels[k] == init[k]);
            }
        }
    }
}

/// How many of `levels` are `level`.
pub open spec fn occurrences(levels: Seq<LogLevel>, level: LogLevel) -> nat
    decreases levels.len(),
{
    if levels.len() == 0 {
        0
    } else {
        occurrences(levels.drop_last(), level) + if levels.last() == level {
            1nat
        } else {
            0nat
        }
    }
}

/// Each counter of a report holds the number of lines of its own level reported so far: passes
/// count passes, warnings count warnings, failures count failures, and so on, while
/// informational lines are counted nowhere.
#[verifier::spinoff_prover]
pub proof fn lemma_counters_count_each_level(levels: Seq<LogLevel>)
    requires
        counted_lines(levels) <= u64::MAX,
    ensures
        counted_all(no_counts(), levels).pass == occurrences(levels, LogLevel::Pass),
        counted_all(no_counts(), levels).skip == occurrences(levels, LogLevel::Skip),
        counted_all(no_counts(), levels).notice == occurrences(levels, LogLevel::Notice),
        counted_all(no_counts(), levels).warn == occurrences(levels, LogLevel::Warn),
        counted_all(no_counts(), levels).fail == occurrences(levels, LogLevel::Fail),
        counted_lines(levels) == occurrences(levels, LogLevel::Pass) + occurrences(
            levels,
            LogLevel::Skip,
        ) + occurrences(levels, LogLevel::Notice) + occurrences(levels, LogLevel::Warn)
            + occurrences(levels, LogLevel::Fail),
        counted_lines(levels) + occurrences(levels, LogLevel::Info) == levels.len(),
    decreases levels.len(),
{
    if levels.len() > 0 {
        let init = levels.drop_last();
        assert(counted_lines(init) <= counted_lines(levels));
        lemma_counters_count_each_level(init);
    }
}

} // verus!
