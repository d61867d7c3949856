//! Filter types of the syslog and journal API, and the check of the journal priority filter.
use vstd::prelude::*;
use crate::text::{chars_of, push_char, string_of};

verus! {

/// Syslog API filtering options.
pub struct SyslogFilter {
    pub start: Option<u64>,
    pub limit: Option<u64>,
    pub since: Option<String>,
    pub until: Option<String>,
    pub service: Option<String>,
}

/// Syslog line with line number.
pub struct SyslogLine {
    /// Line number.
    pub n: u64,
    /// Line text.
    pub t: String,
}

/// Journal API filtering options.
pub struct JournalFilter {
    pub since: Option<u64>,
    pub until: Option<u64>,
    pub lastentries: Option<u64>,
    pub startcursor: Option<String>,
    pub endcursor: Option<String>,
    pub priority: Option<String>,
    pub structured: bool,
    pub service: Option<String>,
    pub unit: Option<String>,
    pub kernel: bool,
    pub identifiers: bool,
    pub units: bool,
}

/// A syslog level: one of the digits `0` (emerg) to `7` (debug).
pub open spec fn is_level(c: char) -> bool {
    '0' <= c && c <= '7'
}

/// A valid journal priority filter: empty (no filter), a single level, or a `LOW..HIGH` range
/// of two levels.
pub open spec fn valid_priority(s: Seq<char>) -> bool {
    ||| s.len() == 0
    ||| s.len() == 1 && is_level(s[0])
    ||| s.len() == 4 && is_level(s[0]) && s[1] == '.' && s[2] == '.' && is_level(s[3])
}

/// The syslog levels are exactly the eight digits `0` (emerg) to `7` (debug): each of them is
/// accepted alone and as either end of a `LOW..HIGH` range, the empty filter is accepted, and
/// nothing else of one or four characters is a level or a range.
pub proof fn lemma_priority_levels(a: char, b: char)
    ensures
        is_level(a) <==> (a == '0' || a == '1' || a == '2' || a == '3' || a == '4' || a == '5'
            || a == '6' || a == '7'),
        valid_priority(seq![a]) <==> (48 <= a as u32 <= 55),
        valid_priority(seq![a, '.', '.', b]) <==> (48 <= a as u32 <= 55 && 48 <= b as u32 <= 55),
        valid_priority(Seq::<char>::empty()),
        !valid_priority(seq![a, b]),
{
    assert(seq![a].len() == 1 && seq![a][0] == a);
    assert(seq![a, '.', '.', b][0] == a && seq![a, '.', '.', b][3] == b);
}

/// A priority filter that was refused, with the text that was given.
pub struct PriorityError {
    pub value: String,
}

/// The fixed part of the refusal message that follows the quoted value.
pub open spec fn priority_error_tail() -> Seq<char> {
    "' is not a valid syslog priority, expected 0-7 or LOW..HIGH"@
}

impl PriorityError {
    /// The message that explains the refusal.
    pub fn message(&self) -> (r: String)
        ensures
            r@ == seq!['\''] + self.value@ + priority_error_tail(),
    {
        let mut r = String::new();
        push_char(&mut r, '\'');
        r.append(self.value.as_str());
        r.append("' is not a valid syslog priority, expected 0-7 or LOW..HIGH");
        r
    }
}

fn is_level_char(c: char) -> (b: bool)
    ensures
        b == is_level(c),
{
    '0' <= c && c <= '7'
}

/// Validates the priority filter: a single syslog level 0 to 7, or a `LOW..HIGH` range of them;
/// the empty string means no filter.
pub fn verify_journal_priority(value: &str) -> (r: Result<(), PriorityError>)
    ensures
        r is Ok <==> valid_priority(value@),
        r matches Err(e) ==> e.value@ == value@,
{
    let cs = chars_of(value);
    let n = cs.len();
    let valid = if n == 0 {
        true
    } else if n == 1 {
        is_level_char(cs[0])
    } else if n == 4 {
        is_level_char(cs[0]) && cs[1] == '.' && cs[2] == '.' && is_level_char(cs[3])
    } else {
        false
    };
    if valid {
        Ok(())
    } else {
        Err(PriorityError { value: string_of(value) })
    }
}

} // verus!
