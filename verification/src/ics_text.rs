//! The RFC 5545 wire-format rules for text: `TEXT` escaping, parameter-value quoting and the
//! folding of content lines to at most 75 octets.
use vstd::prelude::*;

use crate::text::{char_octets, char_octets_of, chars_of, lemma_octets_concat, octets, push_char, push_range};

verus! {

/// Maximum octets in one physical content line before folding (RFC 5545 3.1).
pub const MAX_LINE_OCTETS: usize = 75;

/// The line terminator, CR LF.
pub open spec fn crlf() -> Seq<char> {
    seq!['\r', '\n']
}

// ---------------------------------------------------------------------------------------------
// TEXT escaping
// ---------------------------------------------------------------------------------------------
/// Normalizes every carriage return to a line feed, a CR LF pair collapsing to a single LF.
pub open spec fn normalize_newlines(s: Seq<char>) -> Seq<char>
    decreases s.len(),
{
    if s.len() == 0 {
        seq![]
    } else if s[0] == '\r' && s.len() >= 2 && s[1] == '\n' {
        seq!['\n'] + normalize_newlines(s.skip(2))
    } else if s[0] == '\r' {
        seq!['\n'] + normalize_newlines(s.drop_first())
    } else {
        seq![s[0]] + normalize_newlines(s.drop_first())
    }
}

/// The escaped form of one character of a `TEXT` value (RFC 5545 3.3.11).
pub open spec fn escape_char(c: char) -> Seq<char> {
    if c == '\\' {
        seq!['\\', '\\']
    } else if c == ';' {
        seq!['\\', ';']
    } else if c == ',' {
        seq!['\\', ',']
    } else if c == '\n' {
        seq!['\\', 'n']
    } else {
        seq![c]
    }
}

/// Escapes each character of `s` on its own.
pub open spec fn escape_chars(s: Seq<char>) -> Seq<char>
    decreases s.len(),
{
    if s.len() == 0 {
        seq![]
    } else {
        escape_char(s[0]) + escape_chars(s.drop_first())
    }
}

/// The escaped form of a `TEXT` value: carriage returns are normalized to line feeds first, then
/// backslash, semicolon, comma and line feed each gain a backslash prefix (a line feed becoming
/// the two characters `\n`).
pub open spec fn escape_text(s: Seq<char>) -> Seq<char> {
    escape_chars(normalize_newlines(s))
}

proof fn lemma_escape_chars_single(c: char)
    ensures
        escape_chars(seq![c]) == escape_char(c),
{
    assert(seq![c].drop_first() =~= Seq::<char>::empty());
    assert(escape_chars(Seq::<char>::empty()) =~= Seq::<char>::empty());
    assert(escape_char(c) + Seq::<char>::empty() =~= escape_char(c));
}

proof fn lemma_escape_chars_concat(a: Seq<char>, b: Seq<char>)
    ensures
        escape_chars(a + b) == escape_chars(a) + escape_chars(b),
    decreases a.len(),
{
    if a.len() == 0 {
        assert(a + b =~= b);
        assert(escape_chars(a) =~= seq![]);
    } else {
        assert((a + b).drop_first() =~= a.drop_first() + b);
        lemma_escape_chars_concat(a.drop_first(), b);
        assert(escape_chars(a + b) =~= escape_char(a[0]) + (escape_chars(a.drop_first())
            + escape_chars(b)));
    }
}

/// No escaped `TEXT` value holds a carriage return or a line feed.
pub proof fn lemma_escape_text_has_no_line_breaks(s: Seq<char>)
    ensures
        !escape_text(s).contains('\r'),
        !escape_text(s).contains('\n'),
{
    lemma_normalize_has_no_cr(s);
    lemma_escape_chars_no_breaks(normalize_newlines(s));
}

proof fn lemma_normalize_has_no_cr(s: Seq<char>)
    ensures
        !normalize_newlines(s).contains('\r'),
    decreases s.len(),
{
    if s.len() == 0 {
    } else if s[0] == '\r' && s.len() >= 2 && s[1] == '\n' {
        lemma_normalize_has_no_cr(s.skip(2));
        let r = normalize_newlines(s.skip(2));
        assert forall|i: int| 0 <= i < (seq!['\n'] + r).len() implies (seq!['\n'] + r)[i]
            != '\r' by {
            if i > 0 {
                assert((seq!['\n'] + r)[i] == r[i - 1]);
            }
        }
    } else {
        lemma_normalize_has_no_cr(s.drop_first());
        let r = normalize_newlines(s.drop_first());
        let h = if s[0] == '\r' {
            '\n'
        } else {
            s[0]
        };
        assert forall|i: int| 0 <= i < (seq![h] + r).len() implies (seq![h] + r)[i] != '\r' by {
            if i > 0 {
                assert((seq![h] + r)[i] == r[i - 1]);
            }
        }
    }
}

proof fn lemma_escape_chars_no_breaks(s: Seq<char>)
    requires
        !s.contains('\r'),
    ensures
        !escape_chars(s).contains('\r'),
        !escape_chars(s).contains('\n'),
    decreases s.len(),
{
    if s.len() > 0 {
        assert(s.drop_first().contains('\r') ==> s.contains('\r')) by {
            if s.drop_first().contains('\r') {
                let j = choose|j: int| 0 <= j < s.drop_first().len() && s.drop_first()[j] == '\r';
                assert(s[j + 1] == '\r');
            }
        }
        assert(s[0] != '\r') by {
            assert(s.contains(s[0]) || true);
            if s[0] == '\r' {
                assert(s.contains('\r'));
            }
        }
        lemma_escape_chars_no_breaks(s.drop_first());
        let e = escape_char(s[0]);
        let r = escape_chars(s.drop_first());
        assert forall|i: int| 0 <= i < (e + r).len() implies (e + r)[i] != '\r' && (e + r)[i]
            != '\n' by {
            if i >= e.len() {
                assert((e + r)[i] == r[i - e.len()]);
            }
        }
    }
}

/// Decodes an escaped `TEXT` value (RFC 5545 3.3.11) from left to right: a backslash and `n` or
/// `N` stands for a line feed, a backslash and any other character for that character.
pub open spec fn unescape_text(s: Seq<char>) -> Seq<char>
    decreases s.len(),
{
    if s.len() == 0 {
        seq![]
    } else if s[0] == '\\' && s.len() >= 2 {
        (if s[1] == 'n' || s[1] == 'N' {
            seq!['\n']
        } else {
            seq![s[1]]
        }) + unescape_text(s.skip(2))
    } else {
        seq![s[0]] + unescape_text(s.drop_first())
    }
}

proof fn lemma_unescape_escape_chars(t: Seq<char>)
    ensures
        unescape_text(escape_chars(t)) == t,
    decreases t.len(),
{
    if t.len() == 0 {
        assert(escape_chars(t) =~= Seq::<char>::empty());
    } else {
        let c = t[0];
        let rest = t.drop_first();
        let x = escape_chars(rest);
        let e = escape_char(c);
        lemma_unescape_escape_chars(rest);
        assert(escape_chars(t) == e + x);
        let ex = e + x;
        if e.len() == 1 {
            assert(ex[0] == c);
            assert(ex.drop_first() =~= x);
        } else {
            assert(ex[0] == '\\');
            assert(ex[1] == e[1]);
            assert(ex.skip(2) =~= x);
        }
        assert(seq![c] + rest =~= t);
    }
}

/// Decoding an escaped `TEXT` value gives back the value with its line breaks normalized to line
/// feeds: escaping loses only the difference between CR, CR LF and LF.
pub proof fn lemma_unescape_escaped_text(s: Seq<char>)
    ensures
        unescape_text(escape_text(s)) == normalize_newlines(s),
{
    lemma_unescape_escape_chars(normalize_newlines(s));
}

/// Whether `t` is a well-formed escaped `TEXT` value (RFC 5545 3.3.11): read from left to right,
/// a backslash always starts a pair with a backslash, semicolon, comma or `n`, and no semicolon,
/// comma, CR or LF stands on its own.
pub open spec fn well_escaped(t: Seq<char>) -> bool
    decreases t.len(),
{
    if t.len() == 0 {
        true
    } else if t[0] == '\\' {
        t.len() >= 2 && (t[1] == '\\' || t[1] == ';' || t[1] == ',' || t[1] == 'n')
            && well_escaped(t.skip(2))
    } else {
        t[0] != ';' && t[0] != ',' && t[0] != '\r' && t[0] != '\n' && well_escaped(
            t.drop_first(),
        )
    }
}

proof fn lemma_escape_chars_well_escaped(t: Seq<char>)
    requires
        !t.contains('\r'),
    ensures
        well_escaped(escape_chars(t)),
    decreases t.len(),
{
    if t.len() > 0 {
        let c = t[0];
        let rest = t.drop_first();
        assert(c != '\r') by {
            assert(t.contains(t[0]));
        }
        assert(!rest.contains('\r')) by {
            if rest.contains('\r') {
                let j = choose|j: int| 0 <= j < rest.len() && rest[j] == '\r';
                assert(t[j + 1] == '\r');
            }
        }
        lemma_escape_chars_well_escaped(rest);
        let x = escape_chars(rest);
        let e = escape_char(c);
        let ex = e + x;
        assert(escape_chars(t) == ex);
        if e.len() == 1 {
            assert(ex[0] == c);
            assert(ex.drop_first() =~= x);
        } else {
            assert(ex[0] == '\\');
            assert(ex[1] == e[1]);
            assert(ex.skip(2) =~= x);
        }
    }
}

/// Every escaped `TEXT` value is well-formed: each backslash, semicolon, comma and line break of
/// the value is escaped, and nothing else gains a backslash.
pub proof fn lemma_escaped_text_well_formed(s: Seq<char>)
    ensures
        well_escaped(escape_text(s)),
{
    lemma_normalize_has_no_cr(s);
    lemma_escape_chars_well_escaped(normalize_newlines(s));
}

/// Escape a value for a `TEXT`-typed property (RFC 5545 3.3.11): a literal backslash, semicolon,
/// comma, or newline each gains a backslash prefix.
///
/// Any carriage return is first normalized to a line feed (a CRLF pair collapses to one LF), so a
/// value authored with CRLF line endings cannot smuggle a bare CR into the output; the surviving
/// newlines then escape to the two-character `\n`.
pub fn escape_ics_text(text: &str) -> (r: String)
    ensures
        r@ == escape_text(text@),
        !r@.contains('\r'),
        !r@.contains('\n'),
{
    let cs = chars_of(text);
    let n = cs.len();
    let mut out = String::new();
    let mut i: usize = 0;
    assert(cs@.skip(0) =~= cs@);
    assert(out@ + escape_text(cs@) =~= escape_text(cs@));
    while i < n
        invariant
            n == cs.len(),
            i <= n,
            escape_text(cs@) == out@ + escape_text(cs@.skip(i as int)),
        decreases n - i,
    {
        let c = cs[i];
        let ghost rest = cs@.skip(i as int);
        assert(rest[0] == c);
        if c == '\r' {
            if i + 1 < n && cs[i + 1] == '\n' {
                assert(rest.skip(2) =~= cs@.skip(i + 2));
                i += 2;
            } else {
                assert(rest.drop_first() =~= cs@.skip(i + 1));
                i += 1;
            }
            proof {
                lemma_escape_chars_concat(seq!['\n'], normalize_newlines(cs@.skip(i as int)));
                lemma_escape_chars_single('\n');
            }
            push_char(&mut out, '\\');
            push_char(&mut out, 'n');
        } else {
            assert(rest.drop_first() =~= cs@.skip(i + 1));
            proof {
                lemma_escape_chars_concat(seq![c], normalize_newlines(cs@.skip(i + 1)));
                lemma_escape_chars_single(c);
            }
            if c == '\\' || c == ';' || c == ',' || c == '\n' {
                push_char(&mut out, '\\');
                if c == '\n' {
                    push_char(&mut out, 'n');
                } else {
                    push_char(&mut out, c);
                }
            } else {
                push_char(&mut out, c);
            }
            i += 1;
        }
    }
    assert(cs@.skip(n as int) =~= Seq::<char>::empty());
    assert(out@ =~= escape_text(cs@));
    proof {
        lemma_escape_text_has_no_line_breaks(text@);
    }
    out
}

// ---------------------------------------------------------------------------------------------
// Parameter values
// ---------------------------------------------------------------------------------------------
/// Whether `c` may not appear in a parameter value: a `DQUOTE`, CR or LF.
pub open spec fn is_dropped_param_char(c: char) -> bool {
    c == '"' || c == '\r' || c == '\n'
}

/// `s` without the characters that a parameter value cannot hold.
pub open spec fn strip_param_chars(s: Seq<char>) -> Seq<char>
    decreases s.len(),
{
    if s.len() == 0 {
        seq![]
    } else if is_dropped_param_char(s[0]) {
        strip_param_chars(s.drop_first())
    } else {
        seq![s[0]] + strip_param_chars(s.drop_first())
    }
}

/// Whether `s` holds a COLON, SEMICOLON or COMMA.
pub open spec fn has_param_separator(s: Seq<char>) -> bool {
    s.contains(':') || s.contains(';') || s.contains(',')
}

/// A property-parameter value (RFC 5545 3.1/3.2): `DQUOTE`, CR and LF are dropped, and the rest
/// is wrapped in `DQUOTE` when it holds a COLON, SEMICOLON or COMMA.
pub open spec fn param_value(s: Seq<char>) -> Seq<char> {
    let t = strip_param_chars(s);
    if has_param_separator(t) {
        seq!['"'] + t + seq!['"']
    } else {
        t
    }
}

proof fn lemma_strip_param_chars_clean(s: Seq<char>)
    ensures
        forall|i: int|
            0 <= i < strip_param_chars(s).len() ==> !is_dropped_param_char(
                #[trigger] strip_param_chars(s)[i],
            ),
    decreases s.len(),
{
    if s.len() > 0 {
        lemma_strip_param_chars_clean(s.drop_first());
        let r = strip_param_chars(s.drop_first());
        if !is_dropped_param_char(s[0]) {
            assert forall|i: int| 0 <= i < (seq![s[0]] + r).len() implies !is_dropped_param_char(
                (seq![s[0]] + r)[i],
            ) by {
                if i > 0 {
                    assert((seq![s[0]] + r)[i] == r[i - 1]);
                }
            }
        }
    }
}

/// A formatted parameter value holds no CR or LF, and a `DQUOTE` only as its first or last
/// character, so it can neither break line framing nor end a quoted string early.
pub proof fn lemma_param_value_is_safe(s: Seq<char>)
    ensures
        !param_value(s).contains('\r'),
        !param_value(s).contains('\n'),
        forall|i: int|
            0 < i < param_value(s).len() - 1 ==> #[trigger] param_value(s)[i] != '"',
{
    lemma_strip_param_chars_clean(s);
    let t = strip_param_chars(s);
    let p = param_value(s);
    if has_param_separator(t) {
        assert forall|i: int| 0 <= i < p.len() && p[i] != '"' implies !is_dropped_param_char(
            p[i],
        ) by {
            assert(p[i] == t[i - 1]);
        }
        assert forall|i: int| 0 < i < p.len() - 1 implies p[i] != '"' by {
            assert(p[i] == t[i - 1]);
        }
    }
}

proof fn lemma_strip_param_chars_concat(a: Seq<char>, b: Seq<char>)
    ensures
        strip_param_chars(a + b) == strip_param_chars(a) + strip_param_chars(b),
    decreases a.len(),
{
    if a.len() == 0 {
        assert(a + b =~= b);
        assert(strip_param_chars(a) + strip_param_chars(b) =~= strip_param_chars(b));
    } else {
        assert((a + b)[0] == a[0]);
        assert((a + b).drop_first() =~= a.drop_first() + b);
        lemma_strip_param_chars_concat(a.drop_first(), b);
        if !is_dropped_param_char(a[0]) {
            assert(seq![a[0]] + (strip_param_chars(a.drop_first()) + strip_param_chars(b))
                =~= seq![a[0]] + strip_param_chars(a.drop_first()) + strip_param_chars(b));
        }
    }
}

proof fn lemma_strip_param_chars_keeps_clean(t: Seq<char>)
    requires
        forall|i: int| 0 <= i < t.len() ==> !is_dropped_param_char(#[trigger] t[i]),
    ensures
        strip_param_chars(t) == t,
    decreases t.len(),
{
    if t.len() > 0 {
        assert(!is_dropped_param_char(t[0]));
        assert forall|i: int| 0 <= i < t.drop_first().len() implies !is_dropped_param_char(
            #[trigger] t.drop_first()[i],
        ) by {
            assert(t.drop_first()[i] == t[i + 1]);
        }
        lemma_strip_param_chars_keeps_clean(t.drop_first());
        assert(seq![t[0]] + t.drop_first() =~= t);
    }
}

/// Formatting a formatted parameter value again leaves it as it is.
pub proof fn lemma_param_value_idempotent(s: Seq<char>)
    ensures
        param_value(param_value(s)) == param_value(s),
{
    let t = strip_param_chars(s);
    lemma_strip_param_chars_clean(s);
    lemma_strip_param_chars_keeps_clean(t);
    if has_param_separator(t) {
        let q: Seq<char> = seq!['"'];
        lemma_strip_param_chars_concat(q, t);
        lemma_strip_param_chars_concat(q + t, q);
        assert(q.drop_first() =~= Seq::<char>::empty());
        assert(is_dropped_param_char(q[0]));
        assert(strip_param_chars(Seq::<char>::empty()) =~= Seq::<char>::empty());
        assert(strip_param_chars(q) == strip_param_chars(q.drop_first()));
        assert(strip_param_chars(q) =~= Seq::<char>::empty());
        assert(strip_param_chars(q + t + q) =~= t);
    }
}

proof fn lemma_strip_param_chars_contains(s: Seq<char>, c: char)
    ensures
        strip_param_chars(s).contains(c) <==> (s.contains(c) && !is_dropped_param_char(c)),
    decreases s.len(),
{
    if s.len() > 0 {
        lemma_strip_param_chars_contains(s.drop_first(), c);
        let r = strip_param_chars(s.drop_first());
        assert(s =~= seq![s[0]] + s.drop_first());
        if s.contains(c) && s[0] != c {
            let j = choose|j: int| 0 <= j < s.len() && s[j] == c;
            assert(s.drop_first()[j - 1] == c);
        }
        if s.drop_first().contains(c) {
            let j = choose|j: int| 0 <= j < s.drop_first().len() && s.drop_first()[j] == c;
            assert(s[j + 1] == c);
        }
        if !is_dropped_param_char(s[0]) {
            let t = seq![s[0]] + r;
            assert(t[0] == s[0]);
            if t.contains(c) && s[0] != c {
                let j = choose|j: int| 0 <= j < t.len() && t[j] == c;
                assert(r[j - 1] == c);
            }
            if r.contains(c) {
                let j = choose|j: int| 0 <= j < r.len() && r[j] == c;
                assert(t[j + 1] == c);
            }
        }
    }
}

/// A formatted parameter value keeps every character of the value but `DQUOTE`, CR and LF, and
/// no other; it is wrapped in `DQUOTE` exactly when it holds a COLON, SEMICOLON or COMMA, so a
/// separator never stands outside quotes.
pub proof fn lemma_param_value_quoting(s: Seq<char>, c: char)
    ensures
        c != '"' ==> (param_value(s).contains(c) <==> (s.contains(c) && !is_dropped_param_char(c))),
        has_param_separator(param_value(s)) ==> (param_value(s).len() >= 2 && param_value(s)[0]
            == '"' && param_value(s).last() == '"'),
        (param_value(s).len() > 0 && param_value(s)[0] == '"') ==> has_param_separator(
            param_value(s),
        ),
{
    let t = strip_param_chars(s);
    lemma_strip_param_chars_clean(s);
    lemma_strip_param_chars_contains(s, c);
    lemma_strip_param_chars_contains(s, ':');
    lemma_strip_param_chars_contains(s, ';');
    lemma_strip_param_chars_contains(s, ',');
    let p = param_value(s);
    if has_param_separator(t) {
        let q = seq!['"'] + t + seq!['"'];
        assert(p == q);
        if c != '"' {
            if q.contains(c) {
                let j = choose|j: int| 0 <= j < q.len() && q[j] == c;
                assert(t[j - 1] == c);
            }
            if t.contains(c) {
                let j = choose|j: int| 0 <= j < t.len() && t[j] == c;
                assert(q[j + 1] == c);
            }
        }
        if t.contains(':') {
            let j = choose|j: int| 0 <= j < t.len() && t[j] == ':';
            assert(q[j + 1] == ':');
        }
        if t.contains(';') {
            let j = choose|j: int| 0 <= j < t.len() && t[j] == ';';
            assert(q[j + 1] == ';');
        }
        if t.contains(',') {
            let j = choose|j: int| 0 <= j < t.len() && t[j] == ',';
            assert(q[j + 1] == ',');
        }
    } else {
        if p.len() > 0 && p[0] == '"' {
            assert(!is_dropped_param_char(t[0]));
        }
    }
}

/// Format a property-parameter value (RFC 5545 3.1/3.2): wrap it in `DQUOTE` when it carries a
/// COLON, SEMICOLON, or COMMA, which otherwise delimit the parameter list. A quoted string cannot
/// itself contain a `DQUOTE`, and a raw CR or LF would break line framing, so all three are dropped.
pub fn format_param_value(value: &str) -> (r: String)
    ensures
        r@ == param_value(value@),
{
    let cs = chars_of(value);
    let n = cs.len();
    let mut kept: Vec<char> = Vec::new();
    let mut sep = false;
    let mut i: usize = 0;
    assert(cs@.skip(0) =~= cs@);
    assert(kept@ + strip_param_chars(cs@) =~= strip_param_chars(cs@));
    while i < n
        invariant
            n == cs.len(),
            i <= n,
            strip_param_chars(cs@) == kept@ + strip_param_chars(cs@.skip(i as int)),
            sep == has_param_separator(kept@),
        decreases n - i,
    {
        let c = cs[i];
        let ghost rest = cs@.skip(i as int);
        assert(rest.drop_first() =~= cs@.skip(i + 1));
        if !(c == '"' || c == '\r' || c == '\n') {
            let ghost old_kept = kept@;
            kept.push(c);
            if c == ':' || c == ';' || c == ',' {
                sep = true;
                assert(kept@[kept@.len() - 1] == c);
            } else {
                assert(has_param_separator(kept@) == has_param_separator(old_kept)) by {
                    assert(kept@ =~= old_kept.push(c));
                    if old_kept.contains(':') {
                        let j = choose|j: int| 0 <= j < old_kept.len() && old_kept[j] == ':';
                        assert(kept@[j] == ':');
                    }
                    if old_kept.contains(';') {
                        let j = choose|j: int| 0 <= j < old_kept.len() && old_kept[j] == ';';
                        assert(kept@[j] == ';');
                    }
                    if old_kept.contains(',') {
                        let j = choose|j: int| 0 <= j < old_kept.len() && old_kept[j] == ',';
                        assert(kept@[j] == ',');
                    }
                    if kept@.contains(':') {
                        let j = choose|j: int| 0 <= j < kept@.len() && kept@[j] == ':';
                        assert(old_kept[j] == ':');
                    }
                    if kept@.contains(';') {
                        let j = choose|j: int| 0 <= j < kept@.len() && kept@[j] == ';';
                        assert(old_kept[j] == ';');
                    }
                    if kept@.contains(',') {
                        let j = choose|j: int| 0 <= j < kept@.len() && kept@[j] == ',';
                        assert(old_kept[j] == ',');
                    }
                }
            }
            assert(old_kept + strip_param_chars(rest) =~= kept@ + strip_param_chars(
                cs@.skip(i + 1),
            ));
        }
        i += 1;
    }
    assert(cs@.skip(n as int) =~= Seq::<char>::empty());
    assert(kept@ =~= strip_param_chars(cs@));
    let mut out = String::new();
    if sep {
        push_char(&mut out, '"');
        push_range(&mut out, &kept, 0, kept.len());
        push_char(&mut out, '"');
    } else {
        push_range(&mut out, &kept, 0, kept.len());
    }
    assert(kept@.subrange(0, kept@.len() as int) =~= kept@);
    assert(out@ =~= param_value(value@));
    out
}

// ---------------------------------------------------------------------------------------------
// Line folding
// ---------------------------------------------------------------------------------------------
/// The number of leading characters of `s` whose UTF-8 encoding fits in `budget` octets: the
/// longest prefix that fits, as it never splits a character.
pub open spec fn fit_count(s: Seq<char>, budget: int) -> nat
    decreases s.len(),
{
    if s.len() == 0 {
        0
    } else if char_octets(s[0]) <= budget {
        1 + fit_count(s.drop_first(), budget - char_octets(s[0]))
    } else {
        0
    }
}

/// The octet budget of a physical line: 75 for the first, 74 for a continuation line, whose
/// leading space takes one octet.
pub open spec fn line_budget(first: bool) -> int {
    if first {
        75
    } else {
        74
    }
}

pub proof fn lemma_fit_count_bounds(s: Seq<char>, budget: int)
    requires
        budget >= 4,
        s.len() > 0,
    ensures
        1 <= fit_count(s, budget) <= s.len(),
{
    lemma_fit_count_le(s, budget);
}

pub proof fn lemma_fit_count_le(s: Seq<char>, budget: int)
    ensures
        fit_count(s, budget) <= s.len(),
        octets(s.take(fit_count(s, budget) as int)) <= budget || fit_count(s, budget) == 0,
    decreases s.len(),
{
    if s.len() > 0 && char_octets(s[0]) <= budget {
        let t = s.drop_first();
        let b = budget - char_octets(s[0]);
        lemma_fit_count_le(t, b);
        let k = fit_count(t, b);
        assert(s.take(k + 1 as int).drop_first() =~= t.take(k as int));
        if k == 0 {
            assert(t.take(0) =~= Seq::<char>::empty());
        }
    }
}

/// The physical lines that a content line folds into, without their CRLF: as many whole
/// characters as fit in the octet budget of each line, a continuation line starting with a space.
pub open spec fn fold_segments(s: Seq<char>, first: bool) -> Seq<Seq<char>>
    decreases s.len(),
{
    if s.len() == 0 {
        seq![]
    } else {
        let n = fit_count(s, line_budget(first));
        proof {
            lemma_fit_count_bounds(s, line_budget(first));
        }
        let seg = if first {
            s.take(n as int)
        } else {
            seq![' '] + s.take(n as int)
        };
        seq![seg] + fold_segments(s.skip(n as int), false)
    }
}

/// Each segment followed by CRLF.
pub open spec fn terminate_lines(segs: Seq<Seq<char>>) -> Seq<char>
    decreases segs.len(),
{
    if segs.len() == 0 {
        seq![]
    } else {
        segs[0] + crlf() + terminate_lines(segs.drop_first())
    }
}

/// A content line folded to at most 75 octets per physical line (RFC 5545 3.1) and terminated
/// with CRLF; an empty line is a bare CRLF.
pub open spec fn content_line(s: Seq<char>) -> Seq<char> {
    if s.len() == 0 {
        crlf()
    } else {
        terminate_lines(fold_segments(s, true))
    }
}

/// Removes the line folding: a CRLF followed by a space goes, as does a final CRLF.
pub open spec fn unfold(t: Seq<char>) -> Seq<char>
    decreases t.len(),
{
    if t.len() == 0 {
        seq![]
    } else if t.len() >= 3 && t[0] == '\r' && t[1] == '\n' && t[2] == ' ' {
        unfold(t.skip(3))
    } else if t.len() == 2 && t[0] == '\r' && t[1] == '\n' {
        seq![]
    } else {
        seq![t[0]] + unfold(t.drop_first())
    }
}

pub(crate) proof fn lemma_fold_step(s: Seq<char>, first: bool)
    requires
        s.len() > 0,
    ensures
        ({
            let n = fit_count(s, line_budget(first));
            &&& 1 <= n <= s.len()
            &&& terminate_lines(fold_segments(s, first)) == (if first {
                s.take(n as int)
            } else {
                seq![' '] + s.take(n as int)
            }) + crlf() + terminate_lines(fold_segments(s.skip(n as int), false))
        }),
{
    let n = fit_count(s, line_budget(first));
    lemma_fit_count_bounds(s, line_budget(first));
    let segs = fold_segments(s, first);
    assert(segs.drop_first() =~= fold_segments(s.skip(n as int), false));
}

proof fn lemma_unfold_prefix(a: Seq<char>, t: Seq<char>)
    requires
        !a.contains('\r'),
    ensures
        unfold(a + t) == a + unfold(t),
    decreases a.len(),
{
    if a.len() == 0 {
        assert(a + t =~= t);
    } else {
        assert(a[0] != '\r') by {
            if a[0] == '\r' {
                assert(a.contains('\r'));
            }
        }
        let at = a + t;
        assert(at[0] == a[0]);
        assert(at.drop_first() =~= a.drop_first() + t);
        assert(!a.drop_first().contains('\r')) by {
            if a.drop_first().contains('\r') {
                let j = choose|j: int| 0 <= j < a.drop_first().len() && a.drop_first()[j] == '\r';
                assert(a[j + 1] == '\r');
            }
        }
        lemma_unfold_prefix(a.drop_first(), t);
        assert(at.len() != 2 || at[0] != '\r');
        assert(seq![a[0]] + (a.drop_first() + unfold(t)) =~= a + unfold(t));
    }
}

pub(crate) proof fn lemma_no_cr_take_skip(s: Seq<char>, n: int)
    requires
        !s.contains('\r'),
        0 <= n <= s.len(),
    ensures
        !s.take(n).contains('\r'),
        !s.skip(n).contains('\r'),
{
    if s.take(n).contains('\r') {
        let j = choose|j: int| 0 <= j < s.take(n).len() && s.take(n)[j] == '\r';
        assert(s[j] == '\r');
    }
    if s.skip(n).contains('\r') {
        let j = choose|j: int| 0 <= j < s.skip(n).len() && s.skip(n)[j] == '\r';
        assert(s[n + j] == '\r');
    }
}

proof fn lemma_unfold_continuations(u: Seq<char>)
    requires
        !u.contains('\r'),
    ensures
        unfold(crlf() + terminate_lines(fold_segments(u, false))) == u,
    decreases u.len(),
{
    if u.len() == 0 {
        assert(fold_segments(u, false) =~= Seq::<Seq<char>>::empty());
        assert(crlf() + terminate_lines(fold_segments(u, false)) =~= crlf());
        assert(unfold(crlf()) =~= Seq::<char>::empty());
        assert(u =~= Seq::<char>::empty());
    } else {
        lemma_fold_step(u, false);
        let n = fit_count(u, line_budget(false));
        let rest = terminate_lines(fold_segments(u.skip(n as int), false));
        let whole = crlf() + terminate_lines(fold_segments(u, false));
        assert(whole =~= seq!['\r', '\n', ' '] + (u.take(n as int) + (crlf() + rest)));
        assert(whole.skip(3) =~= u.take(n as int) + (crlf() + rest));
        lemma_no_cr_take_skip(u, n as int);
        lemma_unfold_prefix(u.take(n as int), crlf() + rest);
        lemma_unfold_continuations(u.skip(n as int));
        assert(u.take(n as int) + u.skip(n as int) =~= u);
    }
}

/// Unfolding a folded content line restores it (RFC 5545 3.1), for a line without a carriage
/// return, as every escaped value is.
pub proof fn lemma_unfold_content_line(s: Seq<char>)
    requires
        !s.contains('\r'),
    ensures
        unfold(content_line(s)) == s,
{
    if s.len() == 0 {
        assert(unfold(crlf()) =~= Seq::<char>::empty());
        assert(s =~= Seq::<char>::empty());
    } else {
        lemma_fold_step(s, true);
        let n = fit_count(s, line_budget(true));
        let rest = terminate_lines(fold_segments(s.skip(n as int), false));
        lemma_no_cr_take_skip(s, n as int);
        assert(content_line(s) =~= s.take(n as int) + (crlf() + rest));
        lemma_unfold_prefix(s.take(n as int), crlf() + rest);
        lemma_unfold_continuations(s.skip(n as int));
        assert(s.take(n as int) + s.skip(n as int) =~= s);
    }
}

/// Every physical line of a folded content line fits in 75 octets (RFC 5545 3.1), holds no line
/// break of its own when the line holds none, and each continuation line starts with a space.
pub proof fn lemma_fold_segments_fit(s: Seq<char>, first: bool)
    requires
        !s.contains('\r'),
        !s.contains('\n'),
    ensures
        forall|i: int|
            0 <= i < fold_segments(s, first).len() ==> {
                let seg = #[trigger] fold_segments(s, first)[i];
                &&& octets(seg) <= MAX_LINE_OCTETS
                &&& !seg.contains('\r')
                &&& !seg.contains('\n')
                &&& (i > 0 || !first) ==> seg.len() > 0 && seg[0] == ' '
            },
    decreases s.len(),
{
    if s.len() > 0 {
        let b = line_budget(first);
        let n = fit_count(s, b);
        lemma_fit_count_bounds(s, b);
        lemma_fit_count_le(s, b);
        let body = s.take(n as int);
        let seg = if first {
            body
        } else {
            seq![' '] + body
        };
        lemma_no_cr_take_skip(s, n as int);
        assert(!s.skip(n as int).contains('\n')) by {
            if s.skip(n as int).contains('\n') {
                let j = choose|j: int|
                    0 <= j < s.skip(n as int).len() && s.skip(n as int)[j] == '\n';
                assert(s[n + j] == '\n');
            }
        }
        assert(!body.contains('\n')) by {
            if body.contains('\n') {
                let j = choose|j: int| 0 <= j < body.len() && body[j] == '\n';
                assert(s[j] == '\n');
            }
        }
        lemma_fold_segments_fit(s.skip(n as int), false);
        if !first {
            lemma_octets_concat(seq![' '], body);
            assert(octets(seq![' ']) == 1) by {
                assert((' ' as u32) == 32);
                assert(seq![' '].drop_first() =~= Seq::<char>::empty());
                assert(octets(Seq::<char>::empty()) == 0);
            }
        }
        assert(!seg.contains('\r') && !seg.contains('\n')) by {
            if seg.contains('\r') || seg.contains('\n') {
                let j = choose|j: int| 0 <= j < seg.len() && (seg[j] == '\r' || seg[j] == '\n');
                if !first && j > 0 {
                    assert(seg[j] == body[j - 1]);
                    assert(body.contains(seg[j]));
                } else if first {
                    assert(body.contains(seg[j]));
                }
            }
        }
        let segs = fold_segments(s, first);
        assert forall|i: int| 0 <= i < segs.len() implies {
            let sg = #[trigger] segs[i];
            &&& octets(sg) <= MAX_LINE_OCTETS
            &&& !sg.contains('\r')
            &&& !sg.contains('\n')
            &&& (i > 0 || !first) ==> sg.len() > 0 && sg[0] == ' '
        } by {
            if i > 0 {
                assert(segs[i] == fold_segments(s.skip(n as int), false)[i - 1]);
            } else {
                assert(segs[0] == seg);
            }
        }
    }
}

/// A folded content line is its physical lines, each followed by CRLF, and every one of them
/// fits in 75 octets and holds no line break of its own.
pub proof fn lemma_content_line_octets(s: Seq<char>)
    requires
        s.len() > 0,
        !s.contains('\r'),
        !s.contains('\n'),
    ensures
        content_line(s) == terminate_lines(fold_segments(s, true)),
        forall|i: int|
            0 <= i < fold_segments(s, true).len() ==> {
                let seg = #[trigger] fold_segments(s, true)[i];
                &&& octets(seg) <= MAX_LINE_OCTETS
                &&& !seg.contains('\r')
                &&& !seg.contains('\n')
            },
{
    lemma_fold_segments_fit(s, true);
}

/// Append one already-escaped content `line` to `out`, folded to <=75 octets (RFC 5545 3.1) and
/// terminated with CRLF.
///
/// Folding counts UTF-8 octets but only ever splits on a char boundary, so a multibyte character is
/// never cut; each continuation line starts with a single space that counts toward its 75-octet
/// budget.
pub fn write_content_line(out: &mut String, line: &str)
    ensures
        final(out)@ == old(out)@ + content_line(line@),
{
    let cs = chars_of(line);
    let n = cs.len();
    if n == 0 {
        push_char(out, '\r');
        push_char(out, '\n');
        return;
    }
    let mut start: usize = 0;
    let mut first = true;
    assert(cs@.skip(0) =~= cs@);
    while start < n
        invariant
            n == cs.len(),
            n > 0,
            start <= n,
            start == 0 <==> first,
            old(out)@ + content_line(cs@) == out@ + terminate_lines(
                fold_segments(cs@.skip(start as int), first),
            ),
        decreases n - start,
    {
        let budget: usize = if first {
            MAX_LINE_OCTETS
        } else {
            MAX_LINE_OCTETS - 1
        };
        // Longest run of whole characters that fits in the budget.
        let mut end = start;
        let mut used: usize = 0;
        while end < n && used + char_octets_of(cs[end]) <= budget
            invariant
                n == cs.len(),
                start <= end <= n,
                used <= budget,
                budget == line_budget(first),
                fit_count(cs@.skip(start as int), budget as int) == (end - start) + fit_count(
                    cs@.skip(end as int),
                    budget - used,
                ),
            decreases n - end,
        {
            let w = char_octets_of(cs[end]);
            assert(cs@.skip(end as int).drop_first() =~= cs@.skip(end + 1));
            used = used + w;
            end += 1;
        }
        assert(fit_count(cs@.skip(end as int), budget - used) == 0);
        let ghost rest = cs@.skip(start as int);
        proof {
            lemma_fold_step(rest, first);
            assert(rest.take((end - start) as int) =~= cs@.subrange(start as int, end as int));
            assert(rest.skip((end - start) as int) =~= cs@.skip(end as int));
        }
        let ghost before = out@;
        if !first {
            push_char(out, ' ');
        }
        push_range(out, &cs, start, end);
        push_char(out, '\r');
        push_char(out, '\n');
        proof {
            let body = cs@.subrange(start as int, end as int);
            let seg = if first {
                body
            } else {
                seq![' '] + body
            };
            let tail = terminate_lines(fold_segments(cs@.skip(end as int), false));
            assert(out@ =~= before + seg + crlf());
            assert(before + (seg + crlf() + tail) =~= out@ + tail);
        }
        start = end;
        first = false;
    }
    assert(cs@.skip(n as int) =~= Seq::<char>::empty());
}

} // verus!
