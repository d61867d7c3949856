//! Kernel series, versions and releases as Proxmox products name them, and how they are read from
//! `uname -r` strings and package versions.
use vstd::prelude::*;

use crate::civil::{decimal, push_padded_nat};
use crate::text::{
    chars_of, digits_value, find_char, first_index_of, is_digit, lemma_first_index_of, parse_digits,
    parse_digits_range, parse_unsigned, parse_unsigned_range,
};

verus! {

/// The largest `u32`.
pub open spec fn u32_max() -> nat {
    0xffff_ffff
}

/// The `major.minor` part of a kernel version, e.g. `6.14`.
///
/// Proxmox ships one kernel meta-package per series, like `proxmox-kernel-6.14`.
#[derive(Clone, Copy, Debug, PartialEq, Eq, PartialOrd, Ord, Hash, Structural)]
pub struct KernelSeries {
    pub major: u32,
    pub minor: u32,
}

/// An upstream kernel version, e.g. `6.14.5`, ordered from oldest to newest.
#[derive(Clone, Copy, Debug, PartialEq, Eq, PartialOrd, Ord, Hash, Structural)]
pub struct KernelVersion {
    pub series: KernelSeries,
    pub patch: u32,
}

/// A kernel as a system reports it, i.e. a version plus the Debian release it was built for.
///
/// `uname -r` shows `6.14.11-9-pve` for a trixie build and `6.14.11-9-bpo12-pve` for the bookworm
/// backport of the same kernel, their package versions are `6.14.11-9` and `6.14.11-9~bpo12+1`.
#[derive(Clone, Copy, Debug, PartialEq, Eq, Structural)]
pub struct KernelRelease {
    pub version: KernelVersion,
    /// The Debian major release this kernel got built for, if it is a backport at all.
    pub backport: Option<u32>,
}

/// Why a kernel series, version or release could not be read.
#[derive(Clone, Copy, Debug, PartialEq, Eq, Structural)]
pub enum KernelParseError {
    /// There is no `.` between the major and the minor version.
    MissingMinor,
    /// The major version is not a number.
    BadMajor,
    /// The minor version is not a number.
    BadMinor,
    /// The patch level is not a number.
    BadPatch,
}

/// Whether `a` is not newer than `b`: versions compare by major, then minor, then patch.
pub open spec fn version_le(a: KernelVersion, b: KernelVersion) -> bool {
    ||| a.series.major < b.series.major
    ||| a.series.major == b.series.major && a.series.minor < b.series.minor
    ||| a.series.major == b.series.major && a.series.minor == b.series.minor && a.patch <= b.patch
}

/// `version_le` is a total order.
pub proof fn lemma_version_le_total_order(a: KernelVersion, b: KernelVersion, c: KernelVersion)
    ensures
        version_le(a, a),
        version_le(a, b) || version_le(b, a),
        version_le(a, b) && version_le(b, a) ==> a == b,
        version_le(a, b) && version_le(b, c) ==> version_le(a, c),
{
}

impl KernelSeries {
    pub fn new(major: u32, minor: u32) -> (s: KernelSeries)
        ensures
            s == (KernelSeries { major, minor }),
    {
        KernelSeries { major, minor }
    }

    /// The series as `major.minor`.
    pub fn to_string(&self) -> (r: String)
        ensures
            r@ == series_text(*self),
    {
        let mut out = String::new();
        push_padded_nat(&mut out, self.major as u64, 0);
        crate::text::push_char(&mut out, '.');
        push_padded_nat(&mut out, self.minor as u64, 0);
        proof {
            lemma_pad_zero_width(self.major as nat);
            lemma_pad_zero_width(self.minor as nat);
        }
        assert(out@ =~= series_text(*self));
        out
    }

    /// Parse a bare `major.minor`, rejecting any trailing part.
    ///
    /// That keeps meta-packages like `proxmox-kernel-6.14` apart from anything else sharing their
    /// prefix, be it an image package or something like `proxmox-kernel-7.0-build-deps`.
    pub fn from_str(series: &str) -> (r: Result<KernelSeries, KernelParseError>)
        ensures
            r == series_of_text(series@),
    {
        let cs = chars_of(series);
        let n = cs.len();
        assert(cs@.subrange(0, n as int) =~= cs@);
        match find_char(&cs, 0, n, '.') {
            None => Err(KernelParseError::MissingMinor),
            Some(dot) => {
                assert(first_index_of(series@, '.') == Some(dot as int));
                assert(cs@.take(dot as int) =~= cs@.subrange(0, dot as int));
                assert(cs@.skip(dot + 1) =~= cs@.subrange(dot + 1, n as int));
                let major = match parse_unsigned_range(&cs, 0, dot, 0xffff_ffff) {
                    Some(v) => v,
                    None => return Err(KernelParseError::BadMajor),
                };
                let minor = match parse_unsigned_range(&cs, dot + 1, n, 0xffff_ffff) {
                    Some(v) => v,
                    None => return Err(KernelParseError::BadMinor),
                };
                Ok(KernelSeries::new(major, minor))
            },
        }
    }
}

impl From<(u32, u32)> for KernelSeries {
    fn from(pair: (u32, u32)) -> (s: KernelSeries) {
        KernelSeries::new(pair.0, pair.1)
    }
}

impl vstd::std_specs::convert::FromSpecImpl<(u32, u32)> for KernelSeries {
    open spec fn obeys_from_spec() -> bool {
        true
    }

    open spec fn from_spec(pair: (u32, u32)) -> KernelSeries {
        KernelSeries { major: pair.0, minor: pair.1 }
    }
}

impl KernelVersion {
    pub fn new(major: u32, minor: u32, patch: u32) -> (v: KernelVersion)
        ensures
            v == (KernelVersion { series: KernelSeries { major, minor }, patch }),
    {
        KernelVersion { series: KernelSeries::new(major, minor), patch }
    }

    /// The oldest version of a series, as a series on its own says nothing about the patch level.
    pub fn from_series(series: KernelSeries) -> (v: KernelVersion)
        ensures
            v == (KernelVersion { series, patch: 0 }),
    {
        KernelVersion { series, patch: 0 }
    }

    /// Whether this version is not older than `other`.
    pub fn is_at_least(&self, other: &KernelVersion) -> (b: bool)
        ensures
            b == version_le(*other, *self),
    {
        if self.series.major != other.series.major {
            self.series.major > other.series.major
        } else if self.series.minor != other.series.minor {
            self.series.minor > other.series.minor
        } else {
            self.patch >= other.patch
        }
    }

    /// The version as `major.minor.patch`.
    pub fn to_string(&self) -> (r: String)
        ensures
            r@ == version_text(*self),
    {
        let mut out = self.series.to_string();
        crate::text::push_char(&mut out, '.');
        push_padded_nat(&mut out, self.patch as u64, 0);
        proof {
            lemma_pad_zero_width(self.patch as nat);
        }
        assert(out@ =~= version_text(*self));
        out
    }

    /// Reads an upstream kernel version from a kernel release or a package version: an epoch up
    /// to the first `:` and everything from the first `-` on are dropped, then `major.minor` and
    /// an optional `.patch` follow, each the leading digits of its `.`-separated part.
    pub fn from_str(version: &str) -> (r: Result<KernelVersion, KernelParseError>)
        ensures
            r == version_of_text(version@),
    {
        let cs = chars_of(version);
        kernel_version_of_chars(&cs)
    }
}

impl From<KernelSeries> for KernelVersion {
    /// The oldest version of a series, as a series on its own says nothing about the patch level.
    fn from(series: KernelSeries) -> (v: KernelVersion) {
        KernelVersion::from_series(series)
    }
}

impl vstd::std_specs::convert::FromSpecImpl<KernelSeries> for KernelVersion {
    open spec fn obeys_from_spec() -> bool {
        true
    }

    open spec fn from_spec(series: KernelSeries) -> KernelVersion {
        KernelVersion { series, patch: 0 }
    }
}

// ---------------------------------------------------------------------------------------------
// Text forms
// ---------------------------------------------------------------------------------------------
/// A series as text: `major.minor`.
pub open spec fn series_text(s: KernelSeries) -> Seq<char> {
    decimal(s.major as nat) + seq!['.'] + decimal(s.minor as nat)
}

/// A version as text: `major.minor.patch`.
pub open spec fn version_text(v: KernelVersion) -> Seq<char> {
    series_text(v.series) + seq!['.'] + decimal(v.patch as nat)
}

proof fn lemma_pad_zero_width(v: nat)
    ensures
        crate::civil::pad_nat(v, 0) == decimal(v),
{
}

/// A series read from `major.minor`: both parts as `str::parse` reads a `u32`, split at the first
/// `.`.
pub open spec fn series_of_text(s: Seq<char>) -> Result<KernelSeries, KernelParseError> {
    match first_index_of(s, '.') {
        None => Err(KernelParseError::MissingMinor),
        Some(i) => match parse_unsigned(s.take(i), u32_max()) {
            None => Err(KernelParseError::BadMajor),
            Some(major) => match parse_unsigned(s.skip(i + 1), u32_max()) {
                None => Err(KernelParseError::BadMinor),
                Some(minor) => Ok(KernelSeries { major: major as u32, minor: minor as u32 }),
            },
        },
    }
}

/// `s` from after its first `:` on, or all of `s` without one.
pub open spec fn strip_epoch(s: Seq<char>) -> Seq<char> {
    match first_index_of(s, ':') {
        Some(i) => s.skip(i + 1),
        None => s,
    }
}

/// The upstream part of a version: without the epoch, and up to its first `-`.
pub open spec fn upstream_version(s: Seq<char>) -> Seq<char> {
    let n = strip_epoch(s);
    match first_index_of(n, '-') {
        Some(i) => n.take(i),
        None => n,
    }
}

/// The number of leading ASCII digits of `s`.
pub open spec fn digit_run(s: Seq<char>) -> nat
    decreases s.len(),
{
    if s.len() == 0 || !is_digit(s[0]) {
        0
    } else {
        1 + digit_run(s.drop_first())
    }
}

/// The number that the leading digits of `s` write, if there are any and it fits in a `u32`.
pub open spec fn leading_number(s: Seq<char>) -> Option<nat> {
    parse_digits(s.take(digit_run(s) as int), u32_max())
}

/// The first `.`-separated part of `s`.
pub open spec fn first_field(s: Seq<char>) -> Seq<char> {
    match first_index_of(s, '.') {
        Some(i) => s.take(i),
        None => s,
    }
}

/// A kernel version read from a kernel release or a package version.
pub open spec fn version_of_text(s: Seq<char>) -> Result<KernelVersion, KernelParseError> {
    let u = upstream_version(s);
    match first_index_of(u, '.') {
        None => Err(KernelParseError::MissingMinor),
        Some(i) => {
            let major = u.take(i);
            let r1 = u.skip(i + 1);
            let (minor, patch) = match first_index_of(r1, '.') {
                Some(j) => (r1.take(j), first_field(r1.skip(j + 1))),
                None => (r1, seq!['0']),
            };
            match leading_number(major) {
                None => Err(KernelParseError::BadMajor),
                Some(a) => match leading_number(minor) {
                    None => Err(KernelParseError::BadMinor),
                    Some(b) => match leading_number(patch) {
                        None => Err(KernelParseError::BadPatch),
                        Some(c) => Ok(
                            KernelVersion {
                                series: KernelSeries { major: a as u32, minor: b as u32 },
                                patch: c as u32,
                            },
                        ),
                    },
                },
            }
        },
    }
}

proof fn lemma_digit_run(s: Seq<char>, k: int)
    requires
        0 <= k <= s.len(),
        forall|j: int| 0 <= j < k ==> is_digit(#[trigger] s[j]),
        k == s.len() || !is_digit(s[k]),
    ensures
        digit_run(s) == k,
    decreases k,
{
    if k > 0 {
        lemma_digit_run(s.drop_first(), k - 1);
    }
}

/// The number written by the leading digits of `cs[lo..hi]`.
fn leading_number_range(cs: &Vec<char>, lo: usize, hi: usize) -> (r: Option<u32>)
    requires
        lo <= hi <= cs.len(),
    ensures
        match leading_number(cs@.subrange(lo as int, hi as int)) {
            Some(v) => r == Some(v as u32),
            None => r is None,
        },
{
    let ghost s = cs@.subrange(lo as int, hi as int);
    let mut k = lo;
    while k < hi && '0' <= cs[k] && cs[k] <= '9'
        invariant
            lo <= k <= hi <= cs.len(),
            s == cs@.subrange(lo as int, hi as int),
            forall|j: int| 0 <= j < k - lo ==> is_digit(#[trigger] s[j]),
        decreases hi - k,
    {
        k += 1;
    }
    proof {
        lemma_digit_run(s, k - lo);
        assert(s.take(k - lo) =~= cs@.subrange(lo as int, k as int));
    }
    parse_digits_range(cs, lo, k, 0xffff_ffff)
}

/// A one-character string.
fn zero_chars() -> (v: Vec<char>)
    ensures
        v@ == seq!['0'],
{
    let mut v: Vec<char> = Vec::new();
    v.push('0');
    v
}

#[verifier::rlimit(40)]
fn kernel_version_of_chars(cs: &Vec<char>) -> (r: Result<KernelVersion, KernelParseError>)
    ensures
        r == version_of_text(cs@),
{
    let n = cs.len();
    let ghost s = cs@;
    assert(cs@.subrange(0, n as int) =~= s);
    let start: usize = match find_char(cs, 0, n, ':') {
        Some(i) => i + 1,
        None => 0,
    };
    assert(strip_epoch(s) =~= cs@.subrange(start as int, n as int)) by {
        match first_index_of(s, ':') {
            Some(i) => {
                assert(start == i + 1);
                assert(s.skip(i + 1) =~= cs@.subrange(start as int, n as int));
            },
            None => {},
        }
    }
    let end: usize = match find_char(cs, start, n, '-') {
        Some(j) => j,
        None => n,
    };
    let ghost u = upstream_version(s);
    assert(u =~= cs@.subrange(start as int, end as int)) by {
        let nn = strip_epoch(s);
        match first_index_of(nn, '-') {
            Some(i) => {
                assert(nn.take(i) =~= cs@.subrange(start as int, end as int));
            },
            None => {},
        }
    }
    let d1 = match find_char(cs, start, end, '.') {
        Some(d) => d,
        None => return Err(KernelParseError::MissingMinor),
    };
    assert(u.take(d1 - start) =~= cs@.subrange(start as int, d1 as int));
    let ghost r1 = u.skip(d1 - start + 1);
    assert(r1 =~= cs@.subrange(d1 + 1, end as int));
    let (minor_end, patch_lo, patch_hi, has_patch): (usize, usize, usize, bool) = match find_char(
        cs,
        d1 + 1,
        end,
        '.',
    ) {
        Some(d2) => {
            let p_end: usize = match find_char(cs, d2 + 1, end, '.') {
                Some(d3) => d3,
                None => end,
            };
            assert(r1.take(d2 - d1 - 1) =~= cs@.subrange(d1 + 1, d2 as int));
            assert(r1.skip(d2 - d1) =~= cs@.subrange(d2 + 1, end as int));
            assert(first_field(r1.skip(d2 - d1)) =~= cs@.subrange(d2 + 1, p_end as int)) by {
                let r2 = r1.skip(d2 - d1);
                match first_index_of(r2, '.') {
                    Some(k) => {
                        assert(r2.take(k) =~= cs@.subrange(d2 + 1, p_end as int));
                    },
                    None => {},
                }
            }
            (d2, d2 + 1, p_end, true)
        },
        None => (end, 0, 0, false),
    };
    let major = match leading_number_range(cs, start, d1) {
        Some(v) => v,
        None => return Err(KernelParseError::BadMajor),
    };
    let minor = match leading_number_range(cs, d1 + 1, minor_end) {
        Some(v) => v,
        None => return Err(KernelParseError::BadMinor),
    };
    let patch = if has_patch {
        match leading_number_range(cs, patch_lo, patch_hi) {
            Some(v) => v,
            None => return Err(KernelParseError::BadPatch),
        }
    } else {
        let z = zero_chars();
        assert(z@.subrange(0, 1) =~= seq!['0']);
        match leading_number_range(&z, 0, 1) {
            Some(v) => v,
            None => return Err(KernelParseError::BadPatch),
        }
    };
    Ok(KernelVersion::new(major, minor, patch))
}

// ---------------------------------------------------------------------------------------------
// Backport markers
// ---------------------------------------------------------------------------------------------
/// The separators between the parts of a kernel release or package version.
pub open spec fn is_version_separator(c: char) -> bool {
    c == '.' || c == '-' || c == '~' || c == '+' || c == ':'
}

/// The index of the first separator in `s`, if there is one.
pub open spec fn first_separator(s: Seq<char>) -> Option<int>
    decreases s.len(),
{
    if s.len() == 0 {
        None
    } else if is_version_separator(s[0]) {
        Some(0)
    } else {
        match first_separator(s.drop_first()) {
            Some(i) => Some(i + 1),
            None => None,
        }
    }
}

pub proof fn lemma_first_separator(s: Seq<char>, k: int)
    requires
        0 <= k <= s.len(),
        forall|j: int| 0 <= j < k ==> !is_version_separator(#[trigger] s[j]),
        k == s.len() || is_version_separator(s[k]),
    ensures
        first_separator(s) == (if k == s.len() {
            None::<int>
        } else {
            Some(k)
        }),
    decreases k,
{
    if k > 0 {
        lemma_first_separator(s.drop_first(), k - 1);
    }
}

pub proof fn lemma_first_separator_bound(s: Seq<char>)
    ensures
        first_separator(s) matches Some(i) ==> 0 <= i < s.len(),
    decreases s.len(),
{
    if s.len() > 0 {
        lemma_first_separator_bound(s.drop_first());
    }
}

/// The parts of `s` between separators, in order.
pub open spec fn version_fields(s: Seq<char>) -> Seq<Seq<char>>
    decreases s.len(),
{
    match first_separator(s) {
        None => seq![s],
        Some(i) => {
            proof {
                lemma_first_separator_bound(s);
            }
            seq![s.take(i)] + version_fields(s.skip(i + 1))
        },
    }
}

/// The release that one part names as a backport marker: `bpo` followed by a `u32`.
pub open spec fn field_marker(f: Seq<char>) -> Option<nat> {
    if f.len() >= 3 && f[0] == 'b' && f[1] == 'p' && f[2] == 'o' {
        parse_unsigned(f.skip(3), u32_max())
    } else {
        None
    }
}

/// The marker of the first part that is one.
pub open spec fn first_marker(fs: Seq<Seq<char>>) -> Option<nat>
    decreases fs.len(),
{
    if fs.len() == 0 {
        None
    } else {
        match field_marker(fs[0]) {
            Some(n) => Some(n),
            None => first_marker(fs.drop_first()),
        }
    }
}

/// The Debian major release of the `bpo<N>` marker of a kernel release or package version.
pub open spec fn backport_marker_of(s: Seq<char>) -> Option<u32> {
    match first_marker(version_fields(s)) {
        Some(n) => Some(n as u32),
        None => None,
    }
}

fn find_separator(cs: &Vec<char>, lo: usize, hi: usize) -> (r: Option<usize>)
    requires
        lo <= hi <= cs.len(),
    ensures
        r matches Some(i) ==> first_separator(cs@.subrange(lo as int, hi as int)) == Some(i - lo),
        r is None ==> first_separator(cs@.subrange(lo as int, hi as int)) is None,
        r matches Some(i) ==> lo <= i < hi,
{
    let mut i = lo;
    while i < hi && !(cs[i] == '.' || cs[i] == '-' || cs[i] == '~' || cs[i] == '+' || cs[i]
        == ':')
        invariant
            lo <= i <= hi <= cs.len(),
            forall|j: int| lo <= j < i ==> !is_version_separator(#[trigger] cs@[j]),
        decreases hi - i,
    {
        i += 1;
    }
    proof {
        lemma_first_separator(cs@.subrange(lo as int, hi as int), i - lo);
    }
    if i < hi {
        Some(i)
    } else {
        None
    }
}

fn field_marker_range(cs: &Vec<char>, lo: usize, hi: usize) -> (r: Option<u32>)
    requires
        lo <= hi <= cs.len(),
    ensures
        match field_marker(cs@.subrange(lo as int, hi as int)) {
            Some(v) => r == Some(v as u32),
            None => r is None,
        },
{
    if hi - lo >= 3 && cs[lo] == 'b' && cs[lo + 1] == 'p' && cs[lo + 2] == 'o' {
        assert(cs@.subrange(lo as int, hi as int).skip(3) =~= cs@.subrange(lo + 3, hi as int));
        parse_unsigned_range(cs, lo + 3, hi, 0xffff_ffff)
    } else {
        None
    }
}

/// Get the Debian major release a kernel got built for, if it carries a `bpo<N>` backport marker.
///
/// Proxmox marks the release in `uname -r` as `6.14.11-9-bpo12-pve` and in the matching package
/// version as `6.14.11-9~bpo12+1`. Debian's own backports have no release in the marker of their
/// release string, like `6.16.12+bpo-amd64`, so those simply do not match.
pub fn backport_marker(version: &str) -> (r: Option<u32>)
    ensures
        r == backport_marker_of(version@),
{
    let cs = chars_of(version);
    backport_marker_of_chars(&cs)
}

fn backport_marker_of_chars(cs: &Vec<char>) -> (r: Option<u32>)
    ensures
        r == backport_marker_of(cs@),
{
    let n = cs.len();
    let mut start: usize = 0;
    assert(cs@.subrange(0, n as int) =~= cs@);
    loop
        invariant
            n == cs.len(),
            start <= n,
            first_marker(version_fields(cs@)) == first_marker(
                version_fields(cs@.subrange(start as int, n as int)),
            ),
        decreases n - start,
    {
        let ghost t = cs@.subrange(start as int, n as int);
        let sep = find_separator(cs, start, n);
        let field_end: usize = match sep {
            Some(j) => j,
            None => n,
        };
        let ghost fs = version_fields(t);
        proof {
            lemma_first_separator_bound(t);
            match first_separator(t) {
                Some(k) => {
                    assert(t.take(k) =~= cs@.subrange(start as int, field_end as int));
                    assert(t.skip(k + 1) =~= cs@.subrange(field_end + 1, n as int));
                    assert(fs[0] == t.take(k));
                    assert(fs.drop_first() =~= version_fields(t.skip(k + 1)));
                },
                None => {
                    assert(fs =~= seq![t]);
                    assert(fs.drop_first() =~= Seq::<Seq<char>>::empty());
                    assert(first_marker(Seq::<Seq<char>>::empty()) == None::<nat>);
                    assert(t =~= cs@.subrange(start as int, field_end as int));
                },
            }
        }
        match field_marker_range(cs, start, field_end) {
            Some(v) => {
                return Some(v);
            },
            None => {},
        }
        match sep {
            Some(j) => {
                start = j + 1;
            },
            None => {
                return None;
            },
        }
    }
}

/// Reads a kernel release: its version and its backport marker.
pub open spec fn release_of_text(s: Seq<char>) -> Result<KernelRelease, KernelParseError> {
    match version_of_text(s) {
        Ok(version) => Ok(KernelRelease { version, backport: backport_marker_of(s) }),
        Err(e) => Err(e),
    }
}

impl KernelRelease {
    /// Reads a kernel release as `uname -r` or a package version shows it.
    pub fn parse(release: &str) -> (r: Result<KernelRelease, KernelParseError>)
        ensures
            r == release_of_text(release@),
    {
        let cs = chars_of(release);
        match kernel_version_of_chars(&cs) {
            Ok(version) => Ok(KernelRelease { version, backport: backport_marker_of_chars(&cs) }),
            Err(e) => Err(e),
        }
    }
}

impl core::str::FromStr for KernelRelease {
    type Err = KernelParseError;

    fn from_str(release: &str) -> (r: Result<KernelRelease, KernelParseError>)
        ensures
            r == release_of_text(release@),
    {
        KernelRelease::parse(release)
    }
}

impl core::str::FromStr for KernelVersion {
    type Err = KernelParseError;

    fn from_str(version: &str) -> (r: Result<KernelVersion, KernelParseError>)
        ensures
            r == version_of_text(version@),
    {
        KernelVersion::from_str(version)
    }
}

impl core::str::FromStr for KernelSeries {
    type Err = KernelParseError;

    fn from_str(series: &str) -> (r: Result<KernelSeries, KernelParseError>)
        ensures
            r == series_of_text(series@),
    {
        KernelSeries::from_str(series)
    }
}

// ---------------------------------------------------------------------------------------------
// Reading back what was written
// ---------------------------------------------------------------------------------------------
pub(crate) proof fn lemma_decimal_facts(v: nat)
    ensures
        decimal(v).len() > 0,
        forall|i: int| 0 <= i < decimal(v).len() ==> is_digit(#[trigger] decimal(v)[i]),
        digits_value(decimal(v)) == v,
        digit_run(decimal(v)) == decimal(v).len(),
    decreases v,
{
    if v < 10 {
        assert(decimal(v)[0] as nat == 48 + v);
        assert(decimal(v).drop_last() =~= Seq::<char>::empty());
        assert(digits_value(Seq::<char>::empty()) == 0);
    } else {
        lemma_decimal_facts(v / 10);
        let d = decimal(v / 10);
        let last = crate::civil::digit((v % 10) as int);
        assert(decimal(v) == d + seq![last]);
        assert forall|i: int| 0 <= i < decimal(v).len() implies is_digit(
            #[trigger] decimal(v)[i],
        ) by {
            if i < d.len() {
                assert(decimal(v)[i] == d[i]);
            }
        }
        assert(decimal(v).drop_last() =~= d);
        assert(decimal(v).last() == last);
        assert(last as nat == 48 + v % 10);
        assert(digits_value(decimal(v)) == digits_value(d) * 10 + (v % 10));
    }
    lemma_digit_run(decimal(v), decimal(v).len() as int);
}

proof fn lemma_no_char_in_decimal(v: nat, c: char)
    requires
        !is_digit(c),
    ensures
        first_index_of(decimal(v), c) is None,
{
    lemma_decimal_facts(v);
    lemma_first_index_of(decimal(v), c, decimal(v).len() as int);
}

proof fn lemma_first_index_after_decimal(v: nat, rest: Seq<char>, c: char)
    requires
        !is_digit(c),
        rest.len() > 0,
        rest[0] == c,
    ensures
        first_index_of(decimal(v) + rest, c) == Some(decimal(v).len() as int),
{
    lemma_decimal_facts(v);
    let s = decimal(v) + rest;
    assert forall|j: int| 0 <= j < decimal(v).len() implies s[j] != c by {
        assert(s[j] == decimal(v)[j]);
    }
    lemma_first_index_of(s, c, decimal(v).len() as int);
}

proof fn lemma_parse_decimal(v: nat)
    requires
        v <= u32_max(),
    ensures
        parse_unsigned(decimal(v), u32_max()) == Some(v),
        leading_number(decimal(v)) == Some(v),
{
    lemma_decimal_facts(v);
    assert(decimal(v)[0] != '+');
    assert(decimal(v).take(decimal(v).len() as int) =~= decimal(v));
}

/// Reading back the text of a series gives the series: `from_str` undoes `to_string`.
pub proof fn lemma_series_text_round_trip(s: KernelSeries)
    ensures
        series_of_text(series_text(s)) == Ok::<KernelSeries, KernelParseError>(s),
{
    let a = decimal(s.major as nat);
    let b = decimal(s.minor as nat);
    let t = series_text(s);
    assert(t == a + (seq!['.'] + b));
    lemma_first_index_after_decimal(s.major as nat, seq!['.'] + b, '.');
    assert(t.take(a.len() as int) =~= a);
    assert(t.skip(a.len() + 1 as int) =~= b);
    lemma_parse_decimal(s.major as nat);
    lemma_parse_decimal(s.minor as nat);
}

proof fn lemma_version_text_shape(v: KernelVersion)
    ensures
        upstream_version(version_text(v)) == version_text(v),
        version_text(v) == decimal(v.series.major as nat) + (seq!['.'] + (decimal(
            v.series.minor as nat,
        ) + (seq!['.'] + decimal(v.patch as nat)))),
        forall|i: int|
            0 <= i < version_text(v).len() ==> #[trigger] version_text(v)[i] != ':'
                && version_text(v)[i] != '-',
{
    let a = decimal(v.series.major as nat);
    let b = decimal(v.series.minor as nat);
    let c = decimal(v.patch as nat);
    let t = version_text(v);
    lemma_decimal_facts(v.series.major as nat);
    lemma_decimal_facts(v.series.minor as nat);
    lemma_decimal_facts(v.patch as nat);
    assert(t =~= a + (seq!['.'] + (b + (seq!['.'] + c))));
    assert forall|i: int| 0 <= i < t.len() implies t[i] != ':' && t[i] != '-' by {
        if i < a.len() {
            assert(t[i] == a[i]);
            assert(is_digit(a[i]));
        } else if i == a.len() {
        } else if i < a.len() + 1 + b.len() {
            assert(t[i] == b[i - a.len() - 1]);
            assert(is_digit(b[i - a.len() - 1]));
        } else if i == a.len() + 1 + b.len() {
        } else {
            assert(t[i] == c[i - a.len() - 2 - b.len()]);
            assert(is_digit(c[i - a.len() - 2 - b.len()]));
        }
    }
    lemma_first_index_of(t, ':', t.len() as int);
    lemma_first_index_of(t, '-', t.len() as int);
}

/// A package version made of an epoch, the text of a version and a Debian revision reads as that
/// version: what stands before the first `:` and what follows the `-` are ignored.
pub proof fn lemma_version_text_with_epoch_and_revision(
    v: KernelVersion,
    epoch: Seq<char>,
    revision: Seq<char>,
)
    requires
        !epoch.contains(':'),
    ensures
        version_of_text(epoch + seq![':'] + version_text(v) + seq!['-'] + revision) == Ok::<
            KernelVersion,
            KernelParseError,
        >(v),
{
    let t = version_text(v);
    let s = epoch + seq![':'] + t + seq!['-'] + revision;
    lemma_version_text_shape(v);
    lemma_version_text_round_trip(v);
    assert forall|j: int| 0 <= j < epoch.len() implies s[j] != ':' by {
        assert(s[j] == epoch[j]);
        if epoch[j] == ':' {
            assert(epoch.contains(':'));
        }
    }
    lemma_first_index_of(s, ':', epoch.len() as int);
    let n = s.skip((epoch.len() + 1) as int);
    assert(n =~= t + (seq!['-'] + revision));
    assert forall|j: int| 0 <= j < t.len() implies n[j] != '-' by {
        assert(n[j] == t[j]);
    }
    lemma_first_index_of(n, '-', t.len() as int);
    assert(n.take(t.len() as int) =~= t);
    assert(upstream_version(s) == t);
}

/// Reading back the text of a version gives the version: `from_str` undoes `to_string`.
#[verifier::spinoff_prover]
#[verifier::rlimit(40)]
pub proof fn lemma_version_text_round_trip(v: KernelVersion)
    ensures
        version_of_text(version_text(v)) == Ok::<KernelVersion, KernelParseError>(v),
{
    let a = decimal(v.series.major as nat);
    let b = decimal(v.series.minor as nat);
    let c = decimal(v.patch as nat);
    let t = version_text(v);
    lemma_version_text_shape(v);
    lemma_first_index_after_decimal(v.series.major as nat, seq!['.'] + (b + (seq!['.'] + c)), '.');
    let r1 = t.skip(a.len() + 1 as int);
    assert(t.take(a.len() as int) =~= a);
    assert(r1 =~= b + (seq!['.'] + c));
    lemma_first_index_after_decimal(v.series.minor as nat, seq!['.'] + c, '.');
    assert(r1.take(b.len() as int) =~= b);
    assert(r1.skip(b.len() + 1 as int) =~= c);
    lemma_no_char_in_decimal(v.patch as nat, '.');
    assert(first_field(c) == c);
    lemma_parse_decimal(v.series.major as nat);
    lemma_parse_decimal(v.series.minor as nat);
    lemma_parse_decimal(v.patch as nat);
}

proof fn lemma_fields_after_first(a: Seq<char>, c: char, b: Seq<char>)
    requires
        forall|j: int| 0 <= j < a.len() ==> !is_version_separator(#[trigger] a[j]),
        is_version_separator(c),
    ensures
        version_fields(a + seq![c] + b) == seq![a] + version_fields(b),
{
    let s = a + seq![c] + b;
    assert forall|j: int| 0 <= j < a.len() implies !is_version_separator(#[trigger] s[j]) by {
        assert(s[j] == a[j]);
    }
    assert(s[a.len() as int] == c);
    lemma_first_separator(s, a.len() as int);
    assert(s.take(a.len() as int) =~= a);
    assert(s.skip(a.len() + 1 as int) =~= b);
}

proof fn lemma_first_marker_head(f: Seq<char>, fs: Seq<Seq<char>>)
    ensures
        first_marker(seq![f] + fs) == match field_marker(f) {
            Some(n) => Some(n),
            None => first_marker(fs),
        },
{
    assert((seq![f] + fs)[0] == f);
    assert((seq![f] + fs).drop_first() =~= fs);
}

/// A backport marker is the first part of a release, between the separators `.`, `-`, `~`, `+`
/// and `:`, that is `bpo` followed by a release number: a part before it that does not start
/// with `bpo` is passed over, and what follows the marker does not matter. So both
/// `6.14.11-9-bpo12-pve` and `6.14.11-9~bpo12+1` name release 12.
pub proof fn lemma_backport_marker_parts(a: Seq<char>, c: char, b: Seq<char>, n: u32)
    requires
        is_version_separator(c),
    ensures
        ((forall|j: int| 0 <= j < a.len() ==> !is_version_separator(#[trigger] a[j])) && !(a.len()
            >= 3 && a[0] == 'b' && a[1] == 'p' && a[2] == 'o')) ==> backport_marker_of(
            a + seq![c] + b,
        ) == backport_marker_of(b),
        backport_marker_of("bpo"@ + decimal(n as nat)) == Some(n),
        backport_marker_of("bpo"@ + decimal(n as nat) + seq![c] + b) == Some(n),
{
    if (forall|j: int| 0 <= j < a.len() ==> !is_version_separator(#[trigger] a[j])) && !(a.len()
        >= 3 && a[0] == 'b' && a[1] == 'p' && a[2] == 'o') {
        lemma_fields_after_first(a, c, b);
        lemma_first_marker_head(a, version_fields(b));
    }
    reveal_strlit("bpo");
    let f = "bpo"@ + decimal(n as nat);
    lemma_decimal_facts(n as nat);
    lemma_parse_decimal(n as nat);
    assert forall|j: int| 0 <= j < f.len() implies !is_version_separator(#[trigger] f[j]) by {
        if j >= 3 {
            assert(f[j] == decimal(n as nat)[j - 3]);
            assert(is_digit(decimal(n as nat)[j - 3]));
        }
    }
    assert(f.skip(3) =~= decimal(n as nat));
    assert(field_marker(f) == Some(n as nat));
    lemma_first_separator(f, f.len() as int);
    assert(version_fields(f) == seq![f]);
    assert(seq![f] =~= seq![f] + Seq::<Seq<char>>::empty());
    lemma_first_marker_head(f, Seq::<Seq<char>>::empty());
    lemma_fields_after_first(f, c, b);
    lemma_first_marker_head(f, version_fields(b));
}

} // verus!
