//! The decisions of the miscellaneous upgrade checks: package repository suites, systemd units,
//! time synchronisation, DKMS modules and the bootloader setup.
use vstd::prelude::*;

use crate::text::{chars_of, push_char, push_range, string_of};
use crate::regex_calls::regex_is_match;
use crate::upgrade::UpgradeChecker;

verus! {

// ---------------------------------------------------------------------------------------------
// Package repository suites
// ---------------------------------------------------------------------------------------------
/// One APT repository, as far as the suite check reads it.
#[derive(Clone, Debug)]
pub struct AptRepository {
    pub enabled: bool,
    /// Whether the repository only offers source packages (`deb-src`).
    pub source_only: bool,
    pub suites: Vec<String>,
}

/// One APT repository file, as far as the suite check reads it.
#[derive(Clone, Debug)]
pub struct AptRepositoryFile {
    pub path: Option<String>,
    pub repositories: Vec<AptRepository>,
}

/// The suites seen so far by the suite check.
#[derive(Clone, Debug)]
pub struct SuiteScan {
    /// The first usual suite found, and where.
    pub found: Option<(String, String)>,
    /// The suites that disagree with the first one found, and where; once there is a mismatch, the
    /// first suite found is listed first.
    pub mismatches: Vec<(String, String)>,
    /// Whether a suite was neither the old nor the new one.
    pub strange: bool,
}

/// A suite and where it was found, as characters.
pub type Located = (Seq<char>, Seq<char>);

/// The fields of a [`SuiteScan`].
pub ghost struct ScanView {
    pub found: Option<Located>,
    pub mismatches: Seq<Located>,
    pub strange: bool,
}

/// A suite and its location, as characters.
pub open spec fn located_view(p: (String, String)) -> Located {
    (p.0@, p.1@)
}

/// A sequence of located suites, as characters.
pub open spec fn located_seq(v: Seq<(String, String)>) -> Seq<Located> {
    v.map_values(|p: (String, String)| located_view(p))
}

impl SuiteScan {
    pub fn new() -> (s: SuiteScan)
        ensures
            s.view_scan() == (ScanView { found: None, mismatches: seq![], strange: false }),
    {
        let s = SuiteScan { found: None, mismatches: Vec::new(), strange: false };
        assert(located_seq(s.mismatches@) =~= seq![]);
        s
    }

    pub open spec fn view_scan(&self) -> ScanView {
        ScanView {
            found: match self.found {
                Some(p) => Some(located_view(p)),
                None => None,
            },
            mismatches: located_seq(self.mismatches@),
            strange: self.strange,
        }
    }
}

/// The index of the first `-` or `/` in `s`.
pub open spec fn first_suite_separator(s: Seq<char>) -> Option<int>
    decreases s.len(),
{
    if s.len() == 0 {
        None
    } else if s[0] == '-' || s[0] == '/' {
        Some(0)
    } else {
        match first_suite_separator(s.drop_first()) {
            Some(i) => Some(i + 1),
            None => None,
        }
    }
}

/// The Debian suite that a repository suite belongs to: the part before the first `-` or `/`, so
/// `bookworm-updates` and `bookworm/updates` count as `bookworm`.
pub open spec fn suite_base(s: Seq<char>) -> Seq<char> {
    match first_suite_separator(s) {
        Some(i) => s.take(i),
        None => s,
    }
}

proof fn lemma_first_suite_separator(s: Seq<char>, k: int)
    requires
        0 <= k <= s.len(),
        forall|j: int| 0 <= j < k ==> s[j] != '-' && s[j] != '/',
        k == s.len() || s[k] == '-' || s[k] == '/',
    ensures
        first_suite_separator(s) == (if k == s.len() {
            None::<int>
        } else {
            Some(k)
        }),
    decreases k,
{
    if k > 0 {
        lemma_first_suite_separator(s.drop_first(), k - 1);
    }
}

proof fn lemma_first_suite_separator_found(s: Seq<char>)
    ensures
        first_suite_separator(s) matches Some(i) ==> 0 <= i < s.len() && (s[i] == '-' || s[i]
            == '/') && forall|j: int| 0 <= j < i ==> s[j] != '-' && s[j] != '/',
        first_suite_separator(s) is None ==> forall|j: int|
            0 <= j < s.len() ==> s[j] != '-' && s[j] != '/',
    decreases s.len(),
{
    if s.len() > 0 && s[0] != '-' && s[0] != '/' {
        lemma_first_suite_separator_found(s.drop_first());
        assert forall|j: int| 0 < j < s.len() implies s[j] == s.drop_first()[j - 1] by {}
    }
}

/// The base of a suite is the longest start of it without `-` or `/`: it holds neither, and it
/// is either the whole suite or followed in it by a `-` or `/`.
pub proof fn lemma_suite_base(s: Seq<char>)
    ensures
        suite_base(s).len() <= s.len(),
        suite_base(s) == s.take(suite_base(s).len() as int),
        forall|j: int|
            0 <= j < suite_base(s).len() ==> #[trigger] suite_base(s)[j] != '-' && suite_base(
                s,
            )[j] != '/',
        suite_base(s).len() == s.len() || s[suite_base(s).len() as int] == '-' || s[suite_base(
            s,
        ).len() as int] == '/',
{
    lemma_first_suite_separator_found(s);
    if first_suite_separator(s) is None {
        assert(s.take(s.len() as int) =~= s);
    }
}

/// Executable `suite_base`.
fn suite_base_of(suite: &str) -> (r: String)
    ensures
        r@ == suite_base(suite@),
{
    let cs = chars_of(suite);
    let mut i: usize = 0;
    while i < cs.len() && cs[i] != '-' && cs[i] != '/'
        invariant
            i <= cs.len(),
            forall|j: int| 0 <= j < i ==> cs@[j] != '-' && cs@[j] != '/',
        decreases cs.len() - i,
    {
        i += 1;
    }
    proof {
        lemma_first_suite_separator(cs@, i as int);
    }
    let mut r = String::new();
    push_range(&mut r, &cs, 0, i);
    assert(cs@.subrange(0, i as int) =~= suite_base(cs@));
    r
}

/// The suites of one repository with its file's location: none for a disabled or source-only
/// repository.
pub open spec fn repo_entries(repo: AptRepository, location: Seq<char>) -> Seq<Located> {
    if !repo.enabled || repo.source_only {
        seq![]
    } else {
        repo.suites@.map_values(|s: String| (suite_base(s@), location))
    }
}

/// The location that a repository file reports: its path, or the empty string.
pub open spec fn file_location(file: AptRepositoryFile) -> Seq<char> {
    match file.path {
        Some(p) => p@,
        None => seq![],
    }
}

/// The suites of the first `k` repositories of a file, in order.
pub open spec fn file_entries_upto(file: AptRepositoryFile, k: int) -> Seq<Located>
    decreases k,
{
    if k <= 0 {
        seq![]
    } else {
        file_entries_upto(file, k - 1) + repo_entries(
            file.repositories@[k - 1],
            file_location(file),
        )
    }
}

/// The suites of all repositories of a file, in order.
pub open spec fn file_entries(file: AptRepositoryFile) -> Seq<Located> {
    file_entries_upto(file, file.repositories@.len() as int)
}

/// One step of the suite check: an unusual suite is noted; a usual one becomes the suite found
/// when there is none yet, and is a mismatch when it differs from it.
pub open spec fn scan_step(old_suite: Seq<char>, new_suite: Seq<char>, st: ScanView, e: Located) -> ScanView {
    let (suite, location) = e;
    if suite != old_suite && suite != new_suite {
        ScanView { strange: true, ..st }
    } else {
        match st.found {
            Some((current, current_location)) => if suite != current {
                if st.mismatches.len() == 0 {
                    ScanView {
                        mismatches: st.mismatches.push((current, current_location)).push(
                            (suite, location),
                        ),
                        ..st
                    }
                } else {
                    ScanView { mismatches: st.mismatches.push((suite, location)), ..st }
                }
            } else {
                st
            },
            None => ScanView { found: Some((suite, location)), ..st },
        }
    }
}

/// The state after the suite check saw `es`.
pub open spec fn scan_state(old_suite: Seq<char>, new_suite: Seq<char>, st: ScanView, es: Seq<Located>) -> ScanView
    decreases es.len(),
{
    if es.len() == 0 {
        st
    } else {
        scan_step(old_suite, new_suite, scan_state(old_suite, new_suite, st, es.drop_last()), es.last())
    }
}

/// Whether the suites seen so far are consistent: once there is a mismatch, the suite found first
/// is listed first, and every later mismatch names another suite than it.
pub open spec fn scan_consistent(st: ScanView) -> bool {
    &&& st.mismatches.len() > 0 ==> (st.found matches Some(f) && st.mismatches[0] == f
        && st.mismatches.len() >= 2)
    &&& forall|i: int|
        1 <= i < st.mismatches.len() ==> (#[trigger] st.mismatches[i]).0 != st.mismatches[0].0
}

/// Every step of the suite check keeps the suites seen consistent, and the suite found first stays
/// the one found, starting from the empty scan or any consistent one.
pub proof fn lemma_scan_keeps_first_suite(
    old_suite: Seq<char>,
    new_suite: Seq<char>,
    st: ScanView,
    es: Seq<Located>,
)
    requires
        scan_consistent(st),
    ensures
        scan_consistent(scan_state(old_suite, new_suite, st, es)),
        st.found is Some ==> scan_state(old_suite, new_suite, st, es).found == st.found,
    decreases es.len(),
{
    if es.len() > 0 {
        lemma_scan_keeps_first_suite(old_suite, new_suite, st, es.drop_last());
        let prev = scan_state(old_suite, new_suite, st, es.drop_last());
        let next = scan_step(old_suite, new_suite, prev, es.last());
        assert(next == scan_state(old_suite, new_suite, st, es));
        assert forall|i: int| 1 <= i < next.mismatches.len() implies (
        #[trigger] next.mismatches[i]).0 != next.mismatches[0].0 by {
            if i < prev.mismatches.len() {
                assert(next.mismatches[i] == prev.mismatches[i]);
            }
        }
    }
}

/// What the suite check keeps of the suites seen: no mismatch at all, or at least two, of which
/// the first is the suite found first.
pub open spec fn scan_invariant(st: ScanView) -> bool {
    st.mismatches.len() == 0 || (st.mismatches.len() >= 2 && st.found == Some(st.mismatches[0]))
}

/// From any state with the invariant, the suite check keeps it: the suite found first stays the
/// one found, the mismatches seen so far stay at the start of the list, and a strange suite stays
/// noted.
pub proof fn lemma_scan_keeps_invariant(
    old_suite: Seq<char>,
    new_suite: Seq<char>,
    st: ScanView,
    es: Seq<Located>,
)
    requires
        scan_invariant(st),
    ensures
        scan_invariant(scan_state(old_suite, new_suite, st, es)),
        st.found is Some ==> scan_state(old_suite, new_suite, st, es).found == st.found,
        scan_state(old_suite, new_suite, st, es).mismatches.len() >= st.mismatches.len(),
        scan_state(old_suite, new_suite, st, es).mismatches.take(st.mismatches.len() as int)
            == st.mismatches,
        st.strange ==> scan_state(old_suite, new_suite, st, es).strange,
    decreases es.len(),
{
    if es.len() == 0 {
        assert(st.mismatches.take(st.mismatches.len() as int) =~= st.mismatches);
    } else {
        lemma_scan_keeps_invariant(old_suite, new_suite, st, es.drop_last());
        let prev = scan_state(old_suite, new_suite, st, es.drop_last());
        let next = scan_step(old_suite, new_suite, prev, es.last());
        assert(next == scan_state(old_suite, new_suite, st, es));
        let k = st.mismatches.len() as int;
        assert(next.mismatches.len() >= prev.mismatches.len());
        assert(next.mismatches.take(prev.mismatches.len() as int) =~= prev.mismatches);
        assert(next.mismatches.take(k) =~= prev.mismatches.take(k));
        if prev.mismatches.len() > 0 {
            assert(next.mismatches[0] == prev.mismatches[0]);
        }
    }
}

/// The empty scan is consistent.
pub proof fn lemma_empty_scan_consistent()
    ensures
        scan_consistent(ScanView { found: None, mismatches: seq![], strange: false }),
{
}

/// The unusual suites among `es`, in order, with where they were found.
pub open spec fn unusual_suites(old_suite: Seq<char>, new_suite: Seq<char>, es: Seq<Located>) -> Seq<Located> {
    es.filter(|e: Located| e.0 != old_suite && e.0 != new_suite)
}

/// Clones a located suite.
fn clone_pair(p: &(String, String)) -> (r: (String, String))
    ensures
        located_view(r) == located_view(*p),
{
    (p.0.clone(), p.1.clone())
}

impl UpgradeChecker {
    /// The suites of a repository file as the suite check sees them.
    fn repo_file_entries(file: &AptRepositoryFile) -> (v: Vec<(String, String)>)
        ensures
            located_seq(v@) == file_entries(*file),
    {
        let location = match &file.path {
            Some(p) => p.clone(),
            None => String::new(),
        };
        let mut v: Vec<(String, String)> = Vec::new();
        let n = file.repositories.len();
        let mut r: usize = 0;
        assert(located_seq(v@) =~= file_entries_upto(*file, 0));
        while r < n
            invariant
                n == file.repositories@.len(),
                r <= n,
                location@ == file_location(*file),
                located_seq(v@) == file_entries_upto(*file, r as int),
            decreases n - r,
        {
            let repo = &file.repositories[r];
            let ghost base = located_seq(v@);
            if repo.enabled && !repo.source_only {
                let m = repo.suites.len();
                let mut j: usize = 0;
                while j < m
                    invariant
                        m == repo.suites@.len(),
                        j <= m,
                        located_seq(v@) == base + repo.suites@.take(j as int).map_values(
                            |s: String| (suite_base(s@), location@),
                        ),
                    decreases m - j,
                {
                    let ghost before = v@;
                    let pair = (suite_base_of(repo.suites[j].as_str()), location.clone());
                    v.push(pair);
                    assert(repo.suites@.take(j + 1).map_values(
                        |s: String| (suite_base(s@), location@),
                    ) =~= repo.suites@.take(j as int).map_values(
                        |s: String| (suite_base(s@), location@),
                    ).push((suite_base(repo.suites@[j as int]@), location@)));
                    assert(located_seq(v@) =~= located_seq(before).push(located_view(pair)));
                    j += 1;
                }
                assert(repo.suites@.take(m as int) =~= repo.suites@);
            } else {
                assert(base + repo_entries(*repo, location@) =~= base);
            }
            assert(file_entries_upto(*file, r + 1) == base + repo_entries(
                file.repositories@[r as int],
                file_location(*file),
            ));
            r += 1;
        }
        v
    }

    /// Runs the suite check over one repository file: updates the suites seen so far in `scan`
    /// and gives the unusual suites it holds, each neither the old nor the new suite, with the
    /// file's location, in order.
    pub fn check_repo_file(&self, scan: &mut SuiteScan, repo_file: &AptRepositoryFile) -> (r: Vec<
        (String, String),
    >)
        ensures
            final(scan).view_scan() == scan_state(
                self.old_suite@,
                self.new_suite@,
                old(scan).view_scan(),
                file_entries(*repo_file),
            ),
            located_seq(r@) == unusual_suites(
                self.old_suite@,
                self.new_suite@,
                file_entries(*repo_file),
            ),
    {
        let entries = Self::repo_file_entries(repo_file);
        let ghost es = located_seq(entries@);
        let ghost start = scan.view_scan();
        let mut notices: Vec<(String, String)> = Vec::new();
        let n = entries.len();
        let mut i: usize = 0;
        proof {
            assert(es.take(0) =~= Seq::<Located>::empty());
            reveal_with_fuel(Seq::<_>::filter, 1);
            assert(located_seq(notices@) =~= unusual_suites(
                self.old_suite@,
                self.new_suite@,
                es.take(0),
            ));
        }
        while i < n
            invariant
                n == entries.len(),
                i <= n,
                es == located_seq(entries@),
                es.len() == n,
                scan.view_scan() == scan_state(self.old_suite@, self.new_suite@, start, es.take(i as int)),
                located_seq(notices@) == unusual_suites(self.old_suite@, self.new_suite@, es.take(i as int)),
            decreases n - i,
        {
            let (suite, location) = clone_pair(&entries[i]);
            let ghost e = es[i as int];
            assert(e == (suite@, location@));
            assert(es.take(i + 1).drop_last() =~= es.take(i as int));
            assert(es.take(i + 1).last() == e);
            let ghost before_notices = notices@;
            if suite != self.old_suite && suite != self.new_suite {
                scan.strange = true;
                notices.push((suite, location));
                proof {
                    reveal_with_fuel(Seq::<_>::filter, 1);
                    assert(located_seq(notices@) =~= located_seq(before_notices).push(e));
                }
            } else {
                proof {
                    reveal_with_fuel(Seq::<_>::filter, 1);
                }
                match &scan.found {
                    Some(found) => {
                        if suite != found.0 {
                            if scan.mismatches.len() == 0 {
                                let current = clone_pair(found);
                                scan.mismatches.push(current);
                                scan.mismatches.push((suite, location));
                            } else {
                                scan.mismatches.push((suite, location));
                            }
                        }
                    },
                    None => {
                        scan.found = Some((suite, location));
                    },
                }
                assert(located_seq(scan.mismatches@) =~= scan_state(
                    self.old_suite@,
                    self.new_suite@,
                    start,
                    es.take(i + 1),
                ).mismatches);
            }
            i += 1;
        }
        assert(es.take(n as int) =~= es);
        notices
    }
}

/// The outcome of the suite check over all repository files.
#[derive(Clone, Copy, Debug, PartialEq, Eq, Structural)]
pub enum SuiteVerdict {
    /// All suites agree.
    NoMismatch,
    /// All usual suites agree, but at least one suite was neither the old nor the new one.
    StrangeSuite,
    /// Old and new suites are mixed.
    Mismatch,
}

/// Judges the suites seen over all repository files.
pub fn suite_verdict(scan: &SuiteScan) -> (v: SuiteVerdict)
    ensures
        v == (if scan.mismatches@.len() > 0 {
            SuiteVerdict::Mismatch
        } else if scan.strange {
            SuiteVerdict::StrangeSuite
        } else {
            SuiteVerdict::NoMismatch
        }),
{
    if scan.mismatches.len() > 0 {
        SuiteVerdict::Mismatch
    } else if scan.strange {
        SuiteVerdict::StrangeSuite
    } else {
        SuiteVerdict::NoMismatch
    }
}

/// The text that lists one mismatching suite and where it was found.
pub open spec fn mismatch_entry(m: Located) -> Seq<char> {
    "\n      found suite '"@ + m.0 + "' at '"@ + m.1 + "'"@
}

/// The entries of all mismatching suites, in order.
pub open spec fn mismatch_entries(ms: Seq<Located>) -> Seq<char>
    decreases ms.len(),
{
    if ms.len() == 0 {
        Seq::empty()
    } else {
        mismatch_entries(ms.drop_last()) + mismatch_entry(ms.last())
    }
}

/// The failure message for mixed old and new suites, listing each mismatch on a line of its own.
pub open spec fn mismatch_message(ms: Seq<Located>) -> Seq<char> {
    "Found mixed old and new packages repository suites, fix before upgrading!\n      Mismatches:"@
        + mismatch_entries(ms) + seq!['\n']
}

/// Builds the failure message for mixed old and new suites.
pub fn mismatch_text(mismatches: &Vec<(String, String)>) -> (r: String)
    ensures
        r@ == mismatch_message(located_seq(mismatches@)),
{
    let mut r = string_of(
        "Found mixed old and new packages repository suites, fix before upgrading!\n      Mismatches:",
    );
    let ghost head = r@;
    let mut i: usize = 0;
    while i < mismatches.len()
        invariant
            i <= mismatches.len(),
            r@ == head + mismatch_entries(located_seq(mismatches@).take(i as int)),
        decreases mismatches.len() - i,
    {
        r.append("\n      found suite '");
        r.append(mismatches[i].0.as_str());
        r.append("' at '");
        r.append(mismatches[i].1.as_str());
        r.append("'");
        proof {
            let ms = located_seq(mismatches@);
            assert(ms.take(i + 1).drop_last() =~= ms.take(i as int));
            assert(ms.take(i + 1).last() == located_view(mismatches@[i as int]));
        }
        i += 1;
    }
    push_char(&mut r, '\n');
    proof {
        assert(located_seq(mismatches@).take(mismatches@.len() as int) =~= located_seq(mismatches@));
    }
    r
}

// ---------------------------------------------------------------------------------------------
// systemd units
// ---------------------------------------------------------------------------------------------
/// The state of a systemd unit, as `systemctl is-enabled` and `systemctl is-active` report it.
#[derive(Clone, Copy, Debug, PartialEq, Eq, Structural)]
pub enum SystemdUnitState {
    Active,
    Enabled,
    Disabled,
    Failed,
    Inactive,
    Unknown,
}

/// The bytes of an ASCII text.
pub open spec fn ascii_bytes(s: Seq<char>) -> Seq<u8> {
    s.map_values(|c: char| c as u8)
}

/// Whether `output` is exactly the bytes of the ASCII text `text`.
fn is_ascii_text(output: &[u8], text: &str) -> (b: bool)
    ensures
        b == (output@ == ascii_bytes(text@)),
{
    let cs = chars_of(text);
    if output.len() != cs.len() {
        return false;
    }
    let mut i: usize = 0;
    while i < cs.len()
        invariant
            output@.len() == cs@.len(),
            cs@ == text@,
            i <= cs.len(),
            forall|j: int| 0 <= j < i ==> output@[j] == cs@[j] as u8,
        decreases cs.len() - i,
    {
        if output[i] != cs[i] as u8 {
            assert(ascii_bytes(cs@)[i as int] == cs@[i as int] as u8);
            return false;
        }
        i += 1;
    }
    assert(output@ =~= ascii_bytes(cs@));
    true
}

/// What `systemctl is-enabled` printed, as a unit state.
pub open spec fn enabled_state_spec(output: Seq<u8>) -> SystemdUnitState {
    if output == ascii_bytes("enabled\n"@) {
        SystemdUnitState::Enabled
    } else if output == ascii_bytes("disabled\n"@) {
        SystemdUnitState::Disabled
    } else {
        SystemdUnitState::Unknown
    }
}

/// What `systemctl is-active` printed, as a unit state.
pub open spec fn active_state_spec(output: Seq<u8>) -> SystemdUnitState {
    if output == ascii_bytes("active\n"@) {
        SystemdUnitState::Active
    } else if output == ascii_bytes("inactive\n"@) {
        SystemdUnitState::Inactive
    } else if output == ascii_bytes("failed\n"@) {
        SystemdUnitState::Failed
    } else {
        SystemdUnitState::Unknown
    }
}

/// Reads the output of `systemctl is-enabled`: exactly `enabled` or `disabled` and a newline,
/// anything else is unknown.
pub fn enabled_state(output: &[u8]) -> (r: SystemdUnitState)
    ensures
        r == enabled_state_spec(output@),
{
    if is_ascii_text(output, "enabled\n") {
        SystemdUnitState::Enabled
    } else if is_ascii_text(output, "disabled\n") {
        SystemdUnitState::Disabled
    } else {
        SystemdUnitState::Unknown
    }
}

/// Reads the output of `systemctl is-active`: exactly `active`, `inactive` or `failed` and a
/// newline, anything else is unknown.
pub fn active_state(output: &[u8]) -> (r: SystemdUnitState)
    ensures
        r == active_state_spec(output@),
{
    if is_ascii_text(output, "active\n") {
        SystemdUnitState::Active
    } else if is_ascii_text(output, "inactive\n") {
        SystemdUnitState::Inactive
    } else if is_ascii_text(output, "failed\n") {
        SystemdUnitState::Failed
    } else {
        SystemdUnitState::Unknown
    }
}

/// What the service check reports of a unit.
#[derive(Clone, Copy, Debug, PartialEq, Eq, Structural)]
pub enum ServiceVerdict {
    /// The unit is active: a pass.
    Active,
    /// The unit is inactive: a failure.
    Inactive,
    /// The unit failed: a failure.
    Failed,
    /// The unit is in no known state: a failure.
    NotActive,
}

/// Judges a service by its active state.
pub fn service_verdict(active: SystemdUnitState) -> (v: ServiceVerdict)
    ensures
        v == match active {
            SystemdUnitState::Active => ServiceVerdict::Active,
            SystemdUnitState::Inactive => ServiceVerdict::Inactive,
            SystemdUnitState::Failed => ServiceVerdict::Failed,
            _ => ServiceVerdict::NotActive,
        },
{
    match active {
        SystemdUnitState::Active => ServiceVerdict::Active,
        SystemdUnitState::Inactive => ServiceVerdict::Inactive,
        SystemdUnitState::Failed => ServiceVerdict::Failed,
        _ => ServiceVerdict::NotActive,
    }
}

// ---------------------------------------------------------------------------------------------
// Time synchronisation
// ---------------------------------------------------------------------------------------------
/// The time-synchronisation units the check asks about, in the order it asks.
#[derive(Clone, Copy, Debug, PartialEq, Eq, Structural)]
pub enum TimeSyncUnit {
    Timesyncd,
    Ntp,
    Chrony,
    Openntpd,
    Ntpsec,
}

/// What the time-synchronisation check reports.
#[derive(Clone, Copy, Debug, PartialEq, Eq, Structural)]
pub enum TimeSyncVerdict {
    /// systemd-timesyncd is active: a warning, as it is not the best choice for servers.
    Timesyncd,
    /// ntp is active: information, as it migrates to ntpsec on upgrade.
    Ntp,
    /// chrony, openntpd or ntpsec is active: a pass.
    Synchronized,
    /// No time-synchronisation daemon is active: a warning.
    Unsynchronized,
}

/// The next step of the time-synchronisation check: ask whether another unit is active, or
/// report.
#[derive(Clone, Copy, Debug, PartialEq, Eq, Structural)]
pub enum TimeSyncStep {
    Ask(TimeSyncUnit),
    Report(TimeSyncVerdict),
}

/// The step of the time-synchronisation check after asking whether `u` is active.
pub open spec fn time_sync_next(u: TimeSyncUnit, active: bool) -> TimeSyncStep {
    match (u, active) {
        (TimeSyncUnit::Timesyncd, true) => TimeSyncStep::Report(TimeSyncVerdict::Timesyncd),
        (TimeSyncUnit::Timesyncd, false) => TimeSyncStep::Ask(TimeSyncUnit::Ntp),
        (TimeSyncUnit::Ntp, true) => TimeSyncStep::Report(TimeSyncVerdict::Ntp),
        (TimeSyncUnit::Ntp, false) => TimeSyncStep::Ask(TimeSyncUnit::Chrony),
        (TimeSyncUnit::Chrony, false) => TimeSyncStep::Ask(TimeSyncUnit::Openntpd),
        (TimeSyncUnit::Openntpd, false) => TimeSyncStep::Ask(TimeSyncUnit::Ntpsec),
        (TimeSyncUnit::Ntpsec, false) => TimeSyncStep::Report(TimeSyncVerdict::Unsynchronized),
        (_, true) => TimeSyncStep::Report(TimeSyncVerdict::Synchronized),
    }
}

/// The place of a unit in the order the check asks about them.
pub open spec fn time_sync_rank(u: TimeSyncUnit) -> int {
    match u {
        TimeSyncUnit::Timesyncd => 0,
        TimeSyncUnit::Ntp => 1,
        TimeSyncUnit::Chrony => 2,
        TimeSyncUnit::Openntpd => 3,
        TimeSyncUnit::Ntpsec => 4,
    }
}

/// The verdict of the time-synchronisation check from unit `u` on, when `active` tells which
/// units are active.
pub open spec fn time_sync_run(
    u: TimeSyncUnit,
    active: spec_fn(TimeSyncUnit) -> bool,
) -> TimeSyncVerdict
    decreases 4 - time_sync_rank(u),
{
    match time_sync_next(u, active(u)) {
        TimeSyncStep::Report(v) => v,
        TimeSyncStep::Ask(n) => if time_sync_rank(u) < time_sync_rank(n) <= 4 {
            time_sync_run(n, active)
        } else {
            TimeSyncVerdict::Unsynchronized
        },
    }
}

/// The time-synchronisation check asks about each unit at most once, in order, and its verdict
/// is: systemd-timesyncd when that is active; else ntp when that is active; else a synchronized
/// system when chrony, openntpd or ntpsec is active; else an unsynchronized one.
pub proof fn lemma_time_sync_verdict(active: spec_fn(TimeSyncUnit) -> bool)
    ensures
        forall|u: TimeSyncUnit|
            #[trigger] time_sync_next(u, false) matches TimeSyncStep::Ask(n) ==> time_sync_rank(n)
                == time_sync_rank(u) + 1,
        time_sync_run(TimeSyncUnit::Timesyncd, active) == if active(TimeSyncUnit::Timesyncd) {
            TimeSyncVerdict::Timesyncd
        } else if active(TimeSyncUnit::Ntp) {
            TimeSyncVerdict::Ntp
        } else if active(TimeSyncUnit::Chrony) || active(TimeSyncUnit::Openntpd) || active(
            TimeSyncUnit::Ntpsec,
        ) {
            TimeSyncVerdict::Synchronized
        } else {
            TimeSyncVerdict::Unsynchronized
        },
{
    reveal_with_fuel(time_sync_run, 6);
}

impl TimeSyncUnit {
    /// The first unit to ask about.
    pub fn first() -> (u: TimeSyncUnit)
        ensures
            u == TimeSyncUnit::Timesyncd,
    {
        TimeSyncUnit::Timesyncd
    }

    /// The systemd unit name.
    pub open spec fn unit_spec(self) -> Seq<char> {
        match self {
            TimeSyncUnit::Timesyncd => "systemd-timesyncd.service"@,
            TimeSyncUnit::Ntp => "ntp.service"@,
            TimeSyncUnit::Chrony => "chrony.service"@,
            TimeSyncUnit::Openntpd => "openntpd.service"@,
            TimeSyncUnit::Ntpsec => "ntpsec.service"@,
        }
    }

    /// The systemd unit name.
    pub fn unit(self) -> (r: &'static str)
        ensures
            r@ == self.unit_spec(),
    {
        match self {
            TimeSyncUnit::Timesyncd => "systemd-timesyncd.service",
            TimeSyncUnit::Ntp => "ntp.service",
            TimeSyncUnit::Chrony => "chrony.service",
            TimeSyncUnit::Openntpd => "openntpd.service",
            TimeSyncUnit::Ntpsec => "ntpsec.service",
        }
    }

    /// What follows from whether this unit is active: systemd-timesyncd and ntp report on their
    /// own; chrony, openntpd and ntpsec each report a synchronized system; an inactive unit
    /// passes on to the next one, and after ntpsec to an unsynchronized system.
    pub fn next(self, active: bool) -> (step: TimeSyncStep)
        ensures
            step == time_sync_next(self, active),
    {
        match (self, active) {
            (TimeSyncUnit::Timesyncd, true) => TimeSyncStep::Report(TimeSyncVerdict::Timesyncd),
            (TimeSyncUnit::Timesyncd, false) => TimeSyncStep::Ask(TimeSyncUnit::Ntp),
            (TimeSyncUnit::Ntp, true) => TimeSyncStep::Report(TimeSyncVerdict::Ntp),
            (TimeSyncUnit::Ntp, false) => TimeSyncStep::Ask(TimeSyncUnit::Chrony),
            (TimeSyncUnit::Chrony, false) => TimeSyncStep::Ask(TimeSyncUnit::Openntpd),
            (TimeSyncUnit::Openntpd, false) => TimeSyncStep::Ask(TimeSyncUnit::Ntpsec),
            (TimeSyncUnit::Ntpsec, false) => TimeSyncStep::Report(TimeSyncVerdict::Unsynchronized),
            (_, true) => TimeSyncStep::Report(TimeSyncVerdict::Synchronized),
        }
    }
}

// ---------------------------------------------------------------------------------------------
// DKMS modules
// ---------------------------------------------------------------------------------------------
/// Whether `dkms status` listed any module: whether its output has a line at all, which is
/// whether it is not empty.
pub fn dkms_modules_found(status: &str) -> (b: bool)
    ensures
        b == (status@.len() > 0),
{
    !status.is_empty()
}

// ---------------------------------------------------------------------------------------------
// The bootloader
// ---------------------------------------------------------------------------------------------
/// What the bootloader check knows of the system before it runs any command.
#[derive(Clone, Copy, Debug, PartialEq, Eq, Structural)]
pub struct BootFacts {
    /// The system booted in UEFI mode (`/sys/firmware/efi` is a directory).
    pub efi_booted: bool,
    /// The `systemd-boot` package is installed.
    pub systemd_boot_installed: bool,
    /// `/etc/kernel/proxmox-boot-uuids` exists: proxmox-boot-tool manages the ESPs.
    pub boot_uuids_present: bool,
    /// The `grub-efi-amd64` meta-package is installed.
    pub grub_efi_installed: bool,
    /// `/boot/efi/EFI/BOOT/BOOTX64.efi`, the removable bootloader, exists.
    pub removable_bootloader_present: bool,
}

/// What the bootloader check reports.
#[derive(Clone, Copy, Debug, PartialEq, Eq, Structural)]
pub enum BootFinding {
    /// A warning: systemd-boot is installed on a legacy-boot system, where it is not needed.
    SystemdBootOnLegacy,
    /// Skipped: the system booted in legacy mode.
    LegacyBoot,
    /// Skipped: not yet upgraded, systemd-boot is still needed for bootctl.
    SystemdBootStillNeeded,
    /// A warning: UEFI boot without the grub-efi-amd64 meta-package.
    GrubEfiMissing,
    /// A warning: a removable bootloader exists that GRUB is not set up to update.
    RemovableNotUpdated,
    /// A failure: the systemd-boot meta-package is installed.
    SystemdBootInstalled,
    /// A pass: the bootloader packages are installed correctly.
    BootloaderOk,
}

/// The command whose output the bootloader check reads.
#[derive(Clone, Copy, Debug, PartialEq, Eq, Structural)]
pub enum BootCommand {
    /// None is needed.
    NoCommand,
    /// `proxmox-boot-tool status`.
    BootToolStatus,
    /// `debconf-show --db configdb grub-efi-amd64 grub-pc`.
    DebconfGrub,
}

/// The pattern that marks `proxmox-boot-tool status` output of ESPs set up with systemd-boot or
/// plain UEFI.
pub const BOOT_TOOL_PATTERN: &'static str = r"configured with:.* (uefi|systemd-boot) \(versions:";

/// The pattern that marks debconf output with GRUB set up to update the removable bootloader.
pub const DEBCONF_REMOVABLE_PATTERN: &'static str = r"grub2/force_efi_extra_removable: +true(?:\n|$)";

/// Whether `w` stands in `t` at index `i`.
pub open spec fn has_at(t: Seq<char>, i: int, w: Seq<char>) -> bool {
    0 <= i && i + w.len() <= t.len() && t.subrange(i, i + w.len()) == w
}

/// What `BOOT_TOOL_PATTERN` matches: `configured with:`, then any characters but a line feed, then
/// ` uefi (versions:` or ` systemd-boot (versions:`.
pub open spec fn boot_tool_status_matches(t: Seq<char>) -> bool {
    exists|i: int, j: int|
        #![trigger has_at(t, i, "configured with:"@), has_at(t, j, " uefi (versions:"@)]
        #![trigger has_at(t, i, "configured with:"@), has_at(t, j, " systemd-boot (versions:"@)]
        has_at(t, i, "configured with:"@) && i + "configured with:"@.len() <= j && (forall|k: int|
            i + "configured with:"@.len() <= k < j ==> t[k] != '\n') && (has_at(
            t,
            j,
            " uefi (versions:"@,
        ) || has_at(t, j, " systemd-boot (versions:"@))
}

/// What `DEBCONF_REMOVABLE_PATTERN` matches: `grub2/force_efi_extra_removable:`, one or more
/// spaces and `true`, at the end of the text or before a line feed.
pub open spec fn debconf_removable_set(t: Seq<char>) -> bool {
    exists|i: int, j: int|
        #![trigger has_at(t, i, "grub2/force_efi_extra_removable:"@), has_at(t, j, "true"@)]
        has_at(t, i, "grub2/force_efi_extra_removable:"@) && i
            + "grub2/force_efi_extra_removable:"@.len() < j && (forall|k: int|
            i + "grub2/force_efi_extra_removable:"@.len() <= k < j ==> t[k] == ' ') && has_at(
            t,
            j,
            "true"@,
        ) && (j + 4 == t.len() || (j + 4 < t.len() && t[j + 4] == '\n'))
}

/// The command the bootloader check runs: none on a legacy-boot system; on a proxmox-boot-tool
/// system its status, but only before the upgrade; otherwise the debconf GRUB settings when a
/// removable bootloader exists.
pub open spec fn boot_command(upgraded: bool, f: BootFacts) -> BootCommand {
    if !f.efi_booted {
        BootCommand::NoCommand
    } else if f.boot_uuids_present {
        if !upgraded {
            BootCommand::BootToolStatus
        } else {
            BootCommand::NoCommand
        }
    } else if f.removable_bootloader_present {
        BootCommand::DebconfGrub
    } else {
        BootCommand::NoCommand
    }
}

/// What the bootloader check reports before it runs its command.
pub open spec fn boot_findings_before(f: BootFacts) -> Seq<BootFinding> {
    if !f.efi_booted {
        if f.systemd_boot_installed {
            seq![BootFinding::SystemdBootOnLegacy]
        } else {
            seq![BootFinding::LegacyBoot]
        }
    } else if !f.boot_uuids_present && !f.grub_efi_installed {
        seq![BootFinding::GrubEfiMissing]
    } else {
        seq![]
    }
}

/// One finding when `cond` holds, none otherwise.
pub open spec fn finding_if(cond: bool, f: BootFinding) -> Seq<BootFinding> {
    if cond {
        seq![f]
    } else {
        seq![]
    }
}

/// What the bootloader check reports after its command, `matched` telling whether the command's
/// pattern matched its output.
pub open spec fn boot_findings_after(upgraded: bool, f: BootFacts, matched: bool) -> Seq<
    BootFinding,
> {
    if !f.efi_booted {
        seq![]
    } else if f.boot_uuids_present && !upgraded && matched {
        seq![BootFinding::SystemdBootStillNeeded]
    } else {
        let removable_stale = !f.boot_uuids_present && f.removable_bootloader_present && !matched;
        let grub_missing = !f.boot_uuids_present && !f.grub_efi_installed;
        let boot_ok = !grub_missing && !removable_stale && !f.systemd_boot_installed;
        finding_if(removable_stale, BootFinding::RemovableNotUpdated) + finding_if(
            f.systemd_boot_installed,
            BootFinding::SystemdBootInstalled,
        ) + finding_if(boot_ok, BootFinding::BootloaderOk)
    }
}

/// The bootloader check passes the bootloader setup only when it reports no problem at all: not
/// before its command (on a legacy-boot system, or on UEFI without proxmox-boot-tool and without
/// grub-efi-amd64), and not after it (no stale removable bootloader, no systemd-boot package). It
/// does pass a UEFI system that has none of these problems, unless it stops early because
/// systemd-boot is still needed before the upgrade.
pub proof fn lemma_bootloader_ok_only_without_problems(upgraded: bool, f: BootFacts, matched: bool)
    ensures
        boot_findings_after(upgraded, f, matched).contains(BootFinding::BootloaderOk) ==> {
            &&& f.efi_booted
            &&& boot_findings_before(f).len() == 0
            &&& !f.systemd_boot_installed
            &&& (f.boot_uuids_present || f.grub_efi_installed)
            &&& boot_findings_after(upgraded, f, matched) == seq![BootFinding::BootloaderOk]
        },
        (f.efi_booted && !f.boot_uuids_present && !f.grub_efi_installed) ==> !boot_findings_after(
            upgraded,
            f,
            matched,
        ).contains(BootFinding::BootloaderOk),
        f.systemd_boot_installed ==> !boot_findings_after(upgraded, f, matched).contains(
            BootFinding::BootloaderOk,
        ),
        (f.efi_booted && !f.systemd_boot_installed && (f.boot_uuids_present || f.grub_efi_installed)
            && !(f.boot_uuids_present && !upgraded && matched) && !(!f.boot_uuids_present
            && f.removable_bootloader_present && !matched)) ==> boot_findings_after(
            upgraded,
            f,
            matched,
        ) == seq![BootFinding::BootloaderOk],
{
    let after = boot_findings_after(upgraded, f, matched);
    if after.contains(BootFinding::BootloaderOk) {
        let i = choose|i: int| 0 <= i < after.len() && after[i] == BootFinding::BootloaderOk;
        assert(after =~= seq![BootFinding::BootloaderOk]);
    }
    if f.efi_booted && !f.boot_uuids_present && !f.grub_efi_installed {
        assert(after =~= finding_if(
            !f.boot_uuids_present && f.removable_bootloader_present && !matched,
            BootFinding::RemovableNotUpdated,
        ) + finding_if(f.systemd_boot_installed, BootFinding::SystemdBootInstalled));
        assert(!after.contains(BootFinding::BootloaderOk)) by {
            if after.contains(BootFinding::BootloaderOk) {
                let i = choose|i: int| 0 <= i < after.len() && after[i] == BootFinding::BootloaderOk;
            }
        }
    }
}

/// Before its command the bootloader check reports a legacy-boot system (as such, or as one
/// that needlessly has systemd-boot), or a UEFI system without proxmox-boot-tool and without
/// grub-efi-amd64, and nothing else. The only command it runs is the proxmox-boot-tool status,
/// on a UEFI system with proxmox-boot-tool before the upgrade, or the debconf GRUB settings, on a
/// UEFI system without proxmox-boot-tool that has a removable bootloader; a legacy-boot system
/// gets no command and no finding after it.
pub proof fn lemma_bootloader_before_command(upgraded: bool, f: BootFacts, matched: bool)
    ensures
        boot_findings_before(f).len() <= 1,
        boot_findings_before(f).contains(BootFinding::LegacyBoot) <==> (!f.efi_booted
            && !f.systemd_boot_installed),
        boot_findings_before(f).contains(BootFinding::SystemdBootOnLegacy) <==> (!f.efi_booted
            && f.systemd_boot_installed),
        boot_findings_before(f).contains(BootFinding::GrubEfiMissing) <==> (f.efi_booted
            && !f.boot_uuids_present && !f.grub_efi_installed),
        (boot_command(upgraded, f) == BootCommand::BootToolStatus) <==> (f.efi_booted
            && f.boot_uuids_present && !upgraded),
        (boot_command(upgraded, f) == BootCommand::DebconfGrub) <==> (f.efi_booted
            && !f.boot_uuids_present && f.removable_bootloader_present),
        !f.efi_booted ==> boot_findings_after(upgraded, f, matched).len() == 0,
{
    let b = boot_findings_before(f);
    assert(b.contains(BootFinding::LegacyBoot) ==> b[0] == BootFinding::LegacyBoot);
    assert(b.contains(BootFinding::SystemdBootOnLegacy) ==> b[0]
        == BootFinding::SystemdBootOnLegacy);
    assert(b.contains(BootFinding::GrubEfiMissing) ==> b[0] == BootFinding::GrubEfiMissing);
    if b.len() == 1 {
        assert(b.contains(b[0]));
    }
}

/// Whether the pattern of `command` matches its output `output`.
pub open spec fn command_matches(command: BootCommand, output: Seq<char>) -> bool {
    match command {
        BootCommand::BootToolStatus => boot_tool_status_matches(output),
        BootCommand::DebconfGrub => debconf_removable_set(output),
        BootCommand::NoCommand => false,
    }
}

fn push_finding_if(v: &mut Vec<BootFinding>, cond: bool, f: BootFinding)
    ensures
        final(v)@ == old(v)@ + finding_if(cond, f),
{
    if cond {
        v.push(f);
        assert(final(v)@ =~= old(v)@ + seq![f]);
    } else {
        assert(old(v)@ + Seq::<BootFinding>::empty() =~= old(v)@);
    }
}

impl UpgradeChecker {
    /// The first part of the bootloader check: the findings before its command, and the command
    /// whose output it needs, if any.
    pub fn bootloader_plan(&self, facts: BootFacts) -> (r: (Vec<BootFinding>, BootCommand))
        ensures
            r.0@ == boot_findings_before(facts),
            r.1 == boot_command(self.upgraded, facts),
    {
        let mut v: Vec<BootFinding> = Vec::new();
        if !facts.efi_booted {
            if facts.systemd_boot_installed {
                v.push(BootFinding::SystemdBootOnLegacy);
            } else {
                v.push(BootFinding::LegacyBoot);
            }
            assert(v@ =~= boot_findings_before(facts));
            return (v, BootCommand::NoCommand);
        }
        if facts.boot_uuids_present {
            // the package version check needs to run before
            let command = if !self.upgraded {
                BootCommand::BootToolStatus
            } else {
                BootCommand::NoCommand
            };
            assert(v@ =~= boot_findings_before(facts));
            (v, command)
        } else {
            if !facts.grub_efi_installed {
                v.push(BootFinding::GrubEfiMissing);
            }
            let command = if facts.removable_bootloader_present {
                BootCommand::DebconfGrub
            } else {
                BootCommand::NoCommand
            };
            assert(v@ =~= boot_findings_before(facts));
            (v, command)
        }
    }

    /// The second part of the bootloader check: the findings after its command, given the
    /// command's output when it ran one.
    pub fn bootloader_finish(&self, facts: BootFacts, output: Option<&str>) -> (v: Vec<
        BootFinding,
    >)
        requires
            output is Some <==> boot_command(self.upgraded, facts) != BootCommand::NoCommand,
        ensures
            v@ == boot_findings_after(
                self.upgraded,
                facts,
                match output {
                    Some(o) => command_matches(boot_command(self.upgraded, facts), o@),
                    None => false,
                },
            ),
    {
        let matched = match output {
            Some(text) => {
                if facts.boot_uuids_present {
                    regex_is_match(BOOT_TOOL_PATTERN, text).unwrap()
                } else {
                    regex_is_match(DEBCONF_REMOVABLE_PATTERN, text).unwrap()
                }
            },
            None => false,
        };
        self.bootloader_findings(facts, matched)
    }

    /// The findings of the bootloader check after its command, `matched` telling whether the
    /// command's pattern matched its output (false when it ran none).
    pub fn bootloader_findings(&self, facts: BootFacts, matched: bool) -> (v: Vec<BootFinding>)
        ensures
            v@ == boot_findings_after(self.upgraded, facts, matched),
    {
        let mut v: Vec<BootFinding> = Vec::new();
        if !facts.efi_booted {
            assert(v@ =~= boot_findings_after(self.upgraded, facts, matched));
            return v;
        }
        if facts.boot_uuids_present && !self.upgraded && matched {
            v.push(BootFinding::SystemdBootStillNeeded);
            assert(v@ =~= boot_findings_after(self.upgraded, facts, matched));
            return v;
        }
        let removable_stale = !facts.boot_uuids_present && facts.removable_bootloader_present
            && !matched;
        let grub_missing = !facts.boot_uuids_present && !facts.grub_efi_installed;
        let boot_ok = !grub_missing && !removable_stale && !facts.systemd_boot_installed;
        push_finding_if(&mut v, removable_stale, BootFinding::RemovableNotUpdated);
        push_finding_if(&mut v, facts.systemd_boot_installed, BootFinding::SystemdBootInstalled);
        push_finding_if(&mut v, boot_ok, BootFinding::BootloaderOk);
        assert(v@ =~= boot_findings_after(self.upgraded, facts, matched));
        v
    }
}

} // verus!
