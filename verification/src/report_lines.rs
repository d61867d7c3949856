//! The lines that the package checks report: the level and the exact text of each, for every
//! outcome of the check.
use vstd::prelude::*;

use crate::checks::{
    boot_command, boot_findings_after, boot_findings_before, command_matches, dkms_modules_found,
    file_entries, located_seq, located_view, mismatch_message, mismatch_text, scan_state,
    suite_verdict, unusual_suites, AptRepositoryFile, BootCommand, BootFacts, BootFinding, Located,
    ScanView, SuiteScan, SuiteVerdict, SystemdUnitState, TimeSyncVerdict,
};
use crate::civil::{decimal, push_decimal};
use crate::report::{lines_view, LogLevel};
use crate::upgrade::{
    is_newest_suitable, no_suitable_candidate, pending_updates, joined_names, KernelCompat,
    MetaCheckError, MetaPackageVerdict, PackageInfo, UpgradeChecker,
};

verus! {

/// `a`, `b` and `c` one after the other.
pub(crate) fn concat3(a: &str, b: &str, c: &str) -> (r: String)
    ensures
        r@ == a@ + b@ + c@,
{
    let mut r = String::new();
    r.append(a);
    r.append(b);
    r.append(c);
    r
}

/// `a` to `e` one after the other.
pub(crate) fn concat5(a: &str, b: &str, c: &str, d: &str, e: &str) -> (r: String)
    ensures
        r@ == a@ + b@ + c@ + d@ + e@,
{
    let mut r = concat3(a, b, c);
    r.append(d);
    r.append(e);
    r
}

/// Appends a report line.
pub(crate) fn push_report_line(v: &mut Vec<(LogLevel, String)>, level: LogLevel, text: String)
    ensures
        lines_view(final(v)@) == lines_view(old(v)@).push((level, text@)),
{
    let ghost before = v@;
    v.push((level, text));
    assert(lines_view(v@) =~= lines_view(before).push((level, text@)));
}

// ---------------------------------------------------------------------------------------------
// Package updates
// ---------------------------------------------------------------------------------------------
/// The lines of the check for package updates, given the packages with updates or the text of
/// the error that listing them gave: a warning with the error and a failure, a pass when there is
/// no update, else a warning that names the packages.
pub open spec fn update_lines(updates: Result<Seq<PackageInfo>, Seq<char>>) -> Seq<
    (LogLevel, Seq<char>),
> {
    seq![(LogLevel::Info, "Checking for package updates.."@)] + match updates {
        Err(e) => seq![
            (LogLevel::Warn, e),
            (LogLevel::Fail, "unable to retrieve list of package updates!"@),
        ],
        Ok(pkgs) => if pkgs.len() == 0 {
            seq![(LogLevel::Pass, "all packages up-to-date"@)]
        } else {
            seq![
                (
                    LogLevel::Warn,
                    "updates for the following packages are available:\n      "@ + joined_names(
                        pkgs,
                    ),
                ),
            ]
        },
    }
}

/// The lines of the check for package updates.
pub fn update_report_lines(updates: &Result<Vec<PackageInfo>, String>) -> (v: Vec<(LogLevel, String)>)
    ensures
        lines_view(v@) == update_lines(
            match updates {
                Ok(p) => Ok(p@),
                Err(e) => Err(e@),
            },
        ),
{
    let mut v: Vec<(LogLevel, String)> = Vec::new();
    push_report_line(&mut v, LogLevel::Info, crate::text::string_of("Checking for package updates.."));
    match updates {
        Err(e) => {
            push_report_line(&mut v, LogLevel::Warn, e.clone());
            push_report_line(
                &mut v,
                LogLevel::Fail,
                crate::text::string_of("unable to retrieve list of package updates!"),
            );
        },
        Ok(pkgs) => match pending_updates(pkgs) {
            None => {
                push_report_line(
                    &mut v,
                    LogLevel::Pass,
                    crate::text::string_of("all packages up-to-date"),
                );
            },
            Some(names) => {
                let mut t = crate::text::string_of(
                    "updates for the following packages are available:\n      ",
                );
                t.append(names.as_str());
                push_report_line(&mut v, LogLevel::Warn, t);
            },
        },
    }
    let ghost u = match updates {
        Ok(p) => Ok(p@),
        Err(e) => Err(e@),
    };
    assert(lines_view(v@) =~= update_lines(u));
    v
}

// ---------------------------------------------------------------------------------------------
// The product's meta-package
// ---------------------------------------------------------------------------------------------
/// The minimum version as the check writes it: `major.minor.pkgrel`.
pub open spec fn min_version_text(c: UpgradeChecker) -> Seq<char> {
    decimal(c.minimum_major_version as nat) + seq!['.'] + decimal(c.minimum_minor_version as nat)
        + seq!['.'] + decimal(c.minimum_pkgrel as nat)
}

/// The line that reports a verdict on the meta-package: a pass when it is recent enough or the
/// upgrade already happened, else a failure.
pub open spec fn meta_verdict_line(c: UpgradeChecker, verdict: MetaPackageVerdict) -> (
    LogLevel,
    Seq<char>,
) {
    let name = c.meta_package_name@;
    match verdict {
        MetaPackageVerdict::AlreadyUpgraded { major, minor } => (
            LogLevel::Pass,
            "Already upgraded to "@ + decimal(major as nat) + seq!['.'] + decimal(minor as nat),
        ),
        MetaPackageVerdict::RecentEnough => (
            LogLevel::Pass,
            "'"@ + name + "' has version >= "@ + min_version_text(c),
        ),
        MetaPackageVerdict::TooOld => (
            LogLevel::Fail,
            "'"@ + name + "' package is too old, please upgrade to >= "@ + min_version_text(c),
        ),
        MetaPackageVerdict::VersionUnmatched => (
            LogLevel::Fail,
            "could not match the '"@ + name + "' package version, is it installed?"@,
        ),
        MetaPackageVerdict::NotFound => (LogLevel::Fail, "'"@ + name + "' package not found!"@),
    }
}

/// The lines of the meta-package check: what it checks, then the line of its verdict, or none
/// when it could not decide.
pub open spec fn meta_lines(c: UpgradeChecker, outcome: Result<MetaPackageVerdict, MetaCheckError>) -> Seq<
    (LogLevel, Seq<char>),
> {
    seq![(LogLevel::Info, "Checking "@ + c.meta_package_name@ + " package version.."@)] + match outcome {
        Ok(v) => seq![meta_verdict_line(c, v)],
        Err(_) => seq![],
    }
}

fn min_version_string(c: &UpgradeChecker) -> (r: String)
    ensures
        r@ == min_version_text(*c),
{
    let mut r = String::new();
    push_decimal(&mut r, c.minimum_major_version as u64);
    crate::text::push_char(&mut r, '.');
    push_decimal(&mut r, c.minimum_minor_version as u64);
    crate::text::push_char(&mut r, '.');
    push_decimal(&mut r, c.minimum_pkgrel as u64);
    assert(r@ =~= min_version_text(*c));
    r
}

impl UpgradeChecker {
    /// The line that reports a verdict on the meta-package.
    pub fn meta_verdict_report_line(&self, verdict: MetaPackageVerdict) -> (l: (LogLevel, String))
        ensures
            (l.0, l.1@) == meta_verdict_line(*self, verdict),
    {
        let name = self.meta_package_name.as_str();
        match verdict {
            MetaPackageVerdict::AlreadyUpgraded { major, minor } => {
                let mut t = crate::text::string_of("Already upgraded to ");
                push_decimal(&mut t, major as u64);
                crate::text::push_char(&mut t, '.');
                push_decimal(&mut t, minor as u64);
                assert(t@ =~= meta_verdict_line(*self, verdict).1);
                (LogLevel::Pass, t)
            },
            MetaPackageVerdict::RecentEnough => {
                let min = min_version_string(self);
                let mut t = concat3("'", name, "' has version >= ");
                t.append(min.as_str());
                (LogLevel::Pass, t)
            },
            MetaPackageVerdict::TooOld => {
                let min = min_version_string(self);
                let mut t = concat3("'", name, "' package is too old, please upgrade to >= ");
                t.append(min.as_str());
                (LogLevel::Fail, t)
            },
            MetaPackageVerdict::VersionUnmatched => (
                LogLevel::Fail,
                concat3("could not match the '", name, "' package version, is it installed?"),
            ),
            MetaPackageVerdict::NotFound => (
                LogLevel::Fail,
                concat3("'", name, "' package not found!"),
            ),
        }
    }

    /// Runs the meta-package check on the installed packages and gives the lines it reports,
    /// with the error when it could not decide.
    pub fn meta_package_report(&mut self, pkg_versions: &Vec<PackageInfo>) -> (r: (
        Vec<(LogLevel, String)>,
        Result<(), MetaCheckError>,
    ))
        ensures
            lines_view(r.0@) == meta_lines(*old(self), old(self).meta_check(pkg_versions@)),
            r.1 == match old(self).meta_check(pkg_versions@) {
                Ok(_) => Ok::<(), MetaCheckError>(()),
                Err(e) => Err(e),
            },
            *final(self) == (UpgradeChecker {
                upgraded: old(self).upgraded || old(self).meta_check(pkg_versions@) matches Ok(
                    MetaPackageVerdict::AlreadyUpgraded { .. },
                ),
                ..*old(self)
            }),
    {
        let mut v: Vec<(LogLevel, String)> = Vec::new();
        let info = concat3("Checking ", self.meta_package_name.as_str(), " package version..");
        push_report_line(&mut v, LogLevel::Info, info);
        let ghost before = *self;
        let outcome = self.check_meta_package_version(pkg_versions);
        match outcome {
            Ok(verdict) => {
                let (level, text) = self.meta_verdict_report_line(verdict);
                assert(meta_verdict_line(*self, verdict) == meta_verdict_line(before, verdict));
                push_report_line(&mut v, level, text);
                assert(lines_view(v@) =~= meta_lines(before, outcome));
                (v, Ok(()))
            },
            Err(e) => {
                assert(lines_view(v@) =~= meta_lines(before, outcome));
                (v, Err(e))
            },
        }
    }
}

// ---------------------------------------------------------------------------------------------
// The running kernel
// ---------------------------------------------------------------------------------------------
/// The line that passes a suitable running kernel `r`.
pub open spec fn kernel_pass_text(upgraded: bool, r: Seq<char>) -> Seq<char> {
    if upgraded {
        "running new kernel '"@ + r + "' after upgrade."@
    } else {
        "running kernel '"@ + r + "' is considered suitable for upgrade."@
    }
}

/// The warning that a suitable kernel `p` is installed but the unsuitable `r` runs.
pub open spec fn kernel_reboot_text(p: Seq<char>, r: Seq<char>) -> Seq<char> {
    "a suitable kernel '"@ + p + "' is installed, but an unsuitable '"@ + r
        + "' is booted, missing reboot?!"@
}

/// The warning that neither the running kernel `r` nor an installed one is suitable.
pub open spec fn kernel_unexpected_text(r: Seq<char>) -> Seq<char> {
    "unexpected running and installed kernel '"@ + r + "'."@
}

impl UpgradeChecker {
    /// The lines of the kernel check, given the running kernel release (`uname -r`, trimmed) or the
    /// text of the error that reading it gave: what it checks, then a failure with the error, a
    /// pass for a suitable running kernel, a warning naming the newest suitable installed
    /// kernel-meta package when there is one (a reboot is missing), else a warning that the
    /// kernel is unexpected.
    pub fn kernel_report_lines(&self, running: &Result<String, String>, pkg_versions: &Vec<
        PackageInfo,
    >) -> (v: Vec<(LogLevel, String)>)
        ensures
            lines_view(v@).len() == 2,
            lines_view(v@)[0] == (LogLevel::Info, "Check running kernel version.."@),
            running matches Err(e) ==> lines_view(v@)[1] == (LogLevel::Fail, e@),
            running matches Ok(r) ==> (self.running_suitable(r@) ==> lines_view(v@)[1] == (
                LogLevel::Pass,
                kernel_pass_text(self.upgraded, r@),
            )),
            running matches Ok(r) ==> ((!self.running_suitable(r@) && no_suitable_candidate(
                self,
                pkg_versions@,
            )) ==> lines_view(v@)[1] == (LogLevel::Warn, kernel_unexpected_text(r@))),
            running matches Ok(r) ==> ((!self.running_suitable(r@) && !no_suitable_candidate(
                self,
                pkg_versions@,
            )) ==> exists|p: Seq<char>|
                is_newest_suitable(self, pkg_versions@, p) && lines_view(v@)[1] == (
                    LogLevel::Warn,
                    kernel_reboot_text(p, r@),
                )),
    {
        let mut v: Vec<(LogLevel, String)> = Vec::new();
        push_report_line(
            &mut v,
            LogLevel::Info,
            crate::text::string_of("Check running kernel version.."),
        );
        match running {
            Err(e) => push_report_line(&mut v, LogLevel::Fail, e.clone()),
            Ok(r) => match self.check_kernel_compat(r.as_str(), pkg_versions) {
                KernelCompat::RunningSuitable => {
                    let t = if self.upgraded {
                        concat3("running new kernel '", r.as_str(), "' after upgrade.")
                    } else {
                        concat3(
                            "running kernel '",
                            r.as_str(),
                            "' is considered suitable for upgrade.",
                        )
                    };
                    push_report_line(&mut v, LogLevel::Pass, t);
                },
                KernelCompat::SuitableInstalled(p) => {
                    let t = concat5(
                        "a suitable kernel '",
                        p.as_str(),
                        "' is installed, but an unsuitable '",
                        r.as_str(),
                        "' is booted, missing reboot?!",
                    );
                    push_report_line(&mut v, LogLevel::Warn, t);
                    assert(lines_view(v@)[1] == (LogLevel::Warn, kernel_reboot_text(p@, r@)));
                },
                KernelCompat::Unexpected => {
                    let t = concat3("unexpected running and installed kernel '", r.as_str(), "'.");
                    push_report_line(&mut v, LogLevel::Warn, t);
                },
            },
        }
        v
    }
}

// ---------------------------------------------------------------------------------------------
// The bootloader
// ---------------------------------------------------------------------------------------------
/// The line that reports a finding of the bootloader check.
pub open spec fn boot_finding_line(f: BootFinding) -> (LogLevel, Seq<char>) {
    match f {
        BootFinding::SystemdBootOnLegacy => (
            LogLevel::Warn,
            "systemd-boot package installed on legacy-boot system is not necessary, consider removing it"@,
        ),
        BootFinding::LegacyBoot => (
            LogLevel::Skip,
            "System booted in legacy-mode - no need for additional packages."@,
        ),
        BootFinding::SystemdBootStillNeeded => (
            LogLevel::Skip,
            "not yet upgraded, systemd-boot still needed for bootctl"@,
        ),
        BootFinding::GrubEfiMissing => (
            LogLevel::Warn,
            "System booted in uefi mode but grub-efi-amd64 meta-package not installed, new grub versions will not be installed to /boot/efi!\n                     Install grub-efi-amd64."@,
        ),
        BootFinding::RemovableNotUpdated => (
            LogLevel::Warn,
            "Removable bootloader found at '/boot/efi/EFI/BOOT/BOOTX64.efi', but GRUB packages not set up to update it!\nRun the following command:\necho 'grub-efi-amd64 grub2/force_efi_extra_removable boolean true' | debconf-set-selections -v -u\nThen reinstall GRUB with 'apt install --reinstall grub-efi-amd64'"@,
        ),
        BootFinding::SystemdBootInstalled => (
            LogLevel::Fail,
            "systemd-boot meta-package installed. This will cause problems on upgrades of other boot-related packages.\nRemove the 'systemd-boot' package.\nPlease consult the upgrade guide for further information!"@,
        ),
        BootFinding::BootloaderOk => (LogLevel::Pass, "bootloader packages installed correctly"@),
    }
}

/// The lines that report the findings, in order.
pub open spec fn boot_finding_lines(fs: Seq<BootFinding>) -> Seq<(LogLevel, Seq<char>)> {
    fs.map_values(|f: BootFinding| boot_finding_line(f))
}

/// The line that reports a finding of the bootloader check.
pub fn boot_finding_report_line(f: BootFinding) -> (l: (LogLevel, String))
    ensures
        (l.0, l.1@) == boot_finding_line(f),
{
    let (level, text): (LogLevel, &str) = match f {
        BootFinding::SystemdBootOnLegacy => (
            LogLevel::Warn,
            "systemd-boot package installed on legacy-boot system is not necessary, consider removing it",
        ),
        BootFinding::LegacyBoot => (
            LogLevel::Skip,
            "System booted in legacy-mode - no need for additional packages.",
        ),
        BootFinding::SystemdBootStillNeeded => (
            LogLevel::Skip,
            "not yet upgraded, systemd-boot still needed for bootctl",
        ),
        BootFinding::GrubEfiMissing => (
            LogLevel::Warn,
            "System booted in uefi mode but grub-efi-amd64 meta-package not installed, new grub versions will not be installed to /boot/efi!\n                     Install grub-efi-amd64.",
        ),
        BootFinding::RemovableNotUpdated => (
            LogLevel::Warn,
            "Removable bootloader found at '/boot/efi/EFI/BOOT/BOOTX64.efi', but GRUB packages not set up to update it!\nRun the following command:\necho 'grub-efi-amd64 grub2/force_efi_extra_removable boolean true' | debconf-set-selections -v -u\nThen reinstall GRUB with 'apt install --reinstall grub-efi-amd64'",
        ),
        BootFinding::SystemdBootInstalled => (
            LogLevel::Fail,
            "systemd-boot meta-package installed. This will cause problems on upgrades of other boot-related packages.\nRemove the 'systemd-boot' package.\nPlease consult the upgrade guide for further information!",
        ),
        BootFinding::BootloaderOk => (LogLevel::Pass, "bootloader packages installed correctly"),
    };
    (level, crate::text::string_of(text))
}

fn boot_finding_report_lines(fs: &Vec<BootFinding>) -> (v: Vec<(LogLevel, String)>)
    ensures
        lines_view(v@) == boot_finding_lines(fs@),
{
    let mut v: Vec<(LogLevel, String)> = Vec::new();
    let mut i: usize = 0;
    while i < fs.len()
        invariant
            i <= fs.len(),
            lines_view(v@) == boot_finding_lines(fs@.take(i as int)),
        decreases fs.len() - i,
    {
        let (level, text) = boot_finding_report_line(fs[i]);
        push_report_line(&mut v, level, text);
        assert(boot_finding_lines(fs@.take(i + 1)) =~= boot_finding_lines(fs@.take(i as int)).push(
            boot_finding_line(fs@[i as int]),
        ));
        i += 1;
    }
    assert(fs@.take(fs.len() as int) =~= fs@);
    v
}

impl UpgradeChecker {
    /// The first lines of the bootloader check, what it checks and its findings before its
    /// command, and the command whose output it needs, if any.
    pub fn bootloader_report_start(&self, facts: BootFacts) -> (r: (
        Vec<(LogLevel, String)>,
        BootCommand,
    ))
        ensures
            lines_view(r.0@) == seq![(LogLevel::Info, "Checking bootloader configuration..."@)]
                + boot_finding_lines(boot_findings_before(facts)),
            r.1 == boot_command(self.upgraded, facts),
    {
        let (findings, command) = self.bootloader_plan(facts);
        let mut v: Vec<(LogLevel, String)> = Vec::new();
        push_report_line(
            &mut v,
            LogLevel::Info,
            crate::text::string_of("Checking bootloader configuration..."),
        );
        let rest = boot_finding_report_lines(&findings);
        let mut i: usize = 0;
        let ghost head = lines_view(v@);
        while i < rest.len()
            invariant
                i <= rest.len(),
                lines_view(v@) == head + lines_view(rest@).take(i as int),
            decreases rest.len() - i,
        {
            push_report_line(&mut v, rest[i].0, rest[i].1.clone());
            assert(lines_view(rest@).take(i + 1) =~= lines_view(rest@).take(i as int).push(
                lines_view(rest@)[i as int],
            ));
            i += 1;
        }
        assert(lines_view(rest@).take(rest.len() as int) =~= lines_view(rest@));
        (v, command)
    }

    /// The last lines of the bootloader check: its findings after its command, given the
    /// command's output when it ran one.
    pub fn bootloader_report_finish(&self, facts: BootFacts, output: Option<&str>) -> (v: Vec<
        (LogLevel, String),
    >)
        requires
            output is Some <==> boot_command(self.upgraded, facts) != BootCommand::NoCommand,
        ensures
            lines_view(v@) == boot_finding_lines(
                boot_findings_after(
                    self.upgraded,
                    facts,
                    match output {
                        Some(o) => command_matches(boot_command(self.upgraded, facts), o@),
                        None => false,
                    },
                ),
            ),
    {
        let findings = self.bootloader_finish(facts, output);
        boot_finding_report_lines(&findings)
    }
}

// ---------------------------------------------------------------------------------------------
// Services
// ---------------------------------------------------------------------------------------------
/// The line that reports a service by its active state: a pass when it is active, else a failure
/// that names the state.
pub open spec fn service_line(s: Seq<char>, st: SystemdUnitState) -> (LogLevel, Seq<char>) {
    match st {
        SystemdUnitState::Active => (
            LogLevel::Pass,
            "systemd unit '"@ + s + "' is in state 'active'"@,
        ),
        SystemdUnitState::Inactive => (
            LogLevel::Fail,
            "systemd unit '"@ + s
                + "' is in state 'inactive'\n    Please check the service for errors and start it."@,
        ),
        SystemdUnitState::Failed => (
            LogLevel::Fail,
            "systemd unit '"@ + s
                + "' is in state 'failed'\n    Please check the service for errors and start it."@,
        ),
        _ => (
            LogLevel::Fail,
            "systemd unit '"@ + s
                + "' is not in state 'active'\n    Please check the service for errors and start it."@,
        ),
    }
}

/// A service passes only when it is active: every other state, inactive, failed or unknown, is
/// reported as a failure, and the line names the service.
pub proof fn lemma_service_line_level(s: Seq<char>, st: SystemdUnitState)
    ensures
        service_line(s, st).0 == (if st == SystemdUnitState::Active {
            LogLevel::Pass
        } else {
            LogLevel::Fail
        }),
        service_line(s, st).1.len() > "systemd unit '"@.len() + s.len(),
        service_line(s, st).1.subrange(
            "systemd unit '"@.len() as int,
            ("systemd unit '"@.len() + s.len()) as int,
        ) == s,
{
    let p = "systemd unit '"@;
    let t = service_line(s, st).1;
    reveal_strlit("systemd unit '");
    reveal_strlit("' is in state 'active'");
    reveal_strlit("' is in state 'inactive'\n    Please check the service for errors and start it.");
    reveal_strlit("' is in state 'failed'\n    Please check the service for errors and start it.");
    reveal_strlit("' is not in state 'active'\n    Please check the service for errors and start it.");
    assert(t.subrange(p.len() as int, (p.len() + s.len()) as int) =~= s);
}

impl UpgradeChecker {
    /// The lines of the service check, given the active state of the first `states.len()`
    /// services to check, in order: what it checks, then one line per service.
    pub fn service_report_lines(&self, states: &Vec<SystemdUnitState>) -> (v: Vec<
        (LogLevel, String),
    >)
        requires
            states.len() <= self.services_list.len(),
        ensures
            lines_view(v@).len() == states.len() + 1,
            lines_view(v@)[0] == (
                LogLevel::Info,
                "Checking "@ + self.meta_package_name@ + " daemon services.."@,
            ),
            forall|i: int|
                0 <= i < states.len() ==> lines_view(v@)[i + 1] == service_line(
                    self.services_list@[i]@,
                    #[trigger] states@[i],
                ),
            forall|i: int|
                0 <= i < states.len() ==> lines_view(v@)[i + 1].0 == (if #[trigger] states@[i]
                    == SystemdUnitState::Active {
                    LogLevel::Pass
                } else {
                    LogLevel::Fail
                }),
    {
        let mut v: Vec<(LogLevel, String)> = Vec::new();
        let info = concat3("Checking ", self.meta_package_name.as_str(), " daemon services..");
        push_report_line(&mut v, LogLevel::Info, info);
        let mut i: usize = 0;
        while i < states.len()
            invariant
                i <= states.len() <= self.services_list.len(),
                lines_view(v@).len() == i + 1,
                lines_view(v@)[0] == (
                    LogLevel::Info,
                    "Checking "@ + self.meta_package_name@ + " daemon services.."@,
                ),
                forall|j: int|
                    0 <= j < i ==> lines_view(v@)[j + 1] == service_line(
                        self.services_list@[j]@,
                        #[trigger] states@[j],
                    ),
            decreases states.len() - i,
        {
            let s = self.services_list[i].as_str();
            let (level, text) = match states[i] {
                SystemdUnitState::Active => (
                    LogLevel::Pass,
                    concat3("systemd unit '", s, "' is in state 'active'"),
                ),
                SystemdUnitState::Inactive => (
                    LogLevel::Fail,
                    concat3(
                        "systemd unit '",
                        s,
                        "' is in state 'inactive'\n    Please check the service for errors and start it.",
                    ),
                ),
                SystemdUnitState::Failed => (
                    LogLevel::Fail,
                    concat3(
                        "systemd unit '",
                        s,
                        "' is in state 'failed'\n    Please check the service for errors and start it.",
                    ),
                ),
                _ => (
                    LogLevel::Fail,
                    concat3(
                        "systemd unit '",
                        s,
                        "' is not in state 'active'\n    Please check the service for errors and start it.",
                    ),
                ),
            };
            assert((level, text@) == service_line(self.services_list@[i as int]@, states@[i as int]));
            push_report_line(&mut v, level, text);
            i += 1;
        }
        proof {
            assert forall|i: int| 0 <= i < states.len() implies lines_view(v@)[i + 1].0 == (
            if #[trigger] states@[i] == SystemdUnitState::Active {
                LogLevel::Pass
            } else {
                LogLevel::Fail
            }) by {
                lemma_service_line_level(self.services_list@[i]@, states@[i]);
            }
        }
        v
    }
}

// ---------------------------------------------------------------------------------------------
// Time synchronisation and DKMS modules
// ---------------------------------------------------------------------------------------------
/// The line that reports the time-synchronisation verdict.
pub open spec fn time_sync_line(v: TimeSyncVerdict) -> (LogLevel, Seq<char>) {
    match v {
        TimeSyncVerdict::Timesyncd => (
            LogLevel::Warn,
            "systemd-timesyncd is not the best choice for time-keeping on servers, due to only applying updates on boot.\n       While not necessary for the upgrade it's recommended to use one of:\n        * chrony (Default in new Proxmox product installations)\n        * ntpsec\n        * openntpd"@,
        ),
        TimeSyncVerdict::Ntp => (
            LogLevel::Info,
            "Debian deprecated and removed the ntp package for Bookworm, but the system will automatically migrate to the 'ntpsec' replacement package on upgrade."@,
        ),
        TimeSyncVerdict::Synchronized => (
            LogLevel::Pass,
            "Detected active time synchronisation unit"@,
        ),
        TimeSyncVerdict::Unsynchronized => (
            LogLevel::Warn,
            "No (active) time synchronisation daemon (NTP) detected, but synchronized systems are important!"@,
        ),
    }
}

/// The lines of the time-synchronisation check: what it checks, then its verdict, or nothing more
/// when asking for a unit's state failed.
pub fn time_sync_report_lines(verdict: Option<TimeSyncVerdict>) -> (v: Vec<(LogLevel, String)>)
    ensures
        lines_view(v@) == seq![(LogLevel::Info, "Checking for supported & active NTP service.."@)]
            + match verdict {
            Some(x) => seq![time_sync_line(x)],
            None => seq![],
        },
{
    let mut v: Vec<(LogLevel, String)> = Vec::new();
    push_report_line(
        &mut v,
        LogLevel::Info,
        crate::text::string_of("Checking for supported & active NTP service.."),
    );
    if let Some(x) = verdict {
        let (level, text): (LogLevel, &str) = match x {
            TimeSyncVerdict::Timesyncd => (
                LogLevel::Warn,
                "systemd-timesyncd is not the best choice for time-keeping on servers, due to only applying updates on boot.\n       While not necessary for the upgrade it's recommended to use one of:\n        * chrony (Default in new Proxmox product installations)\n        * ntpsec\n        * openntpd",
            ),
            TimeSyncVerdict::Ntp => (
                LogLevel::Info,
                "Debian deprecated and removed the ntp package for Bookworm, but the system will automatically migrate to the 'ntpsec' replacement package on upgrade.",
            ),
            TimeSyncVerdict::Synchronized => (
                LogLevel::Pass,
                "Detected active time synchronisation unit",
            ),
            TimeSyncVerdict::Unsynchronized => (
                LogLevel::Warn,
                "No (active) time synchronisation daemon (NTP) detected, but synchronized systems are important!",
            ),
        };
        push_report_line(&mut v, level, crate::text::string_of(text));
    }
    let ghost tail = match verdict {
        Some(x) => seq![time_sync_line(x)],
        None => Seq::<(LogLevel, Seq<char>)>::empty(),
    };
    assert(lines_view(v@) =~= seq![(LogLevel::Info, "Checking for supported & active NTP service.."@)] + tail);
    v
}

/// The line of the DKMS check, given the output of `dkms status` or `None` when it could not
/// run: skipped without an output, a warning when it lists modules, else a pass.
pub open spec fn dkms_line(status: Option<Seq<char>>) -> (LogLevel, Seq<char>) {
    match status {
        None => (LogLevel::Skip, "could not get dkms status"@),
        Some(s) => if s.len() > 0 {
            (LogLevel::Warn, "dkms modules found, this might cause issues during upgrade."@)
        } else {
            (LogLevel::Pass, "no dkms modules found"@)
        },
    }
}

/// The line of the DKMS check.
pub fn dkms_report_line(status: Option<&str>) -> (l: (LogLevel, String))
    ensures
        (l.0, l.1@) == dkms_line(
            match status {
                Some(s) => Some(s@),
                None => None,
            },
        ),
{
    match status {
        None => (LogLevel::Skip, crate::text::string_of("could not get dkms status")),
        Some(s) => if dkms_modules_found(s) {
            (
                LogLevel::Warn,
                crate::text::string_of(
                    "dkms modules found, this might cause issues during upgrade.",
                ),
            )
        } else {
            (LogLevel::Pass, crate::text::string_of("no dkms modules found"))
        },
    }
}

// ---------------------------------------------------------------------------------------------
// Package repositories
// ---------------------------------------------------------------------------------------------
/// The scan before any repository file.
pub open spec fn empty_scan() -> ScanView {
    ScanView { found: None, mismatches: seq![], strange: false }
}

/// The state of the suite check after the first `k` repository files.
pub open spec fn scan_files(
    old_suite: Seq<char>,
    new_suite: Seq<char>,
    files: Seq<AptRepositoryFile>,
    k: int,
) -> ScanView
    decreases k,
{
    if k <= 0 {
        empty_scan()
    } else {
        scan_state(
            old_suite,
            new_suite,
            scan_files(old_suite, new_suite, files, k - 1),
            file_entries(files[k - 1]),
        )
    }
}

/// The unusual suites of the first `k` repository files, in order, with where they were found.
pub open spec fn unusual_in_files(
    old_suite: Seq<char>,
    new_suite: Seq<char>,
    files: Seq<AptRepositoryFile>,
    k: int,
) -> Seq<Located>
    decreases k,
{
    if k <= 0 {
        seq![]
    } else {
        unusual_in_files(old_suite, new_suite, files, k - 1) + unusual_suites(
            old_suite,
            new_suite,
            file_entries(files[k - 1]),
        )
    }
}

/// The notice about an unusual suite.
pub open spec fn unusual_suite_line(old_suite: Seq<char>, new_suite: Seq<char>, n: Located) -> (
    LogLevel,
    Seq<char>,
) {
    (
        LogLevel::Notice,
        "found unusual suite '"@ + n.0 + "', neither old '"@ + old_suite + "' nor new '"@
            + new_suite + "'..\n        Affected file "@ + n.1
            + "\n        Please assure this is shipping compatible packages for the upgrade!"@,
    )
}

/// The line that reports the suites seen over all repository files: a failure listing the
/// mismatches, else a notice when a suite was strange, else a pass.
pub open spec fn suite_verdict_line(st: ScanView) -> (LogLevel, Seq<char>) {
    if st.mismatches.len() > 0 {
        (LogLevel::Fail, mismatch_message(st.mismatches))
    } else if st.strange {
        (
            LogLevel::Notice,
            "found no suite mismatches, but found at least one strange suite"@,
        )
    } else {
        (LogLevel::Pass, "found no suite mismatch"@)
    }
}

/// The lines of the repository check, given the repository files or `None` when reading them
/// failed: what it checks, then a notice per unusual suite and the line of the verdict.
pub open spec fn repo_lines(
    old_suite: Seq<char>,
    new_suite: Seq<char>,
    files: Option<Seq<AptRepositoryFile>>,
) -> Seq<(LogLevel, Seq<char>)> {
    seq![(LogLevel::Info, "Checking for package repository suite mismatches.."@)] + match files {
        None => seq![],
        Some(fs) => unusual_in_files(old_suite, new_suite, fs, fs.len() as int).map_values(
            |n: Located| unusual_suite_line(old_suite, new_suite, n),
        ) + seq![suite_verdict_line(scan_files(old_suite, new_suite, fs, fs.len() as int))],
    }
}

impl UpgradeChecker {
    fn unusual_suite_report_line(&self, n: &(String, String)) -> (l: (LogLevel, String))
        ensures
            (l.0, l.1@) == unusual_suite_line(self.old_suite@, self.new_suite@, located_view(*n)),
    {
        let mut t = concat5(
            "found unusual suite '",
            n.0.as_str(),
            "', neither old '",
            self.old_suite.as_str(),
            "' nor new '",
        );
        t.append(self.new_suite.as_str());
        t.append("'..\n        Affected file ");
        t.append(n.1.as_str());
        t.append("\n        Please assure this is shipping compatible packages for the upgrade!");
        (LogLevel::Notice, t)
    }

    /// Runs the suite check over all repository files, or over none when reading them failed,
    /// and gives the final scan and the lines it reports.
    pub fn repo_report(&self, files: Option<&Vec<AptRepositoryFile>>) -> (r: (
        SuiteScan,
        Vec<(LogLevel, String)>,
    ))
        ensures
            lines_view(r.1@) == repo_lines(
                self.old_suite@,
                self.new_suite@,
                match files {
                    Some(f) => Some(f@),
                    None => None,
                },
            ),
            files matches Some(f) ==> r.0.view_scan() == scan_files(
                self.old_suite@,
                self.new_suite@,
                f@,
                f@.len() as int,
            ),
    {
        let ghost old_suite = self.old_suite@;
        let ghost new_suite = self.new_suite@;
        let mut v: Vec<(LogLevel, String)> = Vec::new();
        push_report_line(
            &mut v,
            LogLevel::Info,
            crate::text::string_of("Checking for package repository suite mismatches.."),
        );
        let mut scan = SuiteScan::new();
        let files = match files {
            None => {
                assert(lines_view(v@) =~= repo_lines(old_suite, new_suite, None));
                return (scan, v);
            },
            Some(f) => f,
        };
        let ghost info = lines_view(v@);
        let mut k: usize = 0;
        while k < files.len()
            invariant
                k <= files.len(),
                old_suite == self.old_suite@,
                new_suite == self.new_suite@,
                info == seq![(LogLevel::Info, "Checking for package repository suite mismatches.."@)],
                scan.view_scan() == scan_files(old_suite, new_suite, files@, k as int),
                lines_view(v@) == info + unusual_in_files(old_suite, new_suite, files@, k as int).map_values(
                    |n: Located| unusual_suite_line(old_suite, new_suite, n),
                ),
            decreases files.len() - k,
        {
            let notices = self.check_repo_file(&mut scan, &files[k]);
            let ghost before = lines_view(v@);
            let mut j: usize = 0;
            while j < notices.len()
                invariant
                    j <= notices.len(),
                    old_suite == self.old_suite@,
                    new_suite == self.new_suite@,
                    lines_view(v@) == before + located_seq(notices@).take(j as int).map_values(
                        |n: Located| unusual_suite_line(old_suite, new_suite, n),
                    ),
                decreases notices.len() - j,
            {
                let (level, text) = self.unusual_suite_report_line(&notices[j]);
                push_report_line(&mut v, level, text);
                assert(located_seq(notices@).take(j + 1).map_values(
                    |n: Located| unusual_suite_line(old_suite, new_suite, n),
                ) =~= located_seq(notices@).take(j as int).map_values(
                    |n: Located| unusual_suite_line(old_suite, new_suite, n),
                ).push(unusual_suite_line(old_suite, new_suite, located_view(notices@[j as int]))));
                j += 1;
            }
            proof {
                assert(located_seq(notices@).take(notices.len() as int) =~= located_seq(notices@));
                let a = unusual_in_files(old_suite, new_suite, files@, k as int);
                let b = unusual_suites(old_suite, new_suite, file_entries(files@[k as int]));
                assert(unusual_in_files(old_suite, new_suite, files@, k + 1) == a + b);
                assert((a + b).map_values(|n: Located| unusual_suite_line(old_suite, new_suite, n))
                    =~= a.map_values(|n: Located| unusual_suite_line(old_suite, new_suite, n))
                    + b.map_values(|n: Located| unusual_suite_line(old_suite, new_suite, n)));
            }
            k += 1;
        }
        let text = mismatch_text(&scan.mismatches);
        let verdict = suite_verdict(&scan);
        let (level, text) = match verdict {
            SuiteVerdict::Mismatch => (LogLevel::Fail, text),
            SuiteVerdict::StrangeSuite => (
                LogLevel::Notice,
                crate::text::string_of(
                    "found no suite mismatches, but found at least one strange suite",
                ),
            ),
            SuiteVerdict::NoMismatch => (
                LogLevel::Pass,
                crate::text::string_of("found no suite mismatch"),
            ),
        };
        push_report_line(&mut v, level, text);
        let ghost st = scan_files(old_suite, new_suite, files@, files@.len() as int);
        assert((level, text@) == suite_verdict_line(st));
        assert(lines_view(v@) =~= repo_lines(old_suite, new_suite, Some(files@)));
        (scan, v)
    }
}

} // verus!
