use proxmox_misc::checks::{
    active_state, dkms_modules_found, enabled_state, mismatch_text, service_verdict,
    suite_verdict, AptRepository, AptRepositoryFile, BootCommand, BootFacts, BootFinding,
    ServiceVerdict, SuiteScan, SuiteVerdict, SystemdUnitState, TimeSyncStep, TimeSyncUnit,
    TimeSyncVerdict,
};
use proxmox_misc::upgrade::{
    DebianRelease, KernelCompat, MetaPackageVerdict, PackageInfo, UpgradeChecker, UpgradeCheckerBuilder,
};

fn checker(upgraded: bool) -> UpgradeChecker {
    let mut c = UpgradeCheckerBuilder::new("bookworm", "trixie", "proxmox-backup", 3, 4, 0, "3.4.1")
        .build(Some(DebianRelease::Trixie));
    c.upgraded = upgraded;
    c
}

fn repo(enabled: bool, source_only: bool, suites: &[&str]) -> AptRepository {
    AptRepository {
        enabled,
        source_only,
        suites: suites.iter().map(|s| s.to_string()).collect(),
    }
}

#[test]
fn repo_suites_without_mismatch() {
    let c = checker(false);
    let mut scan = SuiteScan::new();
    let file = AptRepositoryFile {
        path: Some("/etc/apt/sources.list".to_string()),
        repositories: vec![
            repo(true, false, &["bookworm", "bookworm-updates"]),
            repo(true, false, &["bookworm-security"]),
        ],
    };
    let notices = c.check_repo_file(&mut scan, &file);
    assert!(notices.is_empty());
    assert_eq!(
        scan.found,
        Some(("bookworm".to_string(), "/etc/apt/sources.list".to_string()))
    );
    assert!(scan.mismatches.is_empty());
    assert_eq!(suite_verdict(&scan), SuiteVerdict::NoMismatch);
}

#[test]
fn repo_suites_mixed_old_and_new() {
    let c = checker(false);
    let mut scan = SuiteScan::new();
    let first = AptRepositoryFile {
        path: Some("/etc/apt/sources.list".to_string()),
        repositories: vec![repo(true, false, &["bookworm"])],
    };
    let second = AptRepositoryFile {
        path: Some("/etc/apt/sources.list.d/pve.list".to_string()),
        repositories: vec![
            repo(true, false, &["trixie/updates"]),
            // disabled and source-only repositories are not looked at
            repo(false, false, &["trixie"]),
            repo(true, true, &["trixie"]),
            repo(true, false, &["trixie"]),
        ],
    };
    c.check_repo_file(&mut scan, &first);
    c.check_repo_file(&mut scan, &second);
    assert_eq!(
        scan.mismatches,
        vec![
            ("bookworm".to_string(), "/etc/apt/sources.list".to_string()),
            ("trixie".to_string(), "/etc/apt/sources.list.d/pve.list".to_string()),
            ("trixie".to_string(), "/etc/apt/sources.list.d/pve.list".to_string()),
        ]
    );
    assert_eq!(suite_verdict(&scan), SuiteVerdict::Mismatch);
    assert_eq!(
        mismatch_text(&scan.mismatches),
        "Found mixed old and new packages repository suites, fix before upgrading!\n      \
         Mismatches:\n      found suite 'bookworm' at '/etc/apt/sources.list'\n      \
         found suite 'trixie' at '/etc/apt/sources.list.d/pve.list'\n      \
         found suite 'trixie' at '/etc/apt/sources.list.d/pve.list'\n"
    );
}

#[test]
fn repo_suites_strange_suite() {
    let c = checker(false);
    let mut scan = SuiteScan::new();
    let file = AptRepositoryFile {
        path: None,
        repositories: vec![repo(true, false, &["sid", "bookworm"])],
    };
    let notices = c.check_repo_file(&mut scan, &file);
    assert_eq!(notices, vec![("sid".to_string(), String::new())]);
    assert!(scan.strange);
    assert_eq!(suite_verdict(&scan), SuiteVerdict::StrangeSuite);
}

#[test]
fn systemctl_output_states() {
    assert_eq!(enabled_state(b"enabled\n"), SystemdUnitState::Enabled);
    assert_eq!(enabled_state(b"disabled\n"), SystemdUnitState::Disabled);
    assert_eq!(enabled_state(b"enabled"), SystemdUnitState::Unknown);
    assert_eq!(enabled_state(b"masked\n"), SystemdUnitState::Unknown);
    assert_eq!(active_state(b"active\n"), SystemdUnitState::Active);
    assert_eq!(active_state(b"inactive\n"), SystemdUnitState::Inactive);
    assert_eq!(active_state(b"failed\n"), SystemdUnitState::Failed);
    assert_eq!(active_state(b"activating\n"), SystemdUnitState::Unknown);
}

#[test]
fn service_verdicts() {
    assert_eq!(service_verdict(SystemdUnitState::Active), ServiceVerdict::Active);
    assert_eq!(service_verdict(SystemdUnitState::Inactive), ServiceVerdict::Inactive);
    assert_eq!(service_verdict(SystemdUnitState::Failed), ServiceVerdict::Failed);
    assert_eq!(service_verdict(SystemdUnitState::Unknown), ServiceVerdict::NotActive);
    assert_eq!(service_verdict(SystemdUnitState::Enabled), ServiceVerdict::NotActive);
}

#[test]
fn time_sync_steps() {
    let u = TimeSyncUnit::first();
    assert_eq!(u.unit(), "systemd-timesyncd.service");
    assert_eq!(u.next(true), TimeSyncStep::Report(TimeSyncVerdict::Timesyncd));
    assert_eq!(u.next(false), TimeSyncStep::Ask(TimeSyncUnit::Ntp));
    assert_eq!(TimeSyncUnit::Ntp.next(true), TimeSyncStep::Report(TimeSyncVerdict::Ntp));
    assert_eq!(TimeSyncUnit::Ntp.next(false), TimeSyncStep::Ask(TimeSyncUnit::Chrony));
    assert_eq!(
        TimeSyncUnit::Chrony.next(true),
        TimeSyncStep::Report(TimeSyncVerdict::Synchronized)
    );
    assert_eq!(TimeSyncUnit::Openntpd.next(false), TimeSyncStep::Ask(TimeSyncUnit::Ntpsec));
    assert_eq!(
        TimeSyncUnit::Ntpsec.next(false),
        TimeSyncStep::Report(TimeSyncVerdict::Unsynchronized)
    );
    assert_eq!(TimeSyncUnit::Ntpsec.unit(), "ntpsec.service");
}

#[test]
fn dkms_status_lines() {
    assert!(!dkms_modules_found(""));
    assert!(dkms_modules_found("zfs/2.2.0, 6.8.12-1-pve, x86_64: installed\n"));
    assert!(dkms_modules_found("\n"));
}

fn facts(efi: bool, sd_boot: bool, uuids: bool, grub_efi: bool, removable: bool) -> BootFacts {
    BootFacts {
        efi_booted: efi,
        systemd_boot_installed: sd_boot,
        boot_uuids_present: uuids,
        grub_efi_installed: grub_efi,
        removable_bootloader_present: removable,
    }
}

#[test]
fn bootloader_legacy_boot() {
    let c = checker(false);
    let f = facts(false, true, false, false, false);
    let (findings, command) = c.bootloader_plan(f);
    assert_eq!(findings, vec![BootFinding::SystemdBootOnLegacy]);
    assert_eq!(command, BootCommand::NoCommand);
    assert_eq!(c.bootloader_finish(f, None), Vec::<BootFinding>::new());

    let f = facts(false, false, false, false, false);
    assert_eq!(c.bootloader_plan(f).0, vec![BootFinding::LegacyBoot]);
}

#[test]
fn bootloader_proxmox_boot_tool() {
    let c = checker(false);
    let f = facts(true, false, true, false, false);
    let (findings, command) = c.bootloader_plan(f);
    assert!(findings.is_empty());
    assert_eq!(command, BootCommand::BootToolStatus);
    let status = "System currently booted with uefi\n\
                  ABCD-1234 is configured with: uefi (versions: 6.8.12-1-pve)\n";
    assert_eq!(
        c.bootloader_finish(f, Some(status)),
        vec![BootFinding::SystemdBootStillNeeded]
    );
    assert_eq!(
        c.bootloader_finish(f, Some("ABCD-1234 is configured with: grub (versions: 6.8)\n")),
        vec![BootFinding::BootloaderOk]
    );
    // after the upgrade the status is not asked for
    assert_eq!(checker(true).bootloader_plan(f).1, BootCommand::NoCommand);
}

#[test]
fn bootloader_grub_and_removable() {
    let c = checker(false);
    let f = facts(true, true, false, false, true);
    let (findings, command) = c.bootloader_plan(f);
    assert_eq!(findings, vec![BootFinding::GrubEfiMissing]);
    assert_eq!(command, BootCommand::DebconfGrub);
    assert_eq!(
        c.bootloader_finish(f, Some("* grub2/force_efi_extra_removable: false\n")),
        vec![BootFinding::RemovableNotUpdated, BootFinding::SystemdBootInstalled]
    );
    let f = facts(true, false, false, true, true);
    assert_eq!(
        c.bootloader_finish(f, Some("* grub2/force_efi_extra_removable: true\n")),
        vec![BootFinding::BootloaderOk]
    );
    assert_eq!(
        c.bootloader_findings(f, false),
        vec![BootFinding::RemovableNotUpdated]
    );
}

fn pkg(name: &str, version: Option<&str>) -> PackageInfo {
    PackageInfo {
        package: name.to_string(),
        old_version: version.map(|v| v.to_string()),
    }
}

#[test]
fn meta_package_verdicts() {
    let mut c = checker(false);
    assert_eq!(
        c.check_meta_package_version(&vec![pkg("proxmox-backup", Some("3.4.1"))]),
        Ok(MetaPackageVerdict::RecentEnough)
    );
    assert!(!c.upgraded);
    assert_eq!(
        c.check_meta_package_version(&vec![pkg("proxmox-backup", Some("3.3-2"))]),
        Ok(MetaPackageVerdict::TooOld)
    );
    assert_eq!(
        c.check_meta_package_version(&vec![pkg("proxmox-backup", Some("unknown"))]),
        Ok(MetaPackageVerdict::VersionUnmatched)
    );
    assert_eq!(
        c.check_meta_package_version(&vec![pkg("proxmox-backup", None)]),
        Ok(MetaPackageVerdict::NotFound)
    );
    assert_eq!(
        c.check_meta_package_version(&vec![pkg("other", Some("4.0.1"))]),
        Ok(MetaPackageVerdict::NotFound)
    );
    assert_eq!(
        c.check_meta_package_version(&vec![pkg("proxmox-backup", Some("300.1.1"))]),
        Err(proxmox_misc::upgrade::MetaCheckError::VersionNumber)
    );
    assert!(!c.upgraded);
    assert_eq!(
        c.check_meta_package_version(&vec![pkg("proxmox-backup", Some("4.0.1"))]),
        Ok(MetaPackageVerdict::AlreadyUpgraded { major: 4, minor: 0 })
    );
    assert!(c.upgraded);
}

#[test]
fn meta_version_captures_are_judged() {
    let mut c = checker(false);
    assert_eq!(c.judge_meta_version(None), Ok(MetaPackageVerdict::VersionUnmatched));
    assert_eq!(
        c.judge_meta_version(Some((Some("3".into()), Some("4".into()), Some("0".into())))),
        Ok(MetaPackageVerdict::RecentEnough)
    );
    assert_eq!(
        c.judge_meta_version(Some((Some("3".into()), None, Some("0".into())))),
        Ok(MetaPackageVerdict::TooOld)
    );
    assert!(!c.upgraded);
}

#[test]
fn kernel_compat_verdicts() {
    let c = checker(false);
    let pkgs = vec![pkg("proxmox-kernel-6.8", Some("6.8.12-16"))];
    assert_eq!(c.check_kernel_compat("6.8.12-16-pve", &pkgs), KernelCompat::RunningSuitable);
    assert_eq!(
        c.check_kernel_compat("6.1.10-1-pve", &pkgs),
        KernelCompat::SuitableInstalled("proxmox-kernel-6.8".to_string())
    );
    assert_eq!(c.check_kernel_compat("6.1.10-1-pve", &vec![]), KernelCompat::Unexpected);
}
