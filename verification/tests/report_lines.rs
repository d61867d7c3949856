use proxmox_misc::checks::{
    AptRepository, AptRepositoryFile, BootCommand, BootFacts, SystemdUnitState, TimeSyncVerdict,
};
use proxmox_misc::report::{Counters, LogLevel, Style};
use proxmox_misc::report_lines::{
    dkms_report_line, time_sync_report_lines, update_report_lines,
};
use proxmox_misc::upgrade::{
    DebianRelease, MetaCheckError, PackageInfo, UpgradeChecker, UpgradeCheckerBuilder,
};

fn checker(upgraded: bool) -> UpgradeChecker {
    let mut c = UpgradeCheckerBuilder::new(
        "bookworm",
        "trixie",
        "proxmox-backup",
        3,
        4,
        0,
        "running version: 3.4",
    )
    .add_service_to_checks("proxmox-backup-proxy.service")
    .add_service_to_checks("proxmox-backup.service")
    .build(Some(DebianRelease::Trixie));
    c.upgraded = upgraded;
    c
}

fn pkg(name: &str, version: Option<&str>) -> PackageInfo {
    PackageInfo {
        package: name.to_string(),
        old_version: version.map(|v| v.to_string()),
    }
}

fn line(level: LogLevel, text: &str) -> (LogLevel, String) {
    (level, text.to_string())
}

#[test]
fn meta_package_recent_enough_reports_a_pass() {
    let mut c = checker(false);
    let (lines, outcome) = c.meta_package_report(&vec![pkg("proxmox-backup", Some("3.4.1"))]);
    assert_eq!(outcome, Ok(()));
    assert!(!c.upgraded);
    assert_eq!(
        lines,
        vec![
            line(LogLevel::Info, "Checking proxmox-backup package version.."),
            line(LogLevel::Pass, "'proxmox-backup' has version >= 3.4.0"),
        ]
    );
    let pieces = c.output.log_lines(&lines);
    assert_eq!(pieces[1], (Style::Green, "PASS: 'proxmox-backup' has version >= 3.4.0\n".to_string()));
    assert_eq!(c.output.counters, Counters { pass: 1, skip: 0, notice: 0, warn: 0, fail: 0 });
}

#[test]
fn meta_package_other_verdict_lines() {
    let mut c = checker(false);
    let (lines, _) = c.meta_package_report(&vec![pkg("proxmox-backup", Some("3.3-2"))]);
    assert_eq!(
        lines[1],
        line(LogLevel::Fail, "'proxmox-backup' package is too old, please upgrade to >= 3.4.0")
    );
    let (lines, _) = c.meta_package_report(&vec![pkg("proxmox-backup", Some("x"))]);
    assert_eq!(
        lines[1],
        line(
            LogLevel::Fail,
            "could not match the 'proxmox-backup' package version, is it installed?"
        )
    );
    let (lines, _) = c.meta_package_report(&vec![]);
    assert_eq!(lines[1], line(LogLevel::Fail, "'proxmox-backup' package not found!"));
    let (lines, outcome) = c.meta_package_report(&vec![pkg("proxmox-backup", Some("999.0.0"))]);
    assert_eq!(lines.len(), 1);
    assert_eq!(outcome, Err(MetaCheckError::VersionNumber));
    let (lines, _) = c.meta_package_report(&vec![pkg("proxmox-backup", Some("4.0.2"))]);
    assert_eq!(lines[1], line(LogLevel::Pass, "Already upgraded to 4.0"));
    assert!(c.upgraded);
}

#[test]
fn kernel_report_lines_for_each_outcome() {
    let c = checker(false);
    let pkgs = vec![pkg("proxmox-kernel-6.8", Some("6.8.12-16"))];
    let lines = c.kernel_report_lines(&Ok("6.8.12-16-pve".to_string()), &pkgs);
    assert_eq!(
        lines,
        vec![
            line(LogLevel::Info, "Check running kernel version.."),
            line(
                LogLevel::Pass,
                "running kernel '6.8.12-16-pve' is considered suitable for upgrade."
            ),
        ]
    );
    let lines = c.kernel_report_lines(&Ok("6.1.0-1-amd64".to_string()), &pkgs);
    assert_eq!(
        lines[1],
        line(
            LogLevel::Warn,
            "a suitable kernel 'proxmox-kernel-6.8' is installed, but an unsuitable \
             '6.1.0-1-amd64' is booted, missing reboot?!"
        )
    );
    let lines = c.kernel_report_lines(&Ok("6.1.0-1-amd64".to_string()), &vec![]);
    assert_eq!(
        lines[1],
        line(LogLevel::Warn, "unexpected running and installed kernel '6.1.0-1-amd64'.")
    );
    let lines = c.kernel_report_lines(&Err("no uname".to_string()), &pkgs);
    assert_eq!(lines[1], line(LogLevel::Fail, "no uname"));
    let lines = checker(true).kernel_report_lines(&Ok("6.17.2-1-pve".to_string()), &pkgs);
    assert_eq!(
        lines[1],
        line(LogLevel::Pass, "running new kernel '6.17.2-1-pve' after upgrade.")
    );
}

#[test]
fn update_lines_for_each_outcome() {
    assert_eq!(
        update_report_lines(&Ok(vec![])),
        vec![
            line(LogLevel::Info, "Checking for package updates.."),
            line(LogLevel::Pass, "all packages up-to-date"),
        ]
    );
    assert_eq!(
        update_report_lines(&Ok(vec![pkg("a", None), pkg("b", None)]))[1],
        line(
            LogLevel::Warn,
            "updates for the following packages are available:\n      a, b"
        )
    );
    assert_eq!(
        update_report_lines(&Err("no state".to_string())),
        vec![
            line(LogLevel::Info, "Checking for package updates.."),
            line(LogLevel::Warn, "no state"),
            line(LogLevel::Fail, "unable to retrieve list of package updates!"),
        ]
    );
}

#[test]
fn bootloader_lines_on_legacy_boot() {
    let c = checker(false);
    let facts = BootFacts {
        efi_booted: false,
        systemd_boot_installed: true,
        boot_uuids_present: false,
        grub_efi_installed: false,
        removable_bootloader_present: false,
    };
    let (lines, command) = c.bootloader_report_start(facts);
    assert_eq!(command, BootCommand::NoCommand);
    assert_eq!(
        lines,
        vec![
            line(LogLevel::Info, "Checking bootloader configuration..."),
            line(
                LogLevel::Warn,
                "systemd-boot package installed on legacy-boot system is not necessary, \
                 consider removing it"
            ),
        ]
    );
    assert!(c.bootloader_report_finish(facts, None).is_empty());
}

#[test]
fn bootloader_lines_on_uefi_with_systemd_boot() {
    let c = checker(true);
    let facts = BootFacts {
        efi_booted: true,
        systemd_boot_installed: true,
        boot_uuids_present: false,
        grub_efi_installed: true,
        removable_bootloader_present: false,
    };
    let (lines, command) = c.bootloader_report_start(facts);
    assert_eq!(lines.len(), 1);
    assert_eq!(command, BootCommand::NoCommand);
    let lines = c.bootloader_report_finish(facts, None);
    assert_eq!(lines.len(), 1);
    assert_eq!(lines[0].0, LogLevel::Fail);
    assert!(lines[0].1.starts_with("systemd-boot meta-package installed."));
}

#[test]
fn service_lines_per_state() {
    let c = checker(false);
    let lines = c.service_report_lines(&vec![SystemdUnitState::Active, SystemdUnitState::Failed]);
    assert_eq!(
        lines,
        vec![
            line(LogLevel::Info, "Checking proxmox-backup daemon services.."),
            line(
                LogLevel::Pass,
                "systemd unit 'proxmox-backup-proxy.service' is in state 'active'"
            ),
            line(
                LogLevel::Fail,
                "systemd unit 'proxmox-backup.service' is in state 'failed'\n    \
                 Please check the service for errors and start it."
            ),
        ]
    );
    let lines = c.service_report_lines(&vec![SystemdUnitState::Unknown]);
    assert_eq!(
        lines[1],
        line(
            LogLevel::Fail,
            "systemd unit 'proxmox-backup-proxy.service' is not in state 'active'\n    \
             Please check the service for errors and start it."
        )
    );
}

#[test]
fn repo_report_over_all_files() {
    let c = checker(false);
    let files = vec![
        AptRepositoryFile {
            path: Some("/etc/apt/sources.list".to_string()),
            repositories: vec![AptRepository {
                enabled: true,
                source_only: false,
                suites: vec!["bookworm".to_string(), "sid".to_string()],
            }],
        },
        AptRepositoryFile {
            path: Some("/etc/apt/sources.list.d/pve.list".to_string()),
            repositories: vec![AptRepository {
                enabled: true,
                source_only: false,
                suites: vec!["trixie".to_string()],
            }],
        },
    ];
    let (scan, lines) = c.repo_report(Some(&files));
    assert_eq!(scan.mismatches.len(), 2);
    assert_eq!(
        lines,
        vec![
            line(LogLevel::Info, "Checking for package repository suite mismatches.."),
            line(
                LogLevel::Notice,
                "found unusual suite 'sid', neither old 'bookworm' nor new 'trixie'..\n        \
                 Affected file /etc/apt/sources.list\n        Please assure this is shipping \
                 compatible packages for the upgrade!"
            ),
            line(
                LogLevel::Fail,
                "Found mixed old and new packages repository suites, fix before upgrading!\n      \
                 Mismatches:\n      found suite 'bookworm' at '/etc/apt/sources.list'\n      \
                 found suite 'trixie' at '/etc/apt/sources.list.d/pve.list'\n"
            ),
        ]
    );
    let (_, lines) = c.repo_report(Some(&files[..1].to_vec()));
    assert_eq!(
        lines[2],
        line(
            LogLevel::Notice,
            "found no suite mismatches, but found at least one strange suite"
        )
    );
    let (_, lines) = c.repo_report(Some(&vec![]));
    assert_eq!(lines[1], line(LogLevel::Pass, "found no suite mismatch"));
    let (_, lines) = c.repo_report(None);
    assert_eq!(lines.len(), 1);
}

#[test]
fn time_sync_and_dkms_lines() {
    assert_eq!(
        time_sync_report_lines(Some(TimeSyncVerdict::Synchronized)),
        vec![
            line(LogLevel::Info, "Checking for supported & active NTP service.."),
            line(LogLevel::Pass, "Detected active time synchronisation unit"),
        ]
    );
    assert_eq!(time_sync_report_lines(None).len(), 1);
    assert_eq!(
        time_sync_report_lines(Some(TimeSyncVerdict::Unsynchronized))[1].0,
        LogLevel::Warn
    );
    assert_eq!(dkms_report_line(None), line(LogLevel::Skip, "could not get dkms status"));
    assert_eq!(dkms_report_line(Some("")), line(LogLevel::Pass, "no dkms modules found"));
    assert_eq!(
        dkms_report_line(Some("zfs/2.2.0: installed\n")),
        line(LogLevel::Warn, "dkms modules found, this might cause issues during upgrade.")
    );
}
