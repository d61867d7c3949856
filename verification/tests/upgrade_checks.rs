use proxmox_misc::kernel::{backport_marker, KernelParseError, KernelRelease, KernelSeries, KernelVersion};
use proxmox_misc::upgrade::{
    debian_release_major, default_min_post_upgrade_kernel, default_pre_upgrade_kernels,
    kernel_meta_package_release, pending_updates, DebianRelease, PackageInfo, UpgradeChecker,
    UpgradeCheckerBuilder,
};

fn make_checker(upgraded: bool) -> UpgradeChecker {
    let mut checker = UpgradeCheckerBuilder::new(
        "bookworm",
        "trixie",
        "proxmox-backup",
        3,
        4,
        0,
        "running version: 3.4",
    )
    .build(Some(DebianRelease::Trixie));

    checker.upgraded = upgraded;
    checker
}

fn installed_kernel_package(package: &str, version: &str) -> PackageInfo {
    PackageInfo {
        package: package.to_string(),
        old_version: Some(version.to_string()),
    }
}

fn test_is_kernel_version_compatible(
    expected_versions: &[&str],
    unexpected_versions: &[&str],
    upgraded: bool,
) {
    let checker = make_checker(upgraded);

    for version in expected_versions {
        let kernel = version
            .parse()
            .unwrap_or_else(|err| panic!("failed to parse kernel version '{version}' - {err:?}"));
        assert!(
            checker.is_kernel_suitable(kernel),
            "compatible kernel version '{version}' did not pass as expected!"
        );
    }
    for version in unexpected_versions {
        let suitable = version
            .parse()
            .is_ok_and(|kernel| checker.is_kernel_suitable(kernel));
        assert!(
            !suitable,
            "incompatible kernel version '{version}' passed as expected!"
        );
    }
}

#[test]
fn test_before_upgrade_kernel_version_compatibility() {
    let expected_versions = &[
        "6.2.16-20-pve",
        "6.5.13-6-pve",
        "6.8.12-13-pve",
        "6.11.11-2-pve",
        // the opt-in 6.14 kernel for bookworm, before and after it got the backport marker
        "6.14.4-1-pve",
        "6.14.11-9-bpo12-pve",
    ];
    let unexpected_versions = &[
        "6.1.10-1-pve",
        "5.19.17-2-pve",
        "6.1.0-18-amd64",
        "6.17.2-1-pve",
        "not-a-kernel-version",
    ];

    test_is_kernel_version_compatible(expected_versions, unexpected_versions, false);
}

#[test]
fn test_after_upgrade_kernel_version_compatibility() {
    let expected_versions = &[
        "6.14.5-1-pve",
        "6.14.11-9-pve",
        "6.17.2-1-pve",
        "6.20.1-1-pve",
        "7.0.14-6-pve",
        // Debian's own backports carry no release in the marker, so they are not from bookworm
        "6.16.12+bpo-amd64",
    ];
    let unexpected_versions = &[
        // Debian's own kernel is older than what the products ship, as it was before too
        "6.12.43+deb13-amd64",
        "6.8.12-13-pve",
        // the bookworm builds of 6.14 predating the backport marker
        "6.14.0-2-pve",
        "6.14.4-1-pve",
        // and those carrying it, which can be newer than the trixie kernel one rebooted into
        "6.14.11-9-bpo12-pve",
        "6.20.1-1-bpo12-pve",
        "not-a-kernel-version",
    ];

    test_is_kernel_version_compatible(expected_versions, unexpected_versions, true);
}

#[test]
fn test_kernel_backported_to_the_new_suite_is_suitable() {
    // a kernel backported to the release upgraded *to* is a newer one, not a leftover
    let checker = make_checker(true);
    let kernel: KernelRelease = "6.20.1-1-bpo13-pve"
        .parse()
        .expect("failed to parse kernel");
    assert!(checker.is_kernel_suitable(kernel));

    // while for an upgrade to a later release the very same kernel is a leftover
    let mut checker = make_checker(true);
    checker.new_suite = "duke".to_string();
    checker.new_suite_codename = Some(DebianRelease::Duke);
    assert!(!checker.is_kernel_suitable(kernel));

    // sid is no release, so without a Debian version to compare to any backport counts as one
    checker.new_suite = "sid".to_string();
    checker.new_suite_codename = Some(DebianRelease::Other);
    assert!(!checker.is_kernel_suitable(kernel));
}

fn parse_kernel(release: &str) -> KernelRelease {
    release
        .parse()
        .unwrap_or_else(|err| panic!("failed to parse kernel release '{release}' - {err:?}"))
}

#[test]
fn test_parse_kernel_release() {
    let kernel = parse_kernel("6.14.11-9-pve");
    assert_eq!(kernel.version, KernelVersion::new(6, 14, 11));
    assert_eq!(kernel.backport, None);

    assert_eq!(parse_kernel("6.14.11-9-bpo12-pve").backport, Some(12));

    // package versions use different separators around the backport marker and have an epoch
    let kernel = parse_kernel("1:6.14.11-9~bpo12+1");
    assert_eq!(kernel.version, KernelVersion::new(6, 14, 11));
    assert_eq!(kernel.backport, Some(12));

    // Debian appends the release to the upstream version, and its backports have no release
    let kernel = parse_kernel("6.12.43+deb13-amd64");
    assert_eq!(kernel.version, KernelVersion::new(6, 12, 43));
    assert_eq!(kernel.backport, None);
    let kernel = parse_kernel("6.16.12+bpo-amd64");
    assert_eq!(kernel.version, KernelVersion::new(6, 16, 12));
    assert_eq!(kernel.backport, None);

    // a missing patch level is common for mainline and vendor kernels
    assert_eq!(parse_kernel("7.0-rc1").version, KernelVersion::new(7, 0, 0));

    for release in ["", "6", "6.x.1-1-pve", "+6.14.1-1-pve", "linux"] {
        assert!(
            release.parse::<KernelRelease>().is_err(),
            "bogus kernel release '{release}' parsed as expected!"
        );
    }
}

#[test]
fn test_kernel_versions_order_by_age() {
    let mut versions = [
        KernelVersion::new(6, 14, 11),
        KernelVersion::new(7, 0, 14),
        KernelVersion::new(6, 2, 16),
        KernelVersion::new(6, 14, 5),
    ];
    versions.sort();

    assert_eq!(
        versions,
        [
            KernelVersion::new(6, 2, 16),
            KernelVersion::new(6, 14, 5),
            KernelVersion::new(6, 14, 11),
            KernelVersion::new(7, 0, 14),
        ]
    );
    assert_eq!(
        KernelVersion::from(KernelSeries::new(6, 14)),
        KernelVersion::new(6, 14, 0)
    );
}

#[test]
fn test_find_suitable_installed_kernel() {
    let packages = &vec![
        installed_kernel_package("proxmox-kernel-helper", "9.2.0"),
        installed_kernel_package("proxmox-kernel-libc-dev", "7.0.14-2"),
        installed_kernel_package("proxmox-kernel-7.0-build-deps", "7.0.6-1"),
        installed_kernel_package("proxmox-kernel-6.8", "6.8.12-16"),
        installed_kernel_package("proxmox-kernel-6.14", "6.14.11-9"),
        installed_kernel_package("proxmox-kernel-6.14.11-9-pve-signed", "6.14.11-9"),
        installed_kernel_package("proxmox-kernel-6.17", "6.17.2-1"),
    ];

    let checker = make_checker(true);
    assert_eq!(
        checker.find_suitable_installed_kernel(packages),
        Some("proxmox-kernel-6.17")
    );

    let checker = make_checker(false);
    assert_eq!(
        checker.find_suitable_installed_kernel(packages),
        Some("proxmox-kernel-6.14")
    );

    // a backported meta-package is not suitable after the upgrade, but before it is
    let backport = &vec![installed_kernel_package(
        "proxmox-kernel-6.14",
        "6.14.11-9~bpo12+1",
    )];
    assert_eq!(
        make_checker(true).find_suitable_installed_kernel(backport),
        None
    );
    assert_eq!(
        make_checker(false).find_suitable_installed_kernel(backport),
        Some("proxmox-kernel-6.14")
    );

    // as is one that is too old, here the bookworm 6.14 from before the backport marker
    let old = &vec![installed_kernel_package("proxmox-kernel-6.14", "6.14.4-1")];
    assert_eq!(make_checker(true).find_suitable_installed_kernel(old), None);
    assert_eq!(
        make_checker(false).find_suitable_installed_kernel(old),
        Some("proxmox-kernel-6.14")
    );
}

// ---------------------------------------------------------------------------------------------
// Further cases
// ---------------------------------------------------------------------------------------------

#[test]
fn kernel_series_and_version_round_trip_through_text() {
    let series = KernelSeries::new(6, 14);
    assert_eq!(series.to_string(), "6.14");
    assert_eq!("6.14".parse::<KernelSeries>(), Ok(series));
    let version = KernelVersion::new(6, 14, 11);
    assert_eq!(version.to_string(), "6.14.11");
    assert_eq!(version.to_string().parse::<KernelVersion>(), Ok(version));
    assert_eq!(KernelSeries::from((7, 0)), KernelSeries::new(7, 0));
}

#[test]
fn kernel_text_errors() {
    assert_eq!("6".parse::<KernelSeries>(), Err(KernelParseError::MissingMinor));
    assert_eq!("x.1".parse::<KernelSeries>(), Err(KernelParseError::BadMajor));
    assert_eq!("6.y".parse::<KernelSeries>(), Err(KernelParseError::BadMinor));
    assert_eq!("6.14.z".parse::<KernelVersion>(), Err(KernelParseError::BadPatch));
}

#[test]
fn kernel_version_ordering_by_fields() {
    let a = KernelVersion::new(6, 14, 5);
    let b = KernelVersion::new(6, 14, 11);
    assert!(b.is_at_least(&a));
    assert!(!a.is_at_least(&b));
    assert!(a.is_at_least(&a));
    assert!(KernelVersion::new(7, 0, 0).is_at_least(&b));
}

#[test]
fn backport_markers() {
    assert_eq!(backport_marker("6.14.11-9-bpo12-pve"), Some(12));
    assert_eq!(backport_marker("1:6.14.11-9~bpo12+1"), Some(12));
    assert_eq!(backport_marker("6.16.12+bpo-amd64"), None);
    assert_eq!(backport_marker("6.14.11-9-pve"), None);
}

#[test]
fn debian_release_majors() {
    assert_eq!(debian_release_major(Some(DebianRelease::Bookworm)), Some(12));
    assert_eq!(debian_release_major(Some(DebianRelease::Trixie)), Some(13));
    assert_eq!(debian_release_major(Some(DebianRelease::Duke)), Some(15));
    assert_eq!(debian_release_major(Some(DebianRelease::Other)), None);
    assert_eq!(debian_release_major(None), None);
}

#[test]
fn kernel_meta_packages() {
    let k = kernel_meta_package_release(&installed_kernel_package("proxmox-kernel-6.14", "6.14.11-9"))
        .unwrap();
    assert_eq!(k.version, KernelVersion::new(6, 14, 11));
    // a transitional package versioned apart from its series gives the series only
    let k = kernel_meta_package_release(&installed_kernel_package("pve-kernel-6.2", "8.0.2"))
        .unwrap();
    assert_eq!(k.version, KernelVersion::new(6, 2, 0));
    assert!(kernel_meta_package_release(&installed_kernel_package(
        "proxmox-kernel-6.14.11-9-pve-signed",
        "6.14.11-9"
    ))
    .is_none());
    let not_installed = PackageInfo { package: "proxmox-kernel-6.14".to_string(), old_version: None };
    assert!(kernel_meta_package_release(&not_installed).is_none());
}

#[test]
fn builder_defaults_and_settings() {
    let checker = UpgradeCheckerBuilder::new("bookworm", "trixie", "pve-manager", 8, 4, 1, "8.4.1")
        .build(Some(DebianRelease::Trixie));
    assert_eq!(checker.apt_state_file, "/var/lib/pve-manager/pkg-state.json");
    assert_eq!(checker.api_server_package, "pve-manager");
    assert_eq!(checker.pre_upgrade_kernels, default_pre_upgrade_kernels());
    assert_eq!(checker.min_post_upgrade_kernel, default_min_post_upgrade_kernel());
    assert!(!checker.upgraded);

    let checker = UpgradeCheckerBuilder::new("bookworm", "trixie", "pve-manager", 8, 4, 1, "8.4.1")
        .apt_state_file_location("/tmp/state.json")
        .api_server_package("pve-api")
        .add_service_to_checks("pveproxy.service")
        .add_service_to_checks("pvedaemon.service")
        .pre_upgrade_kernels(vec![KernelSeries::new(6, 8)])
        .min_post_upgrade_kernel(KernelVersion::new(6, 17, 0))
        .build(None);
    assert_eq!(checker.apt_state_file, "/tmp/state.json");
    assert_eq!(checker.api_server_package, "pve-api");
    assert_eq!(checker.services_list, vec!["pveproxy.service", "pvedaemon.service"]);
    assert_eq!(checker.pre_upgrade_kernels, vec![KernelSeries::new(6, 8)]);
    assert_eq!(checker.min_post_upgrade_kernel, KernelVersion::new(6, 17, 0));
}

#[test]
fn pending_update_names() {
    assert_eq!(pending_updates(&vec![]), None);
    let pkgs = vec![
        installed_kernel_package("a", "1"),
        installed_kernel_package("b", "2"),
        installed_kernel_package("c", "3"),
    ];
    assert_eq!(pending_updates(&pkgs), Some("a, b, c".to_string()));
}

#[test]
fn package_version_with_epoch_and_revision_reads_as_its_version() {
    let version = KernelVersion::new(6, 14, 11);
    let text = format!("1:{}-9~bpo12+1", version.to_string());
    assert_eq!(text.parse::<KernelVersion>(), Ok(version));
    assert_eq!("epoch:7.0.14-2".parse::<KernelVersion>(), Ok(KernelVersion::new(7, 0, 14)));
}
