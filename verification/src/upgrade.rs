//! The decisions of the upgrade checks for Proxmox products: which kernels are suitable before and
//! after a major upgrade, whether the product's meta-package is recent enough, and what the
//! running and installed kernels tell about a pending reboot.
use vstd::prelude::*;

use crate::kernel::{
    backport_marker_of, release_of_text, series_of_text, version_le, version_of_text,
    KernelParseError, KernelRelease, KernelSeries, KernelVersion,
};
use crate::regex_calls::{captures_view, regex_captures3, regex_groups3};
use crate::text::{chars_of, parse_unsigned, push_char, string_of};
use crate::report::{pieces_view, summary_pieces, total, Counters, Report, Style};

verus! {

/// The installed and candidate state of a package, as far as the checks read it.
#[derive(Clone, Debug)]
pub struct PackageInfo {
    /// The package name.
    pub package: String,
    /// The installed version, if the package is installed.
    pub old_version: Option<String>,
}

/// The names of the packages, separated by `, `.
pub open spec fn joined_names(ps: Seq<PackageInfo>) -> Seq<char>
    decreases ps.len(),
{
    if ps.len() == 0 {
        Seq::empty()
    } else if ps.len() == 1 {
        ps[0].package@
    } else {
        joined_names(ps.drop_last()) + ", "@ + ps.last().package@
    }
}

/// The names of the packages that have updates available, separated by `, `; `None` when all
/// packages are up to date.
pub fn pending_updates(packages: &Vec<PackageInfo>) -> (r: Option<String>)
    ensures
        r is None <==> packages@.len() == 0,
        r matches Some(t) ==> t@ == joined_names(packages@),
{
    if packages.len() == 0 {
        return None;
    }
    let mut t = String::new();
    t.append(packages[0].package.as_str());
    let mut i: usize = 1;
    proof {
        assert(packages@.take(1).len() == 1);
        assert(packages@.take(1)[0] == packages@[0]);
    }
    while i < packages.len()
        invariant
            1 <= i <= packages.len(),
            t@ == joined_names(packages@.take(i as int)),
        decreases packages.len() - i,
    {
        t.append(", ");
        t.append(packages[i].package.as_str());
        proof {
            assert(packages@.take(i + 1).drop_last() =~= packages@.take(i as int));
        }
        i += 1;
    }
    assert(packages@.take(packages@.len() as int) =~= packages@);
    Some(t)
}

/// The Debian releases whose backport marker the kernel checks can judge.
#[derive(Clone, Copy, Debug, PartialEq, Eq, Structural)]
pub enum DebianRelease {
    Bullseye,
    Bookworm,
    Trixie,
    Forky,
    Duke,
    /// Any other suite: an older release, a future one or a rolling suite like sid.
    Other,
}

/// The Debian major release of a suite, as the `bpo<N>` marker of a backport refers to it.
pub open spec fn release_major(codename: Option<DebianRelease>) -> Option<u32> {
    match codename {
        Some(DebianRelease::Bullseye) => Some(11),
        Some(DebianRelease::Bookworm) => Some(12),
        Some(DebianRelease::Trixie) => Some(13),
        Some(DebianRelease::Forky) => Some(14),
        Some(DebianRelease::Duke) => Some(15),
        _ => None,
    }
}

/// The Debian major release of a suite, as the `bpo<N>` marker of a backport refers to it.
///
/// No product upgrading from an older release is still supported, and the newer ones cannot be
/// known yet, so judging a backport marker against those is left to the caller.
pub fn debian_release_major(codename: Option<DebianRelease>) -> (r: Option<u32>)
    ensures
        r == release_major(codename),
{
    match codename {
        Some(DebianRelease::Bullseye) => Some(11),
        Some(DebianRelease::Bookworm) => Some(12),
        Some(DebianRelease::Trixie) => Some(13),
        Some(DebianRelease::Forky) => Some(14),
        Some(DebianRelease::Duke) => Some(15),
        _ => None,
    }
}

/// Kernel series that the Proxmox products ship for Debian bookworm, i.e. Proxmox VE 8, Proxmox
/// Backup Server 3 and Proxmox Datacenter Manager 0.x.
pub open spec fn default_pre_upgrade_series() -> Seq<KernelSeries> {
    seq![
        KernelSeries { major: 6, minor: 2 },
        KernelSeries { major: 6, minor: 5 },
        KernelSeries { major: 6, minor: 8 },
        KernelSeries { major: 6, minor: 11 },
        KernelSeries { major: 6, minor: 14 },
    ]
}

/// Kernel series that the Proxmox products ship for Debian bookworm, i.e. Proxmox VE 8, Proxmox
/// Backup Server 3 and Proxmox Datacenter Manager 0.x.
pub fn default_pre_upgrade_kernels() -> (v: Vec<KernelSeries>)
    ensures
        v@ == default_pre_upgrade_series(),
{
    let mut v: Vec<KernelSeries> = Vec::new();
    v.push(KernelSeries::new(6, 2));
    v.push(KernelSeries::new(6, 5));
    v.push(KernelSeries::new(6, 8));
    v.push(KernelSeries::new(6, 11));
    v.push(KernelSeries::new(6, 14));
    assert(v@ =~= default_pre_upgrade_series());
    v
}

/// Oldest kernel version that the Proxmox products ship for Debian trixie, i.e. Proxmox VE 9,
/// Proxmox Backup Server 4 and Proxmox Datacenter Manager 1.x.
///
/// The patch level is part of it because the bookworm builds of the 6.14 kernel only carry the
/// `bpo12` marker since 6.14.5, the older ones are indistinguishable from a trixie build otherwise.
pub fn default_min_post_upgrade_kernel() -> (v: KernelVersion)
    ensures
        v == (KernelVersion { series: KernelSeries { major: 6, minor: 14 }, patch: 5 }),
{
    KernelVersion::new(6, 14, 5)
}

/// Easily create and configure an upgrade checker for Proxmox products.
pub struct UpgradeCheckerBuilder {
    pub old_suite: String,
    pub new_suite: String,
    pub meta_package_name: String,
    pub minimum_major_version: u8,
    pub minimum_minor_version: u8,
    pub minimum_pkgrel: u8,
    pub apt_state_file: Option<String>,
    pub api_server_package: Option<String>,
    pub running_api_server_version: String,
    pub services_list: Vec<String>,
    pub pre_upgrade_kernels: Vec<KernelSeries>,
    pub min_post_upgrade_kernel: KernelVersion,
}

impl UpgradeCheckerBuilder {
    /// Create a new UpgradeCheckerBuilder
    ///
    /// * `old_suite`: The Debian suite before the upgrade.
    /// * `new_suite`: The Debian suite after the upgrade.
    /// * `meta_package_name`: The name of the product's meta package.
    /// * `minimum_major_version`: The minimum major version before the upgrade.
    /// * `minimum_minor_version`: The minimum minor version before the upgrade.
    /// * `minimum_pkgrel`: The minimum package release before the upgrade.
    /// * `running_api_server_version`: The currently running API server version.
    pub fn new(
        old_suite: &str,
        new_suite: &str,
        meta_package_name: &str,
        minimum_major_version: u8,
        minimum_minor_version: u8,
        minimum_pkgrel: u8,
        running_api_server_version: &str,
    ) -> (b: UpgradeCheckerBuilder)
        ensures
            b.old_suite@ == old_suite@,
            b.new_suite@ == new_suite@,
            b.meta_package_name@ == meta_package_name@,
            b.minimum_major_version == minimum_major_version,
            b.minimum_minor_version == minimum_minor_version,
            b.minimum_pkgrel == minimum_pkgrel,
            b.apt_state_file is None,
            b.api_server_package is None,
            b.running_api_server_version@ == running_api_server_version@,
            b.services_list@.len() == 0,
            b.pre_upgrade_kernels@ == default_pre_upgrade_series(),
            b.min_post_upgrade_kernel == (KernelVersion {
                series: KernelSeries { major: 6, minor: 14 },
                patch: 5,
            }),
    {
        UpgradeCheckerBuilder {
            old_suite: string_of(old_suite),
            new_suite: string_of(new_suite),
            meta_package_name: string_of(meta_package_name),
            minimum_major_version,
            minimum_minor_version,
            minimum_pkgrel,
            apt_state_file: None,
            api_server_package: None,
            running_api_server_version: string_of(running_api_server_version),
            services_list: Vec::new(),
            pre_upgrade_kernels: default_pre_upgrade_kernels(),
            min_post_upgrade_kernel: default_min_post_upgrade_kernel(),
        }
    }

    /// Set the location of the APT state file.
    pub fn apt_state_file_location(self, path: &str) -> (b: UpgradeCheckerBuilder)
        ensures
            b.apt_state_file matches Some(p) && p@ == path@,
            b.api_server_package == self.api_server_package,
            b.services_list == self.services_list,
            b.pre_upgrade_kernels == self.pre_upgrade_kernels,
            b.min_post_upgrade_kernel == self.min_post_upgrade_kernel,
            b.old_suite == self.old_suite && b.new_suite == self.new_suite,
            b.meta_package_name == self.meta_package_name,
            b.running_api_server_version == self.running_api_server_version,
            b.minimum_major_version == self.minimum_major_version,
            b.minimum_minor_version == self.minimum_minor_version,
            b.minimum_pkgrel == self.minimum_pkgrel,
    {
        UpgradeCheckerBuilder { apt_state_file: Some(string_of(path)), ..self }
    }

    /// Set the API server package name.
    pub fn api_server_package(self, api_server_package: &str) -> (b: UpgradeCheckerBuilder)
        ensures
            b.api_server_package matches Some(p) && p@ == api_server_package@,
            b.apt_state_file == self.apt_state_file,
            b.services_list == self.services_list,
            b.pre_upgrade_kernels == self.pre_upgrade_kernels,
            b.min_post_upgrade_kernel == self.min_post_upgrade_kernel,
            b.old_suite == self.old_suite && b.new_suite == self.new_suite,
            b.meta_package_name == self.meta_package_name,
            b.running_api_server_version == self.running_api_server_version,
            b.minimum_major_version == self.minimum_major_version,
            b.minimum_minor_version == self.minimum_minor_version,
            b.minimum_pkgrel == self.minimum_pkgrel,
    {
        UpgradeCheckerBuilder { api_server_package: Some(string_of(api_server_package)), ..self }
    }

    /// Add a service to the list of services that will be checked.
    pub fn add_service_to_checks(self, service_name: &str) -> (b: UpgradeCheckerBuilder)
        ensures
            b.services_list@.len() == self.services_list@.len() + 1,
            b.services_list@.take(self.services_list@.len() as int) == self.services_list@,
            b.services_list@.last()@ == service_name@,
            b.apt_state_file == self.apt_state_file,
            b.api_server_package == self.api_server_package,
            b.pre_upgrade_kernels == self.pre_upgrade_kernels,
            b.min_post_upgrade_kernel == self.min_post_upgrade_kernel,
            b.old_suite == self.old_suite && b.new_suite == self.new_suite,
            b.meta_package_name == self.meta_package_name,
            b.running_api_server_version == self.running_api_server_version,
            b.minimum_major_version == self.minimum_major_version,
            b.minimum_minor_version == self.minimum_minor_version,
            b.minimum_pkgrel == self.minimum_pkgrel,
    {
        let mut services_list = self.services_list;
        let ghost before = services_list@;
        services_list.push(string_of(service_name));
        assert(services_list@.take(before.len() as int) =~= before);
        UpgradeCheckerBuilder { services_list, ..self }
    }

    /// Set the kernel series that are suitable to run before the upgrade.
    ///
    /// Those are matched exactly, as the releases before an upgrade got a fixed set of kernels.
    /// Defaults to [`default_pre_upgrade_kernels`].
    pub fn pre_upgrade_kernels(self, series: Vec<KernelSeries>) -> (b: UpgradeCheckerBuilder)
        ensures
            b.pre_upgrade_kernels@ == series@,
            b.apt_state_file == self.apt_state_file,
            b.api_server_package == self.api_server_package,
            b.services_list == self.services_list,
            b.min_post_upgrade_kernel == self.min_post_upgrade_kernel,
            b.old_suite == self.old_suite && b.new_suite == self.new_suite,
            b.meta_package_name == self.meta_package_name,
            b.running_api_server_version == self.running_api_server_version,
            b.minimum_major_version == self.minimum_major_version,
            b.minimum_minor_version == self.minimum_minor_version,
            b.minimum_pkgrel == self.minimum_pkgrel,
    {
        UpgradeCheckerBuilder { pre_upgrade_kernels: series, ..self }
    }

    /// Set the oldest kernel version that is suitable to run after the upgrade.
    ///
    /// Any newer one passes too, so that kernels released after this check was written are
    /// accepted, but a kernel backported to a Debian release older than the new suite never is.
    /// Spell out the patch level, it is what tells apart the builds of a series that got shipped
    /// for both the old and the new release.
    /// Defaults to [`default_min_post_upgrade_kernel`].
    pub fn min_post_upgrade_kernel(self, version: KernelVersion) -> (b: UpgradeCheckerBuilder)
        ensures
            b.min_post_upgrade_kernel == version,
            b.apt_state_file == self.apt_state_file,
            b.api_server_package == self.api_server_package,
            b.services_list == self.services_list,
            b.pre_upgrade_kernels == self.pre_upgrade_kernels,
            b.old_suite == self.old_suite && b.new_suite == self.new_suite,
            b.meta_package_name == self.meta_package_name,
            b.running_api_server_version == self.running_api_server_version,
            b.minimum_major_version == self.minimum_major_version,
            b.minimum_minor_version == self.minimum_minor_version,
            b.minimum_pkgrel == self.minimum_pkgrel,
    {
        UpgradeCheckerBuilder { min_post_upgrade_kernel: version, ..self }
    }

    /// Construct the UpgradeChecker, consumes the UpgradeCheckerBuilder. `new_suite_codename` is
    /// the Debian release that the new suite names, if it is one the checks know.
    ///
    /// The APT state file defaults to `/var/lib/<meta package>/pkg-state.json` and the API server
    /// package to the meta package.
    pub fn build(self, new_suite_codename: Option<DebianRelease>) -> (c: UpgradeChecker)
        ensures
            !c.upgraded,
            c.old_suite == self.old_suite,
            c.new_suite == self.new_suite,
            c.new_suite_codename == new_suite_codename,
            c.meta_package_name == self.meta_package_name,
            c.minimum_major_version == self.minimum_major_version,
            c.minimum_minor_version == self.minimum_minor_version,
            c.minimum_pkgrel == self.minimum_pkgrel,
            c.apt_state_file@ == match self.apt_state_file {
                Some(p) => p@,
                None => "/var/lib/"@ + self.meta_package_name@ + "/pkg-state.json"@,
            },
            c.api_server_package@ == match self.api_server_package {
                Some(p) => p@,
                None => self.meta_package_name@,
            },
            c.running_api_server_version == self.running_api_server_version,
            c.services_list == self.services_list,
            c.pre_upgrade_kernels == self.pre_upgrade_kernels,
            c.min_post_upgrade_kernel == self.min_post_upgrade_kernel,
            c.output.first_header,
            c.output.counters == (Counters { pass: 0, skip: 0, notice: 0, warn: 0, fail: 0 }),
    {
        let apt_state_file = match self.apt_state_file {
            Some(p) => p,
            None => {
                let mut p = string_of("/var/lib/");
                p.append(self.meta_package_name.as_str());
                p.append("/pkg-state.json");
                p
            },
        };
        let api_server_package = match self.api_server_package {
            Some(p) => p,
            None => self.meta_package_name.clone(),
        };
        UpgradeChecker {
            upgraded: false,
            old_suite: self.old_suite,
            new_suite: self.new_suite,
            new_suite_codename,
            meta_package_name: self.meta_package_name,
            minimum_major_version: self.minimum_major_version,
            minimum_minor_version: self.minimum_minor_version,
            minimum_pkgrel: self.minimum_pkgrel,
            apt_state_file,
            api_server_package,
            running_api_server_version: self.running_api_server_version,
            services_list: self.services_list,
            pre_upgrade_kernels: self.pre_upgrade_kernels,
            min_post_upgrade_kernel: self.min_post_upgrade_kernel,
            output: Report::new(),
        }
    }
}

/// The state of a set of upgrade checks, and the decisions they take.
pub struct UpgradeChecker {
    /// Whether the meta-package shows that the upgrade already happened.
    pub upgraded: bool,
    pub old_suite: String,
    pub new_suite: String,
    /// The Debian release that the new suite names, if the checks know it.
    pub new_suite_codename: Option<DebianRelease>,
    pub meta_package_name: String,
    pub minimum_major_version: u8,
    pub minimum_minor_version: u8,
    pub minimum_pkgrel: u8,
    pub apt_state_file: String,
    pub api_server_package: String,
    pub running_api_server_version: String,
    pub services_list: Vec<String>,
    pub pre_upgrade_kernels: Vec<KernelSeries>,
    pub min_post_upgrade_kernel: KernelVersion,
    /// The report of the checks run so far.
    pub output: Report,
}

impl UpgradeChecker {
    /// The summary of all checks run so far, as pieces of styled text to write in order.
    pub fn summary(&mut self) -> (r: Vec<(Style, String)>)
        requires
            total(old(self).output.counters) <= u64::MAX,
        ensures
            pieces_view(r@) == summary_pieces(old(self).output),
            *final(self) == (UpgradeChecker {
                output: Report { first_header: false, ..old(self).output },
                ..*old(self)
            }),
    {
        self.output.summary()
    }
}

// ---------------------------------------------------------------------------------------------
// Kernels
// ---------------------------------------------------------------------------------------------
/// Whether a kernel is one the product expects to run at the current stage of the upgrade:
/// before it, one of the pre-upgrade series; after it, at least the minimum post-upgrade version
/// and not a backport to a Debian release older than the new suite (a backport counts as older
/// when the new suite's release is unknown).
pub open spec fn kernel_suitable(
    upgraded: bool,
    pre_upgrade: Seq<KernelSeries>,
    min_post_upgrade: KernelVersion,
    new_release: Option<u32>,
    kernel: KernelRelease,
) -> bool {
    if !upgraded {
        pre_upgrade.contains(kernel.version.series)
    } else {
        let predates_upgrade = match kernel.backport {
            Some(backport) => match new_release {
                None => true,
                Some(release) => backport < release,
            },
            None => false,
        };
        !predates_upgrade && version_le(min_post_upgrade, kernel.version)
    }
}

/// Whether `s` starts with `prefix`.
pub open spec fn starts_with(s: Seq<char>, prefix: Seq<char>) -> bool {
    s.len() >= prefix.len() && s.take(prefix.len() as int) == prefix
}

/// The series part of a kernel meta-package name: what follows `proxmox-kernel-`, else what
/// follows `pve-kernel-`.
pub open spec fn meta_package_suffix(name: Seq<char>) -> Option<Seq<char>> {
    if starts_with(name, "proxmox-kernel-"@) {
        Some(name.skip("proxmox-kernel-"@.len() as int))
    } else if starts_with(name, "pve-kernel-"@) {
        Some(name.skip("pve-kernel-"@.len() as int))
    } else {
        None
    }
}

/// The kernel of an installed Proxmox kernel meta-package, e.g. `proxmox-kernel-6.14`: the series
/// comes from the name, which must be exactly `major.minor` after the prefix; the installed
/// version gives the patch level and the backport marker, unless it belongs to another series, as
/// transitional meta-packages have a versioning of their own, in which case the patch level is 0.
pub open spec fn meta_package_release(pkg: PackageInfo) -> Option<KernelRelease> {
    match meta_package_suffix(pkg.package@) {
        None => None,
        Some(suffix) => match series_of_text(suffix) {
            Err(_) => None,
            Ok(series) => match pkg.old_version {
                None => None,
                Some(installed) => {
                    let version = match version_of_text(installed@) {
                        Ok(v) => if v.series == series {
                            v
                        } else {
                            KernelVersion { series, patch: 0 }
                        },
                        Err(_) => KernelVersion { series, patch: 0 },
                    };
                    Some(KernelRelease { version, backport: backport_marker_of(installed@) })
                },
            },
        },
    }
}

/// Whether `cs` starts with the characters of `prefix`.
fn has_prefix(cs: &Vec<char>, prefix: &str) -> (b: bool)
    ensures
        b == starts_with(cs@, prefix@),
{
    let p = chars_of(prefix);
    if p.len() > cs.len() {
        return false;
    }
    let mut i: usize = 0;
    while i < p.len()
        invariant
            p@ == prefix@,
            p.len() <= cs.len(),
            i <= p.len(),
            forall|j: int| 0 <= j < i ==> cs@[j] == p@[j],
        decreases p.len() - i,
    {
        if cs[i] != p[i] {
            assert(cs@.take(p.len() as int)[i as int] != p@[i as int]);
            return false;
        }
        i += 1;
    }
    assert(cs@.take(p.len() as int) =~= p@);
    true
}

/// The characters `cs[from..]` as a string.
fn string_from(cs: &Vec<char>, from: usize) -> (s: String)
    requires
        from <= cs.len(),
    ensures
        s@ == cs@.skip(from as int),
{
    let mut s = String::new();
    crate::text::push_range(&mut s, cs, from, cs.len());
    assert(cs@.subrange(from as int, cs.len() as int) =~= cs@.skip(from as int));
    s
}

/// Get the kernel of an installed Proxmox kernel meta-package, e.g. `proxmox-kernel-6.14`.
///
/// Returns `None` for any other package, in particular for the versioned kernel image packages.
pub fn kernel_meta_package_release(pkg: &PackageInfo) -> (r: Option<KernelRelease>)
    ensures
        r == meta_package_release(*pkg),
{
    let name = chars_of(pkg.package.as_str());
    proof {
        reveal_strlit("proxmox-kernel-");
        reveal_strlit("pve-kernel-");
    }
    let suffix = if has_prefix(&name, "proxmox-kernel-") {
        string_from(&name, 15)
    } else if has_prefix(&name, "pve-kernel-") {
        string_from(&name, 11)
    } else {
        return None;
    };
    let series = match KernelSeries::from_str(suffix.as_str()) {
        Ok(s) => s,
        Err(_) => return None,
    };
    // the installed version, not the candidate one, tells us what a reboot would boot into
    let installed = match &pkg.old_version {
        Some(v) => v,
        None => return None,
    };
    let version = match KernelVersion::from_str(installed.as_str()) {
        Ok(v) => if v.series == series {
            v
        } else {
            KernelVersion::from_series(series)
        },
        // transitional meta-packages have a versioning of their own, so only trust the name
        Err(_) => KernelVersion::from_series(series),
    };
    Some(KernelRelease { version, backport: crate::kernel::backport_marker(installed.as_str()) })
}

/// Whether package `i` is an installed kernel meta-package whose kernel is suitable.
pub open spec fn suitable_candidate(c: &UpgradeChecker, pkgs: Seq<PackageInfo>, i: int) -> bool {
    match meta_package_release(pkgs[i]) {
        Some(k) => c.suitable(k),
        None => false,
    }
}

/// The kernel version of package `i`, if it is a kernel meta-package.
pub open spec fn candidate_version(pkgs: Seq<PackageInfo>, i: int) -> KernelVersion {
    meta_package_release(pkgs[i])->0.version
}

/// Whether no package is an installed kernel meta-package with a suitable kernel.
pub open spec fn no_suitable_candidate(c: &UpgradeChecker, pkgs: Seq<PackageInfo>) -> bool {
    forall|i: int| 0 <= i < pkgs.len() ==> !suitable_candidate(c, pkgs, i)
}

/// Whether `name` is the package of the newest suitable kernel meta-package, the last of several
/// equally new ones.
pub open spec fn is_newest_suitable(
    c: &UpgradeChecker,
    pkgs: Seq<PackageInfo>,
    name: Seq<char>,
) -> bool {
    exists|i: int|
        0 <= i < pkgs.len() && suitable_candidate(c, pkgs, i) && name == pkgs[i].package@
            && (forall|j: int|
            0 <= j < pkgs.len() && suitable_candidate(c, pkgs, j) ==> #[trigger] version_le(
                candidate_version(pkgs, j),
                candidate_version(pkgs, i),
            )) && (forall|j: int|
            i < j < pkgs.len() && suitable_candidate(c, pkgs, j) ==> #[trigger] candidate_version(
                pkgs,
                j,
            ) != candidate_version(pkgs, i))
}

impl UpgradeChecker {
    /// `kernel_suitable` with this checker's settings.
    pub open spec fn suitable(&self, kernel: KernelRelease) -> bool {
        kernel_suitable(
            self.upgraded,
            self.pre_upgrade_kernels@,
            self.min_post_upgrade_kernel,
            release_major(self.new_suite_codename),
            kernel,
        )
    }

    /// Whether a kernel is one the product expects to run at the current stage of the upgrade.
    pub fn is_kernel_suitable(&self, kernel: KernelRelease) -> (b: bool)
        ensures
            b == self.suitable(kernel),
    {
        if !self.upgraded {
            let n = self.pre_upgrade_kernels.len();
            let mut i: usize = 0;
            while i < n
                invariant
                    !self.upgraded,
                    n == self.pre_upgrade_kernels.len(),
                    i <= n,
                    forall|j: int| 0 <= j < i ==> self.pre_upgrade_kernels@[j]
                        != kernel.version.series,
                decreases n - i,
            {
                if self.pre_upgrade_kernels[i] == kernel.version.series {
                    assert(self.pre_upgrade_kernels@[i as int] == kernel.version.series);
                    assert(self.pre_upgrade_kernels@.contains(kernel.version.series));
                    return true;
                }
                i += 1;
            }
            return false;
        }
        // a kernel built for an older Debian release than the new suite predates the upgrade, an
        // unknown suite keeps that conservative, as backports mostly go to the older release
        let predates_upgrade = match kernel.backport {
            Some(backport) => match debian_release_major(self.new_suite_codename) {
                None => true,
                Some(new_release) => backport < new_release,
            },
            None => false,
        };
        !predates_upgrade && kernel.version.is_at_least(&self.min_post_upgrade_kernel)
    }

    /// Get the newest installed kernel meta-package that would be suitable to run; of several
    /// equally new ones, the last.
    pub fn find_suitable_installed_kernel<'a>(&self, pkg_versions: &'a Vec<PackageInfo>) -> (r:
        Option<&'a str>)
        ensures
            r is None <==> no_suitable_candidate(self, pkg_versions@),
            r matches Some(name) ==> is_newest_suitable(self, pkg_versions@, name@),
    {
        let n = pkg_versions.len();
        let mut best: Option<(usize, KernelVersion)> = None;
        let mut i: usize = 0;
        while i < n
            invariant
                n == pkg_versions@.len(),
                i <= n,
                best is None <==> forall|j: int|
                    0 <= j < i ==> !suitable_candidate(self, pkg_versions@, j),
                best matches Some((b, v)) ==> {
                    &&& b < i
                    &&& suitable_candidate(self, pkg_versions@, b as int)
                    &&& v == candidate_version(pkg_versions@, b as int)
                    &&& forall|j: int|
                        0 <= j < i && suitable_candidate(self, pkg_versions@, j) ==> #[trigger] version_le(
                            candidate_version(pkg_versions@, j),
                            v,
                        )
                    &&& forall|j: int|
                        b < j < i && suitable_candidate(self, pkg_versions@, j)
                            ==> #[trigger] candidate_version(pkg_versions@, j) != v
                },
            decreases n - i,
        {
            let cand = kernel_meta_package_release(&pkg_versions[i]);
            assert(cand == meta_package_release(pkg_versions@[i as int]));
            match cand {
                Some(kernel) => {
                    if self.is_kernel_suitable(kernel) {
                        assert(suitable_candidate(self, pkg_versions@, i as int));
                        let take = match best {
                            None => true,
                            Some((_, v)) => kernel.version.is_at_least(&v),
                        };
                        if take {
                            proof {
                                match best {
                                    Some((_, v)) => {
                                        assert forall|j: int|
                                            0 <= j < i + 1 && suitable_candidate(
                                                self,
                                                pkg_versions@,
                                                j,
                                            ) implies #[trigger] version_le(
                                            candidate_version(pkg_versions@, j),
                                            kernel.version,
                                        ) by {
                                            if j < i {
                                                crate::kernel::lemma_version_le_total_order(
                                                    candidate_version(pkg_versions@, j),
                                                    v,
                                                    kernel.version,
                                                );
                                            }
                                        }
                                    },
                                    None => {},
                                }
                            }
                            best = Some((i, kernel.version));
                            assert(best is Some);
                        } else {
                            proof {
                                let (b, v) = best->0;
                                crate::kernel::lemma_version_le_total_order(
                                    kernel.version,
                                    v,
                                    v,
                                );
                            }
                        }
                    } else {
                        assert(!suitable_candidate(self, pkg_versions@, i as int));
                    }
                },
                None => {
                    assert(!suitable_candidate(self, pkg_versions@, i as int));
                },
            }
            i += 1;
        }
        match best {
            None => None,
            Some((b, _)) => Some(pkg_versions[b].package.as_str()),
        }
    }
}

// ---------------------------------------------------------------------------------------------
// The running kernel
// ---------------------------------------------------------------------------------------------
/// What the running and the installed kernels tell about the kernel state.
#[derive(Clone, Debug, PartialEq, Eq)]
pub enum KernelCompat {
    /// The running kernel is suitable.
    RunningSuitable,
    /// The running kernel is not suitable, but this installed meta-package is: a reboot is
    /// missing.
    SuitableInstalled(String),
    /// Neither the running nor any installed kernel is suitable.
    Unexpected,
}

impl UpgradeChecker {
    /// Whether the kernel release `running` reads as a suitable kernel.
    pub open spec fn running_suitable(&self, running: Seq<char>) -> bool {
        release_of_text(running) matches Ok(k) && self.suitable(k)
    }

    /// Judges the running kernel release `running` (as `uname -r` shows it) and the installed
    /// packages.
    pub fn check_kernel_compat(&self, running: &str, pkg_versions: &Vec<PackageInfo>) -> (r:
        KernelCompat)
        ensures
            self.running_suitable(running@) ==> r == KernelCompat::RunningSuitable,
            !self.running_suitable(running@) ==> {
                &&& r is Unexpected <==> no_suitable_candidate(self, pkg_versions@)
                &&& r matches KernelCompat::SuitableInstalled(name) ==> is_newest_suitable(
                    self,
                    pkg_versions@,
                    name@,
                )
                &&& r !is RunningSuitable
            },
    {
        let suitable = match KernelRelease::parse(running) {
            Ok(kernel) => self.is_kernel_suitable(kernel),
            Err(_) => false,
        };
        if suitable {
            KernelCompat::RunningSuitable
        } else {
            match self.find_suitable_installed_kernel(pkg_versions) {
                Some(installed) => KernelCompat::SuitableInstalled(string_of(installed)),
                None => KernelCompat::Unexpected,
            }
        }
    }
}

/// Before the upgrade a kernel is suitable exactly when its series is one of the pre-upgrade
/// series, whatever its patch level or backport marker. After it, exactly when its version is
/// not older than the minimum post-upgrade version (major, then minor, then patch) and, for a
/// backport, it was built for the new suite's Debian release or a later one, which must then be
/// known: a backport to an older release, or to any release when the new suite is unknown, is
/// never suitable after the upgrade; so after an upgrade to trixie (Debian 13) a bookworm
/// backport (`bpo12`) is not suitable, and a backport built for trixie (`bpo13`) is when it is
/// recent enough.
pub proof fn lemma_kernel_suitability(c: UpgradeChecker, k: KernelRelease)
    ensures
        !c.upgraded ==> (c.suitable(k) <==> exists|i: int|
            0 <= i < c.pre_upgrade_kernels@.len() && #[trigger] c.pre_upgrade_kernels@[i]
                == k.version.series),
        c.upgraded ==> (c.suitable(k) <==> {
            let (min, v) = (c.min_post_upgrade_kernel, k.version);
            &&& (min.series.major < v.series.major || (min.series.major == v.series.major
                && min.series.minor < v.series.minor) || (min.series.major == v.series.major
                && min.series.minor == v.series.minor && min.patch <= v.patch))
            &&& (k.backport matches Some(b) ==> (release_major(c.new_suite_codename) matches Some(
                r,
            ) && b >= r))
        }),
        (c.upgraded && k.backport is Some && release_major(c.new_suite_codename) is None)
            ==> !c.suitable(k),
        (c.upgraded && c.new_suite_codename == Some(DebianRelease::Trixie) && k.backport == Some(
            12u32,
        )) ==> !c.suitable(k),
        (c.upgraded && c.new_suite_codename == Some(DebianRelease::Trixie) && k.backport == Some(
            13u32,
        )) ==> (c.suitable(k) <==> version_le(c.min_post_upgrade_kernel, k.version)),
{
}

// ---------------------------------------------------------------------------------------------
// The product's meta-package
// ---------------------------------------------------------------------------------------------
/// The version pattern of the meta-package: `major.minor.pkgrel` or `major.minor-pkgrel` at the
/// start of the installed version.
pub const META_VERSION_PATTERN: &'static str = r"^(\d+)\.(\d+)[.-](\d+)";

/// The three capture groups of `META_VERSION_PATTERN` on `text`, or `None` when it does not match.
pub open spec fn meta_version_captures(text: Seq<char>) -> Option<
    (Option<Seq<char>>, Option<Seq<char>>, Option<Seq<char>>),
> {
    regex_groups3(META_VERSION_PATTERN@, text)
}

/// An optional string as optional characters.
pub open spec fn opt_chars(o: Option<String>) -> Option<Seq<char>> {
    match o {
        Some(s) => Some(s@),
        None => None,
    }
}

/// What the check finds of the product's meta-package.
#[derive(Clone, Copy, Debug, PartialEq, Eq, Structural)]
pub enum MetaPackageVerdict {
    /// The installed version is past the minimum major version (or, for a minimum major
    /// version of 0, past the minimum minor version): the upgrade already happened.
    AlreadyUpgraded { major: u8, minor: u8 },
    /// The installed version is at least the minimum version.
    RecentEnough,
    /// The installed version is older than the minimum version.
    TooOld,
    /// The installed version does not have the `major.minor.pkgrel` form.
    VersionUnmatched,
    /// The meta-package is not installed.
    NotFound,
}

/// Why the meta-package check could not decide.
#[derive(Clone, Copy, Debug, PartialEq, Eq, Structural)]
pub enum MetaCheckError {
    /// A version component is not a number that fits in a `u8`.
    VersionNumber,
}

/// How an installed meta-package version `major.minor.pkgrel` is judged against the minimum
/// version `M.m.r`: the upgrade already happened when the major version is past a nonzero `M`,
/// or, for the alpha and beta releases with `M` of 0, when the minor version is past `m`;
/// otherwise the version is recent enough when every part is at least the minimum's, and too old
/// when one falls short. Only an already upgraded verdict marks the checker as upgraded.
pub proof fn lemma_meta_verdict_rules(c: UpgradeChecker, major: u8, minor: u8, pkgrel: u8)
    ensures
        (c.minimum_major_version != 0 && major > c.minimum_major_version) ==> c.meta_verdict(
            major,
            minor,
            pkgrel,
        ) == (MetaPackageVerdict::AlreadyUpgraded { major, minor }),
        (c.minimum_major_version == 0 && minor > c.minimum_minor_version) ==> c.meta_verdict(
            major,
            minor,
            pkgrel,
        ) == (MetaPackageVerdict::AlreadyUpgraded { major, minor }),
        (c.minimum_major_version != 0 && major <= c.minimum_major_version) ==> (c.meta_verdict(
            major,
            minor,
            pkgrel,
        ) == if major == c.minimum_major_version && minor >= c.minimum_minor_version && pkgrel
            >= c.minimum_pkgrel {
            MetaPackageVerdict::RecentEnough
        } else {
            MetaPackageVerdict::TooOld
        }),
        (c.minimum_major_version == 0 && minor <= c.minimum_minor_version) ==> (c.meta_verdict(
            major,
            minor,
            pkgrel,
        ) == if minor == c.minimum_minor_version && pkgrel >= c.minimum_pkgrel {
            MetaPackageVerdict::RecentEnough
        } else {
            MetaPackageVerdict::TooOld
        }),
{
}

/// The index of the first package named `name`.
pub open spec fn find_package(pkgs: Seq<PackageInfo>, name: Seq<char>) -> Option<int>
    decreases pkgs.len(),
{
    if pkgs.len() == 0 {
        None
    } else if pkgs[0].package@ == name {
        Some(0)
    } else {
        match find_package(pkgs.drop_first(), name) {
            Some(i) => Some(i + 1),
            None => None,
        }
    }
}

/// The installed version of the first package named `name`.
pub open spec fn installed_version_of(pkgs: Seq<PackageInfo>, name: Seq<char>) -> Option<
    Seq<char>,
> {
    match find_package(pkgs, name) {
        Some(i) => opt_chars(pkgs[i].old_version),
        None => None,
    }
}

/// The value of a captured version component: a `u8` as `str::parse` reads it, 0 when the group
/// is absent.
pub open spec fn component_value(c: Option<Seq<char>>) -> Option<nat> {
    match c {
        None => Some(0),
        Some(s) => parse_unsigned(s, 255),
    }
}

impl UpgradeChecker {
    /// The verdict on an installed meta-package version `major.minor.pkgrel`.
    pub open spec fn meta_verdict(&self, major: u8, minor: u8, pkgrel: u8) -> MetaPackageVerdict {
        if (major > self.minimum_major_version && self.minimum_major_version != 0) || (
        self.minimum_major_version == 0 && minor > self.minimum_minor_version) {
            MetaPackageVerdict::AlreadyUpgraded { major, minor }
        } else if major >= self.minimum_major_version && minor >= self.minimum_minor_version
            && pkgrel >= self.minimum_pkgrel {
            MetaPackageVerdict::RecentEnough
        } else {
            MetaPackageVerdict::TooOld
        }
    }

    /// What the meta-package check gives for the installed packages `pkgs`.
    pub open spec fn meta_check(&self, pkgs: Seq<PackageInfo>) -> Result<
        MetaPackageVerdict,
        MetaCheckError,
    > {
        match installed_version_of(pkgs, self.meta_package_name@) {
            None => Ok(MetaPackageVerdict::NotFound),
            Some(version) => self.captures_verdict(meta_version_captures(version)),
        }
    }

    /// The verdict on the captures of the version pattern on the installed version.
    pub open spec fn captures_verdict(
        &self,
        captures: Option<(Option<Seq<char>>, Option<Seq<char>>, Option<Seq<char>>)>,
    ) -> Result<MetaPackageVerdict, MetaCheckError> {
        match captures {
            None => Ok(MetaPackageVerdict::VersionUnmatched),
            Some((a, b, c)) => match (component_value(a), component_value(b), component_value(c)) {
                (Some(x), Some(y), Some(z)) => Ok(self.meta_verdict(x as u8, y as u8, z as u8)),
                _ => Err(MetaCheckError::VersionNumber),
            },
        }
    }

    /// Judges the captures of the version pattern on the installed meta-package version (`None`
    /// when it did not match), and notes when they show that the upgrade already happened.
    pub fn judge_meta_version(
        &mut self,
        captures: Option<(Option<String>, Option<String>, Option<String>)>,
    ) -> (r: Result<MetaPackageVerdict, MetaCheckError>)
        ensures
            r == old(self).captures_verdict(captures_view(captures)),
            *final(self) == (UpgradeChecker {
                upgraded: old(self).upgraded || r matches Ok(
                    MetaPackageVerdict::AlreadyUpgraded { .. },
                ),
                ..*old(self)
            }),
    {
        match captures {
            None => Ok(MetaPackageVerdict::VersionUnmatched),
            Some((a, b, c)) => {
                let maj = match extract_version_component(&a) {
                    Some(v) => v,
                    None => return Err(MetaCheckError::VersionNumber),
                };
                let min = match extract_version_component(&b) {
                    Some(v) => v,
                    None => return Err(MetaCheckError::VersionNumber),
                };
                let pkgrel = match extract_version_component(&c) {
                    Some(v) => v,
                    None => return Err(MetaCheckError::VersionNumber),
                };
                if (maj > self.minimum_major_version && self.minimum_major_version != 0)
                    // Handle alpha and beta version upgrade checks:
                     || (self.minimum_major_version == 0 && min > self.minimum_minor_version) {
                    self.upgraded = true;
                    Ok(MetaPackageVerdict::AlreadyUpgraded { major: maj, minor: min })
                } else if maj >= self.minimum_major_version && min >= self.minimum_minor_version
                    && pkgrel >= self.minimum_pkgrel {
                    Ok(MetaPackageVerdict::RecentEnough)
                } else {
                    Ok(MetaPackageVerdict::TooOld)
                }
            },
        }
    }

    /// Checks the installed version of the product's meta-package against the minimum version,
    /// and notes when it shows that the upgrade already happened.
    pub fn check_meta_package_version(&mut self, pkg_versions: &Vec<PackageInfo>) -> (r: Result<
        MetaPackageVerdict,
        MetaCheckError,
    >)
        ensures
            r == old(self).meta_check(pkg_versions@),
            *final(self) == (UpgradeChecker {
                upgraded: old(self).upgraded || r matches Ok(
                    MetaPackageVerdict::AlreadyUpgraded { .. },
                ),
                ..*old(self)
            }),
    {
        let ghost pkgs = pkg_versions@;
        let found = self.find_meta_package(pkg_versions);
        let old_version = match found {
            Some(i) => match &pkg_versions[i].old_version {
                Some(v) => v,
                None => return Ok(MetaPackageVerdict::NotFound),
            },
            None => return Ok(MetaPackageVerdict::NotFound),
        };
        let captures = regex_captures3(META_VERSION_PATTERN, old_version.as_str()).unwrap();
        self.judge_meta_version(captures)
    }

    fn find_meta_package(&self, pkgs: &Vec<PackageInfo>) -> (r: Option<usize>)
        ensures
            r matches Some(i) ==> i < pkgs@.len() && find_package(pkgs@, self.meta_package_name@)
                == Some(i as int),
            r is None ==> find_package(pkgs@, self.meta_package_name@) is None,
    {
        let n = pkgs.len();
        let mut i: usize = 0;
        while i < n
            invariant
                n == pkgs@.len(),
                i <= n,
                forall|j: int| 0 <= j < i ==> pkgs@[j].package@ != self.meta_package_name@,
            decreases n - i,
        {
            if pkgs[i].package == self.meta_package_name {
                proof {
                    lemma_find_package(pkgs@, self.meta_package_name@, i as int);
                }
                return Some(i);
            }
            i += 1;
        }
        proof {
            lemma_find_package(pkgs@, self.meta_package_name@, n as int);
        }
        None
    }
}

proof fn lemma_find_package(pkgs: Seq<PackageInfo>, name: Seq<char>, k: int)
    requires
        0 <= k <= pkgs.len(),
        forall|j: int| 0 <= j < k ==> pkgs[j].package@ != name,
        k == pkgs.len() || pkgs[k].package@ == name,
    ensures
        find_package(pkgs, name) == (if k == pkgs.len() {
            None::<int>
        } else {
            Some(k)
        }),
    decreases k,
{
    if k > 0 {
        lemma_find_package(pkgs.drop_first(), name, k - 1);
    }
}

/// The value of a captured version component: a `u8` as `str::parse` reads it, 0 when the group
/// is absent.
fn extract_version_component(capture: &Option<String>) -> (r: Option<u8>)
    ensures
        match component_value(opt_chars(*capture)) {
            Some(v) => r == Some(v as u8),
            None => r is None,
        },
{
    match capture {
        Some(s) => {
            let cs = chars_of(s.as_str());
            assert(cs@.subrange(0, cs.len() as int) =~= cs@);
            match crate::text::parse_unsigned_range(&cs, 0, cs.len(), 255) {
                Some(v) => Some(v as u8),
                None => None,
            }
        },
        None => Some(0),
    }
}

} // verus!
