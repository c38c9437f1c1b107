//! The persisted record: every package the system knows of, and what is
//! known of each.

use vstd::prelude::*;
use vstd::string::*;
use crate::config::spec::{PackagePointerSpecVariant, SystemPointerSpec};
use crate::id::PackageId;
use crate::install::progress::InstallProgress;
use crate::net::IpPool;
use crate::ordered_map::{has_key, lookup, OrderedMap};
use crate::s9pk::manifest::Manifest;
use crate::status::Status;
use crate::version::{version_text, Version};

verus! {

/// Where the public files of a package are served from.
#[derive(Debug)]
pub struct StaticFiles {
    pub license: String,
    pub instructions: String,
    pub icon: String,
}

/// `root/id/version/`, the directory of the public files of a package.
pub open spec fn files_prefix(root: Seq<char>, id: Seq<char>, version: Version) -> Seq<char> {
    root + id + seq!['/'] + version_text(version) + seq!['/']
}

/// The public files of package `id` at `version` under `root`, with an
/// icon of kind `icon_type`.
pub open spec fn static_files(root: Seq<char>, id: Seq<char>, version: Version, icon_type: Seq<char>)
    -> (Seq<char>, Seq<char>, Seq<char>) {
    let prefix = files_prefix(root, id, version);
    (prefix + "LICENSE.md"@, prefix + "INSTRUCTIONS.md"@, prefix + "icon."@ + icon_type)
}

fn files_under(root: &str, id: &PackageId, version: &Version, icon_type: &str) -> (f: StaticFiles)
    ensures
        (f.license@, f.instructions@, f.icon@) == static_files(root@, id@, *version, icon_type@),
{
    let mut prefix = root.to_owned();
    prefix.append(id.as_str());
    proof {
        reveal_strlit("/");
    }
    prefix.append("/");
    prefix.append(version.to_string().as_str());
    prefix.append("/");
    assert(prefix@ =~= files_prefix(root@, id@, *version));
    let mut license = prefix.clone();
    license.append("LICENSE.md");
    let mut instructions = prefix.clone();
    instructions.append("INSTRUCTIONS.md");
    let mut icon = prefix;
    icon.append("icon.");
    icon.append(icon_type);
    StaticFiles { license, instructions, icon }
}

impl StaticFiles {
    /// The files as served from this host, once the package is unpacked.
    pub fn local(id: &PackageId, version: &Version, icon_type: &str) -> (f: StaticFiles)
        ensures
            (f.license@, f.instructions@, f.icon@) == static_files(
                "/public/package-data/"@,
                id@,
                *version,
                icon_type@,
            ),
    {
        files_under("/public/package-data/", id, version, icon_type)
    }

    /// The files as served by the registry, while the package is not yet
    /// unpacked.
    pub fn remote(id: &PackageId, version: &Version, icon_type: &str) -> (f: StaticFiles)
        ensures
            (f.license@, f.instructions@, f.icon@) == static_files(
                "/registry/packages/"@,
                id@,
                *version,
                icon_type@,
            ),
    {
        files_under("/registry/packages/", id, version, icon_type)
    }
}

/// The addresses under which one interface is reached.
#[derive(Debug)]
pub struct InterfaceAddresses {
    pub tor_address: Option<String>,
    pub lan_address: Option<String>,
}

/// The addresses of the interfaces of a package, by interface.
pub struct InterfaceAddressMap(pub OrderedMap<InterfaceAddresses>);

/// Where a package is reached.
pub struct InterfaceInfo {
    pub ip: u32,
    pub addresses: InterfaceAddressMap,
}

/// What is persisted of an installed package.
pub struct InstalledPackageDataEntry {
    pub manifest: Manifest,
    pub status: Status,
    pub system_pointers: Vec<SystemPointerSpec>,
    /// The packages that depend on this one, each with the pointers by which
    /// it looks into this one's configuration.
    pub dependents: OrderedMap<Vec<PackagePointerSpecVariant>>,
    /// The dependencies that this package cannot do without, each with the
    /// health checks of it that count.
    pub required_dependencies: OrderedMap<Vec<String>>,
    pub interface_info: InterfaceInfo,
}

/// What is persisted of a package.
pub enum PackageDataEntry {
    Installing { static_files: StaticFiles, install_progress: InstallProgress },
    Updating {
        static_files: StaticFiles,
        installed: InstalledPackageDataEntry,
        install_progress: InstallProgress,
    },
    Removing { static_files: StaticFiles, installed: InstalledPackageDataEntry },
    Installed { static_files: StaticFiles, installed: InstalledPackageDataEntry },
    /// The installation failed; nothing more happens to this entry.
    InstallFailed,
}

/// What is persisted of the installed package behind an entry, where there
/// is one.
pub open spec fn installed_of(entry: PackageDataEntry) -> Option<InstalledPackageDataEntry> {
    match entry {
        PackageDataEntry::Updating { installed, .. } => Some(installed),
        PackageDataEntry::Removing { installed, .. } => Some(installed),
        PackageDataEntry::Installed { installed, .. } => Some(installed),
        _ => None,
    }
}

/// The entry with `status` in place of the status of its installed
/// package; the entry itself where it has none.
pub open spec fn with_status(entry: PackageDataEntry, status: Status) -> PackageDataEntry {
    match entry {
        PackageDataEntry::Updating { static_files, installed, install_progress } =>
            PackageDataEntry::Updating {
            static_files,
            installed: InstalledPackageDataEntry { status, ..installed },
            install_progress,
        },
        PackageDataEntry::Removing { static_files, installed } => PackageDataEntry::Removing {
            static_files,
            installed: InstalledPackageDataEntry { status, ..installed },
        },
        PackageDataEntry::Installed { static_files, installed } => PackageDataEntry::Installed {
            static_files,
            installed: InstalledPackageDataEntry { status, ..installed },
        },
        other => other,
    }
}

impl PackageDataEntry {
    /// What is persisted of the installed package, where there is one.
    pub fn installed(&self) -> (r: Option<&InstalledPackageDataEntry>)
        ensures
            r is Some <==> installed_of(*self) is Some,
            r matches Some(i) ==> Some(*i) == installed_of(*self),
    {
        match self {
            PackageDataEntry::Updating { installed, .. } => Some(installed),
            PackageDataEntry::Removing { installed, .. } => Some(installed),
            PackageDataEntry::Installed { installed, .. } => Some(installed),
            _ => None,
        }
    }

    /// How far the installation has come, while there is one.
    pub fn install_progress(&self) -> (r: Option<&InstallProgress>)
        ensures
            r is Some <==> self is Installing || self is Updating,
            r matches Some(p) ==> (self matches PackageDataEntry::Installing {
                install_progress,
                ..
            } && *p == install_progress) || (self matches PackageDataEntry::Updating {
                install_progress,
                ..
            } && *p == install_progress),
    {
        match self {
            PackageDataEntry::Installing { install_progress, .. } => Some(install_progress),
            PackageDataEntry::Updating { install_progress, .. } => Some(install_progress),
            _ => None,
        }
    }

    /// Puts `status` in place of the status of the installed package, and
    /// hands back the entry and the status it had. An entry without installed
    /// package stays as it is; `status` is then handed back.
    pub fn replace_status(self, status: Status) -> (r: (PackageDataEntry, Status))
        ensures
            r.0 == with_status(self, status),
            r.1 == match installed_of(self) {
                Some(i) => i.status,
                None => status,
            },
    {
        match self {
            PackageDataEntry::Updating { static_files, installed, install_progress } => {
                let InstalledPackageDataEntry {
                    manifest,
                    status: previous,
                    system_pointers,
                    dependents,
                    required_dependencies,
                    interface_info,
                } = installed;
                (
                    PackageDataEntry::Updating {
                        static_files,
                        installed: InstalledPackageDataEntry {
                            manifest,
                            status,
                            system_pointers,
                            dependents,
                            required_dependencies,
                            interface_info,
                        },
                        install_progress,
                    },
                    previous,
                )
            },
            PackageDataEntry::Removing { static_files, installed } => {
                let InstalledPackageDataEntry {
                    manifest,
                    status: previous,
                    system_pointers,
                    dependents,
                    required_dependencies,
                    interface_info,
                } = installed;
                (
                    PackageDataEntry::Removing {
                        static_files,
                        installed: InstalledPackageDataEntry {
                            manifest,
                            status,
                            system_pointers,
                            dependents,
                            required_dependencies,
                            interface_info,
                        },
                    },
                    previous,
                )
            },
            PackageDataEntry::Installed { static_files, installed } => {
                let InstalledPackageDataEntry {
                    manifest,
                    status: previous,
                    system_pointers,
                    dependents,
                    required_dependencies,
                    interface_info,
                } = installed;
                (
                    PackageDataEntry::Installed {
                        static_files,
                        installed: InstalledPackageDataEntry {
                            manifest,
                            status,
                            system_pointers,
                            dependents,
                            required_dependencies,
                            interface_info,
                        },
                    },
                    previous,
                )
            },
            other => (other, status),
        }
    }
}

/// What an entry may be about, as it is written down in the record.
#[derive(Clone, Copy, Debug, PartialEq, Eq, Structural)]
pub enum PackageDataEntryModelKnown {
    Installing,
    Updating,
    Removing,
    Installed,
}

/// The state that is written down as `name`.
pub open spec fn state_named(name: Seq<char>) -> Option<PackageDataEntryModelKnown> {
    if name == "installing"@ {
        Some(PackageDataEntryModelKnown::Installing)
    } else if name == "updating"@ {
        Some(PackageDataEntryModelKnown::Updating)
    } else if name == "removing"@ {
        Some(PackageDataEntryModelKnown::Removing)
    } else if name == "installed"@ {
        Some(PackageDataEntryModelKnown::Installed)
    } else {
        None
    }
}

impl PackageDataEntryModelKnown {
    /// Reads the state of an entry as it is written down in the record;
    /// anything but `installing`, `updating`, `removing` and `installed` is an
    /// error of kind `Database`.
    pub fn check(name: &str) -> (r: Result<PackageDataEntryModelKnown, crate::error::Error>)
        ensures
            match state_named(name@) {
                Some(state) => r == Ok::<PackageDataEntryModelKnown, crate::error::Error>(state),
                None => r matches Err(e) && e.kind == crate::error::ErrorKind::Database,
            },
    {
        if crate::ordered_map::same_text(name, "installing") {
            Ok(PackageDataEntryModelKnown::Installing)
        } else if crate::ordered_map::same_text(name, "updating") {
            Ok(PackageDataEntryModelKnown::Updating)
        } else if crate::ordered_map::same_text(name, "removing") {
            Ok(PackageDataEntryModelKnown::Removing)
        } else if crate::ordered_map::same_text(name, "installed") {
            Ok(PackageDataEntryModelKnown::Installed)
        } else {
            Err(
                crate::error::Error::of(
                    crate::error::ErrorKind::Database,
                    "invalid variant for PackageDataEntry",
                ),
            )
        }
    }

    /// Is there an installed package behind an entry in this state?
    pub fn as_installed(&self) -> (b: bool)
        ensures
            b == (*self != PackageDataEntryModelKnown::Installing),
    {
        match self {
            PackageDataEntryModelKnown::Installing => false,
            _ => true,
        }
    }

    /// Is an installation under way behind an entry in this state?
    pub fn as_install_progress(&self) -> (b: bool)
        ensures
            b == (*self == PackageDataEntryModelKnown::Installing || *self
                == PackageDataEntryModelKnown::Updating),
    {
        match self {
            PackageDataEntryModelKnown::Installing => true,
            PackageDataEntryModelKnown::Updating => true,
            _ => false,
        }
    }
}

impl PackageDataEntry {
    /// The state of the entry; `None` for an entry whose installation
    /// failed, which is in none of the states that are written down.
    pub fn state(&self) -> (r: Option<PackageDataEntryModelKnown>)
        ensures
            r == match *self {
                PackageDataEntry::Installing { .. } => Some(PackageDataEntryModelKnown::Installing),
                PackageDataEntry::Updating { .. } => Some(PackageDataEntryModelKnown::Updating),
                PackageDataEntry::Removing { .. } => Some(PackageDataEntryModelKnown::Removing),
                PackageDataEntry::Installed { .. } => Some(PackageDataEntryModelKnown::Installed),
                PackageDataEntry::InstallFailed => None,
            },
    {
        match self {
            PackageDataEntry::Installing { .. } => Some(PackageDataEntryModelKnown::Installing),
            PackageDataEntry::Updating { .. } => Some(PackageDataEntryModelKnown::Updating),
            PackageDataEntry::Removing { .. } => Some(PackageDataEntryModelKnown::Removing),
            PackageDataEntry::Installed { .. } => Some(PackageDataEntryModelKnown::Installed),
            PackageDataEntry::InstallFailed => None,
        }
    }
}

/// Every package the system knows of, by name.
pub struct AllPackageData(pub OrderedMap<PackageDataEntry>);

/// What is persisted of the installed package named `id`, where it is
/// installed.
pub open spec fn installed_at(db: Seq<(Seq<char>, PackageDataEntry)>, id: Seq<char>) -> Option<
    InstalledPackageDataEntry,
> {
    match lookup(db, id) {
        Some(entry) => installed_of(entry),
        None => None,
    }
}

/// The record with `status` in place of the status of the `i`-th package.
pub open spec fn with_status_at(db: Seq<(Seq<char>, PackageDataEntry)>, i: int, status: Status)
    -> Seq<(Seq<char>, PackageDataEntry)> {
    db.update(i, (db[i].0, with_status(db[i].1, status)))
}

impl AllPackageData {
    /// The entry of the package named `id`.
    pub fn get(&self, id: &str) -> (r: Option<&PackageDataEntry>)
        ensures
            r is Some <==> has_key(self.0@, id@),
            r matches Some(e) ==> Some(*e) == lookup(self.0@, id@),
    {
        self.0.get(id)
    }

    /// What is persisted of the installed package named `id`.
    pub fn installed(&self, id: &str) -> (r: Option<&InstalledPackageDataEntry>)
        ensures
            r is Some <==> installed_at(self.0@, id@) is Some,
            r matches Some(i) ==> Some(*i) == installed_at(self.0@, id@),
    {
        match self.0.get(id) {
            Some(entry) => entry.installed(),
            None => None,
        }
    }

    /// Puts `status` in place of the status of the `i`-th package, and hands
    /// back the status it had; for a package that is not installed nothing
    /// changes and `status` is handed back.
    pub fn replace_status(&mut self, i: usize, status: Status) -> (previous: Status)
        requires
            i < old(self).0@.len(),
        ensures
            final(self).0@ == with_status_at(old(self).0@, i as int, status),
            previous == match installed_of(old(self).0@[i as int].1) {
                Some(installed) => installed.status,
                None => status,
            },
            crate::links::same_links(old(self).0@, final(self).0@),
    {
        let entry = self.0.replace_value_at(i, PackageDataEntry::InstallFailed);
        let (entry, previous) = entry.replace_status(status);
        self.0.set_value_at(i, entry);
        assert(self.0@ =~= with_status_at(old(self).0@, i as int, status));
        previous
    }
}

/// What is known of the server itself.
pub struct ServerInfo {
    pub id: String,
    pub version: Version,
    pub lan_address: String,
    pub tor_address: String,
    pub updating: bool,
    pub registry: String,
    pub unread_notification_count: u64,
}

/// What the packages share.
pub struct Resources {
    pub ip_pool: IpPool,
}

/// The whole persisted record.
pub struct Database {
    pub server_info: ServerInfo,
    pub package_data: AllPackageData,
    pub broken_packages: Vec<PackageId>,
    pub resources: Resources,
}

} // verus!
