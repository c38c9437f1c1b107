//! The manifest: the declared contract of a package.

use vstd::prelude::*;
use crate::action::{Action, ActionImplementation};
use crate::backup::BackupActions;
use crate::config::action::ConfigActions;
use crate::dependencies::Dependencies;
use crate::id::PackageId;
use crate::migration::Migrations;
use crate::ordered_map::OrderedMap;
use crate::status::health_check::HealthCheck;
use crate::version::Version;
use crate::volume::Volumes;

verus! {

/// Where the parts of a package lie inside its source directory. A part
/// without a path lies at its default.
#[derive(Debug)]
pub struct Assets {
    pub license: Option<String>,
    pub icon: Option<String>,
    pub docker_images: Option<String>,
    pub instructions: Option<String>,
}

/// `path`, or `default` where there is none.
pub open spec fn or_default(path: Option<String>, default: Seq<char>) -> Seq<char> {
    match path {
        Some(p) => p@,
        None => default,
    }
}

/// The last segment of a path, as `Path::file_name` gives it: `None` where
/// the path ends in `..` or has no segment at all.
pub uninterp spec fn file_name_of(path: Seq<char>) -> Option<Seq<char>>;

/// The place of the last `.` in `name`, or `-1` where it has none.
pub open spec fn last_dot(name: Seq<char>) -> int
    decreases name.len(),
{
    if name.len() == 0 {
        -1
    } else if name.last() == '.' {
        name.len() - 1
    } else {
        last_dot(name.drop_last())
    }
}

/// The extension of a file name: what follows its last `.`, unless the
/// only `.` is the first character or there is none.
pub open spec fn extension_of_name(name: Seq<char>) -> Option<Seq<char>> {
    if last_dot(name) <= 0 {
        None
    } else {
        Some(name.skip(last_dot(name) + 1))
    }
}

/// The stem of a file name: what precedes its last `.`, or all of it where
/// it has no extension.
pub open spec fn stem_of_name(name: Seq<char>) -> Seq<char> {
    if last_dot(name) <= 0 {
        name
    } else {
        name.take(last_dot(name))
    }
}

/// The extension of the last segment of a path.
pub open spec fn extension_of(path: Seq<char>) -> Option<Seq<char>> {
    match file_name_of(path) {
        Some(name) => extension_of_name(name),
        None => None,
    }
}

/// The stem of the last segment of a path.
pub open spec fn stem_of(path: Seq<char>) -> Option<Seq<char>> {
    match file_name_of(path) {
        Some(name) => Some(stem_of_name(name)),
        None => None,
    }
}

/// `Path::file_name`, as text.
#[verifier::external_body]
pub(crate) fn path_file_name(path: &str) -> (r: Option<&str>)
    ensures
        r is Some <==> file_name_of(path@) is Some,
        r matches Some(name) ==> Some(name@) == file_name_of(path@),
{
    std::path::Path::new(path).file_name().and_then(|name| name.to_str())
}

/// `Path::extension`, as text: the extension of the path's file name.
#[verifier::external_body]
pub(crate) fn path_extension(path: &str) -> (r: Option<&str>)
    ensures
        r is Some <==> extension_of(path@) is Some,
        r matches Some(ext) ==> Some(ext@) == extension_of(path@),
{
    std::path::Path::new(path).extension().and_then(|ext| ext.to_str())
}

/// `Path::file_stem`, as text: the stem of the path's file name.
#[verifier::external_body]
pub(crate) fn path_file_stem(path: &str) -> (r: Option<&str>)
    ensures
        r is Some <==> stem_of(path@) is Some,
        r matches Some(stem) ==> Some(stem@) == stem_of(path@),
{
    std::path::Path::new(path).file_stem().and_then(|stem| stem.to_str())
}

/// Does `path` lie at or below `base`, counting whole path segments only?
pub uninterp spec fn path_under(path: Seq<char>, base: Seq<char>) -> bool;

/// `Path::starts_with`: whether `base` is a prefix of `path` by whole
/// segments, which depends on the two alone.
#[verifier::external_body]
pub(crate) fn path_starts_with(path: &str, base: &str) -> (b: bool)
    ensures
        b == path_under(path@, base@),
{
    std::path::Path::new(path).starts_with(base)
}

impl Assets {
    /// Where the license lies: `LICENSE.md` by default.
    pub fn license_path(&self) -> (p: &str)
        ensures
            p@ == or_default(self.license, "LICENSE.md"@),
    {
        match &self.license {
            Some(p) => p.as_str(),
            None => "LICENSE.md",
        }
    }

    /// Where the icon lies: `icon.png` by default.
    pub fn icon_path(&self) -> (p: &str)
        ensures
            p@ == or_default(self.icon, "icon.png"@),
    {
        match &self.icon {
            Some(p) => p.as_str(),
            None => "icon.png",
        }
    }

    /// The kind of the icon: the extension of its path, and `png` where
    /// there is no path or the path has no extension.
    pub fn icon_type(&self) -> (t: &str)
        ensures
            t@ == match self.icon {
                Some(p) => match extension_of(p@) {
                    Some(ext) => ext,
                    None => "png"@,
                },
                None => "png"@,
            },
    {
        match &self.icon {
            Some(p) => match path_extension(p.as_str()) {
                Some(ext) => ext,
                None => "png",
            },
            None => "png",
        }
    }

    /// Where the container images lie: `images.tar` by default.
    pub fn docker_images_path(&self) -> (p: &str)
        ensures
            p@ == or_default(self.docker_images, "images.tar"@),
    {
        match &self.docker_images {
            Some(p) => p.as_str(),
            None => "images.tar",
        }
    }

    /// Where the instructions lie: `INSTRUCTIONS.md` by default.
    pub fn instructions_path(&self) -> (p: &str)
        ensures
            p@ == or_default(self.instructions, "INSTRUCTIONS.md"@),
    {
        match &self.instructions {
            Some(p) => p.as_str(),
            None => "INSTRUCTIONS.md",
        }
    }
}

impl Default for Assets {
    fn default() -> (a: Assets)
        ensures
            a.license is None,
            a.icon is None,
            a.docker_images is None,
            a.instructions is None,
    {
        Assets { license: None, icon: None, docker_images: None, instructions: None }
    }
}

/// What a package says of itself.
#[derive(Debug)]
pub struct Description {
    pub short: String,
    pub long: String,
}

/// What the user is told before an operation on the package.
#[derive(Debug)]
pub struct Alerts {
    pub install: Option<String>,
    pub uninstall: Option<String>,
    pub restore: Option<String>,
    pub start: Option<String>,
    pub stop: Option<String>,
}

impl Default for Alerts {
    fn default() -> (a: Alerts)
        ensures
            a.install is None,
            a.uninstall is None,
            a.restore is None,
            a.start is None,
            a.stop is None,
    {
        Alerts { install: None, uninstall: None, restore: None, start: None, stop: None }
    }
}

/// How one port of an interface is exposed on the local network.
#[derive(Clone, Copy, Debug, PartialEq, Eq, Structural)]
pub struct LanPortConfig {
    pub ssl: bool,
    pub mapping: u16,
}

/// The version of the hidden-service protocol.
#[derive(Clone, Copy, Debug, PartialEq, Eq, Structural)]
pub enum HiddenServiceVersion {
    V1,
    V2,
    V3,
}

/// How an interface is exposed as a hidden service: which of its ports map
/// to which.
#[derive(Debug)]
pub struct TorConfig {
    pub hidden_service_version: HiddenServiceVersion,
    pub port_mapping: Vec<(u16, u16)>,
}

/// One network exposure of a package.
#[derive(Debug)]
pub struct Interface {
    pub tor_config: Option<TorConfig>,
    pub lan_config: Option<Vec<(u16, LanPortConfig)>>,
    pub ui: bool,
    pub protocols: Vec<String>,
}

/// The network exposures of a package, by name.
pub struct Interfaces(pub OrderedMap<Interface>);

/// The health checks of a package, by name.
pub struct HealthChecks(pub OrderedMap<HealthCheck>);

/// The actions that the user can trigger, by name.
pub struct Actions(pub OrderedMap<Action>);

/// What a package is permitted: nothing is defined yet, and no value of
/// it can be made.
pub struct Permissions {
    nothing: (),
}

impl Permissions {
    #[verifier::type_invariant]
    closed spec fn impossible(self) -> bool {
        false
    }
}

/// The declared contract of a package. It does not change once the package
/// is installed.
pub struct Manifest {
    pub id: PackageId,
    pub title: String,
    pub version: Version,
    pub description: Description,
    pub assets: Assets,
    pub build: Option<Vec<String>>,
    pub release_notes: String,
    pub license: String,
    pub wrapper_repo: String,
    pub upstream_repo: String,
    pub support_site: Option<String>,
    pub marketing_site: Option<String>,
    pub alerts: Alerts,
    pub main: ActionImplementation,
    pub health_checks: HealthChecks,
    pub config: Option<ConfigActions>,
    pub volumes: Volumes,
    pub min_os_version: Version,
    pub interfaces: Interfaces,
    pub backup: BackupActions,
    pub migrations: Migrations,
    pub actions: Actions,
    pub dependencies: Dependencies,
}

} // verus!
