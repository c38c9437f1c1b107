//! Installation: from a package file to an installed package.

pub mod progress;

use vstd::prelude::*;
use vstd::string::*;
use crate::config::spec::PackagePointerSpecVariant;
use crate::db::{
    installed_at, installed_of, AllPackageData, InstalledPackageDataEntry, PackageDataEntry,
    StaticFiles,
};
use crate::error::{Error, ErrorKind};
use crate::graph::{
    acyclic, closes_cycle, declared, installing_keeps_acyclic, same_manifests_declare_the_same,
    uninstalling_keeps_acyclic,
};
use crate::id::PackageId;
use crate::install::progress::{advanced, started, InstallProgress};
use crate::links::{
    entering_keeps_other_links, link, linked, links_made, links_of, uninstalled_keeps_links,
};
use crate::ordered_map::{
    lookup, names_in, position, position_by_keys, position_finds, upsert, upsert_keeps_others,
    OrderedMap,
};
use crate::s9pk::builder::{region, sections_fit};
use crate::s9pk::reader::S9pkReader;
use crate::version::{version_text, Version};

verus! {

/// The directory of the download cache.
pub const PKG_CACHE: &'static str = "/mnt/embassy-os/cache/packages";

/// The directory of the public files of the packages.
pub const PKG_PUBLIC_DIR: &'static str = "/mnt/embassy-os/public/package-data";

/// `root/id/version`.
pub open spec fn versioned_dir(root: Seq<char>, id: Seq<char>, version: Version) -> Seq<char> {
    root + seq!['/'] + id + seq!['/'] + version_text(version)
}

/// The file that package `id` at `version` is cached in.
pub open spec fn cache_file(id: Seq<char>, version: Version) -> Seq<char> {
    versioned_dir(PKG_CACHE@, id, version) + seq!['/'] + id + ".s9pk"@
}

fn dir_under(root: &str, id: &PackageId, version: &Version) -> (p: String)
    ensures
        p@ == versioned_dir(root@, id@, *version),
{
    let mut p = root.to_owned();
    proof {
        reveal_strlit("/");
    }
    p.append("/");
    p.append(id.as_str());
    p.append("/");
    p.append(version.to_string().as_str());
    assert(p@ =~= versioned_dir(root@, id@, *version));
    p
}

/// The directory that package `id` at `version` is cached in.
pub fn cache_dir(id: &PackageId, version: &Version) -> (p: String)
    ensures
        p@ == versioned_dir(PKG_CACHE@, id@, *version),
{
    dir_under(PKG_CACHE, id, version)
}

/// The file that package `id` at `version` is cached in.
pub fn cache_path(id: &PackageId, version: &Version) -> (p: String)
    ensures
        p@ == cache_file(id@, *version),
{
    let mut p = dir_under(PKG_CACHE, id, version);
    proof {
        reveal_strlit("/");
    }
    p.append("/");
    p.append(id.as_str());
    p.append(".s9pk");
    assert(p@ =~= cache_file(id@, *version));
    p
}

/// The directory of the public files of package `id` at `version`.
pub fn public_dir(id: &PackageId, version: &Version) -> (p: String)
    ensures
        p@ == versioned_dir(PKG_PUBLIC_DIR@, id@, *version),
{
    dir_under(PKG_PUBLIC_DIR, id, version)
}

/// Can the cached file stand in for the download? It can exactly when the
/// download names a digest, a cached file was opened, and the digest of the
/// cached file is the one named.
pub fn cache_is_current(named: Option<&str>, cached: Option<&str>) -> (b: bool)
    ensures
        b == (named is Some && cached is Some && named->0@ == cached->0@),
{
    match (named, cached) {
        (Some(named), Some(cached)) => crate::ordered_map::same_text(named, cached),
        _ => false,
    }
}

/// One file to be written while a package is unpacked.
#[derive(Debug)]
pub struct Unpacked<'a> {
    pub path: String,
    pub content: &'a [u8],
}

/// What unpacking a package file comes to: the public files to write, and
/// the container images to load.
#[derive(Debug)]
pub struct Unpack<'a> {
    pub license: Unpacked<'a>,
    pub icon: Unpacked<'a>,
    pub instructions: Option<Unpacked<'a>>,
    pub docker_images: &'a [u8],
}

/// `dir/name`.
pub open spec fn file_in(dir: Seq<char>, name: Seq<char>) -> Seq<char> {
    dir + seq!['/'] + name
}

fn path_in(dir: &str, name: &str) -> (p: String)
    ensures
        p@ == file_in(dir@, name@),
{
    let mut p = dir.to_owned();
    proof {
        reveal_strlit("/");
    }
    p.append("/");
    p.append(name);
    assert(p@ =~= file_in(dir@, name@));
    p
}

/// The count of bytes once `n` more are counted: it stops at the greatest
/// number it can hold.
pub open spec fn counted(before: u64, n: int) -> u64 {
    if before + n > u64::MAX {
        u64::MAX
    } else {
        (before + n) as u64
    }
}

/// Unpacks a package file for package `id` at `version`: the file is
/// validated, and its license, its icon, its instructions and its container
/// images are handed out together with the paths of the public files. The
/// package counts as validated, the bytes handed out are counted as read,
/// and unpacking counts as complete; nothing else of the progress changes. Fails, with kind `ValidateS9pk` and
/// the progress untouched, exactly when a section of the file does not lie
/// inside it.
pub fn install_s9pk<'a>(
    rdr: &'a mut S9pkReader,
    id: &PackageId,
    version: &Version,
    icon_type: &str,
    progress: &mut InstallProgress,
) -> (r: Result<Unpack<'a>, Error>)
    ensures
        r is Ok <==> sections_fit(old(rdr).contents(), old(rdr).file().len() as int),
        final(rdr).file() == old(rdr).file(),
        final(rdr).contents() == old(rdr).contents(),
        r is Ok ==> final(rdr).is_validated(),
        r matches Err(e) ==> e.kind == ErrorKind::ValidateS9pk && *final(progress) == *old(
            progress,
        ),
        advanced(*old(progress), *final(progress)),
        r matches Ok(unpack) ==> {
            let dir = versioned_dir(PKG_PUBLIC_DIR@, id@, *version);
            let file = old(rdr).file();
            let toc = old(rdr).contents();
            &&& *final(progress) == (InstallProgress {
                validated: true,
                read: counted(
                    old(progress).read,
                    toc.license.length + toc.icon.length + toc.docker_images.length
                        + toc.instructions.length,
                ),
                read_complete: true,
                ..*old(progress)
            })
            &&& unpack.license.path@ == file_in(dir, "LICENSE.md"@)
            &&& Some(unpack.license.content@) == region(file, toc.license)
            &&& unpack.icon.path@ == file_in(dir, "icon."@ + icon_type@)
            &&& Some(unpack.icon.content@) == region(file, toc.icon)
            &&& Some(unpack.docker_images@) == region(file, toc.docker_images)
            &&& unpack.instructions is None <==> toc.instructions.length == 0
            &&& unpack.instructions matches Some(i) ==> i.path@ == file_in(
                dir,
                "INSTRUCTIONS.md"@,
            ) && Some(i.content@) == region(file, toc.instructions)
        },
{
    match rdr.validate() {
        Err(e) => {
            return Err(e);
        },
        Ok(()) => {},
    }
    let rdr: &'a S9pkReader = &*rdr;
    let start = *progress;
    progress.validated();
    let dir = public_dir(id, version);
    let license = match rdr.license() {
        Ok(content) => content,
        Err(e) => {
            *progress = start;
            return Err(e);
        },
    };
    let icon = match rdr.icon() {
        Ok(content) => content,
        Err(e) => {
            *progress = start;
            return Err(e);
        },
    };
    let docker_images = match rdr.docker_images() {
        Ok(content) => content,
        Err(e) => {
            *progress = start;
            return Err(e);
        },
    };
    let instructions = match rdr.instructions() {
        Ok(content) => content,
        Err(e) => {
            *progress = start;
            return Err(e);
        },
    };
    progress.read(license.len() as u64);
    progress.read(icon.len() as u64);
    progress.read(docker_images.len() as u64);
    let mut icon_name = "icon.".to_owned();
    icon_name.append(icon_type);
    let instructions = match instructions {
        Some(content) => {
            progress.read(content.len() as u64);
            Some(Unpacked { path: path_in(dir.as_str(), "INSTRUCTIONS.md"), content })
        },
        None => None,
    };
    progress.read_complete();
    Ok(
        Unpack {
            license: Unpacked { path: path_in(dir.as_str(), "LICENSE.md"), content: license },
            icon: Unpacked { path: path_in(dir.as_str(), icon_name.as_str()), content: icon },
            instructions,
            docker_images,
        },
    )
}

/// Starts the installation of package `id`: its entry says that it is
/// being installed, with the progress at its start.
pub fn begin(db: &mut AllPackageData, id: &PackageId, static_files: StaticFiles, size: Option<u64>)
    ensures
        final(db).0@ == upsert(
            old(db).0@,
            id@,
            PackageDataEntry::Installing { static_files, install_progress: started(size) },
        ),
        linked(old(db).0@) ==> linked(final(db).0@),
        acyclic(old(db).0@) ==> acyclic(final(db).0@),
{
    proof {
        let entry = PackageDataEntry::Installing { static_files, install_progress: started(size) };
        if linked(db.0@) {
            uninstalled_keeps_links(db.0@, id@, entry);
        }
        if acyclic(db.0@) {
            entered_without_package(db.0@, id@, entry);
        }
    }
    db.0.insert(
        id.as_str().to_owned(),
        PackageDataEntry::Installing { static_files, install_progress: InstallProgress::new(size) },
    );
}

/// Ends the installation of package `id` in failure: its entry says so
/// from now on.
pub fn fail(db: &mut AllPackageData, id: &PackageId)
    ensures
        final(db).0@ == upsert(old(db).0@, id@, PackageDataEntry::InstallFailed),
        linked(old(db).0@) ==> linked(final(db).0@),
        acyclic(old(db).0@) ==> acyclic(final(db).0@),
{
    proof {
        if linked(db.0@) {
            uninstalled_keeps_links(db.0@, id@, PackageDataEntry::InstallFailed);
        }
        if acyclic(db.0@) {
            entered_without_package(db.0@, id@, PackageDataEntry::InstallFailed);
        }
    }
    db.0.insert(id.as_str().to_owned(), PackageDataEntry::InstallFailed);
}

/// Ends the installation of package `id` in success: its entry holds what
/// is persisted of the installed package, and the package is linked with
/// the others. Every installed package that it declares as a dependency
/// names it as a dependent from now on, with the pointers that `pointers`
/// holds for that package, and no other does; and it names as its dependents
/// the installed packages that declare it, each with the pointers that
/// `installed` holds for it. From then on the package is installed, with the
/// manifest and the status that `installed` holds.
pub fn complete(
    db: &mut AllPackageData,
    id: &PackageId,
    static_files: StaticFiles,
    installed: InstalledPackageDataEntry,
    pointers: OrderedMap<Vec<PackagePointerSpecVariant>>,
)
    ensures
        links_made(
            upsert(old(db).0@, id@, PackageDataEntry::Installed { static_files, installed }),
            final(db).0@,
            id@,
            links_of(pointers@),
        ),
        installed_at(final(db).0@, id@) matches Some(entered) && entered.manifest
            == installed.manifest && entered.status == installed.status,
        lookup(final(db).0@, id@) matches Some(entry) && entry is Installed,
        linked(old(db).0@) ==> linked(final(db).0@),
        acyclic(old(db).0@) && !closes_cycle(
            old(db).0@,
            id@,
            names_in(installed.manifest.dependencies.0@),
        ) ==> acyclic(final(db).0@),
{
    let ghost entry = PackageDataEntry::Installed { static_files, installed };
    proof {
        upsert_keeps_others(db.0@, id@, entry, id@);
        if linked(db.0@) {
            entering_keeps_other_links(db.0@, id@, entry);
        }
    }
    db.0.insert(id.as_str().to_owned(), PackageDataEntry::Installed { static_files, installed });
    let ghost entered = db.0@;
    link(db, id, pointers);
    proof {
        position_by_keys(entered, db.0@, id@);
        position_finds(entered, id@);
        assert(db.0@[position(entered, id@)].0 == entered[position(entered, id@)].0);
        if acyclic(old(db).0@) && !closes_cycle(
            old(db).0@,
            id@,
            names_in(installed.manifest.dependencies.0@),
        ) {
            assert forall|name: Seq<char>| name != id@ implies #[trigger] declared(db.0@, name)
                == declared(old(db).0@, name) by {
                same_manifests_declare_the_same(entered, db.0@, name);
                upsert_keeps_others(old(db).0@, id@, entry, name);
            }
            same_manifests_declare_the_same(entered, db.0@, id@);
            installing_keeps_acyclic(
                old(db).0@,
                db.0@,
                id@,
                names_in(installed.manifest.dependencies.0@),
            );
        }
    }
}

/// Putting an entry without installed package in place of that of `id`,
/// or adding it, leaves a record without cycle without cycle.
proof fn entered_without_package(
    db: Seq<(Seq<char>, PackageDataEntry)>,
    id: Seq<char>,
    entry: PackageDataEntry,
)
    requires
        acyclic(db),
        installed_of(entry) is None,
    ensures
        acyclic(upsert(db, id, entry)),
{
    let after = upsert(db, id, entry);
    upsert_keeps_others(db, id, entry, id);
    assert forall|name: Seq<char>| name != id implies lookup(after, name) == lookup(db, name) by {
        upsert_keeps_others(db, id, entry, name);
    }
    uninstalling_keeps_acyclic(db, after, id);
}

/// What a download ended in, for the installation it belongs to: a failed
/// one marks the entry of the package as failed and hands the error on.
pub fn download_install_s9pk(
    db: &mut AllPackageData,
    id: &PackageId,
    outcome: Result<(), Error>,
) -> (r: Result<(), Error>)
    ensures
        r is Ok <==> outcome is Ok,
        r matches Err(e) ==> e == outcome->Err_0,
        outcome is Ok ==> *final(db) == *old(db),
        outcome is Err ==> final(db).0@ == upsert(old(db).0@, id@, PackageDataEntry::InstallFailed),
        linked(old(db).0@) ==> linked(final(db).0@),
        acyclic(old(db).0@) ==> acyclic(final(db).0@),
{
    match outcome {
        Ok(()) => Ok(()),
        Err(e) => {
            fail(db, id);
            Err(e)
        },
    }
}

} // verus!
