//! Volumes: what a package may mount, and where each lives on the host.

use vstd::prelude::*;
use vstd::string::*;
use crate::id::{Id, PackageId};
use crate::ordered_map::{has_key, lookup, OrderedMap};
use crate::path::{join, joined};

verus! {

/// The directory under which the volumes of all packages live.
pub const PKG_VOLUME_DIR: &'static str = "/mnt/embassy-os/volumes/package-data";

/// The directory under which the backups of all packages live.
pub const BACKUP_DIR: &'static str = "/mnt/embassy-os-backups/EmbassyBackups";

/// The name of a volume of a package.
#[derive(Debug)]
pub enum VolumeId {
    /// The backup volume, present only while a backup is made or restored.
    Backup,
    /// A volume that the package declares.
    Custom(Id),
}

/// The text of the backup volume's name.
pub open spec fn backup_text() -> Seq<char> {
    "BACKUP"@
}

/// The text by which a volume is named; two names with one text name one
/// volume.
pub open spec fn volume_id_text(id: VolumeId) -> Seq<char> {
    match id {
        VolumeId::Backup => backup_text(),
        VolumeId::Custom(id) => id@,
    }
}

impl VolumeId {
    /// The name with text `s`: the backup volume for `BACKUP`, a custom volume
    /// for any other identifier, and nothing for what is no identifier.
    pub fn new(s: &str) -> (r: Option<VolumeId>)
        ensures
            r is Some <==> crate::id::is_id(s@),
            r matches Some(id) ==> volume_id_text(id) == s@ && (id is Backup <==> s@
                == backup_text()),
    {
        if crate::ordered_map::same_text(s, "BACKUP") {
            proof {
                reveal_strlit("BACKUP");
                assert(crate::id::is_id(s@)) by {
                    assert(s@.len() == 6);
                    assert(crate::id::is_id_char('B'));
                    assert(crate::id::is_id_char('A'));
                    assert(crate::id::is_id_char('C'));
                    assert(crate::id::is_id_char('K'));
                    assert(crate::id::is_id_char('U'));
                    assert(crate::id::is_id_char('P'));
                }
            }
            Some(VolumeId::Backup)
        } else {
            match Id::new(s) {
                Ok(id) => Some(VolumeId::Custom(id)),
                Err(_) => None,
            }
        }
    }

    /// The text of the name.
    pub fn as_str(&self) -> (s: &str)
        ensures
            s@ == volume_id_text(*self),
    {
        match self {
            VolumeId::Backup => "BACKUP",
            VolumeId::Custom(id) => id.as_str(),
        }
    }
}

impl Clone for VolumeId {
    fn clone(&self) -> (r: VolumeId)
        ensures
            r == *self,
    {
        match self {
            VolumeId::Backup => VolumeId::Backup,
            VolumeId::Custom(id) => VolumeId::Custom(id.clone()),
        }
    }
}

/// The name of a volume that a package declares.
#[derive(Debug)]
pub struct CustomVolumeId(pub Id);

/// One volume.
#[derive(Debug)]
pub enum Volume {
    /// Data of the package itself.
    Data { read_only: bool },
    /// A subtree of a volume of another package.
    Pointer { package_id: PackageId, volume_id: VolumeId, path: String, read_only: bool },
    /// The certificate issued for an interface.
    Certificate { interface_id: Id },
    /// The hidden-service material of an interface.
    HiddenService { interface_id: Id },
    /// Where a backup is written to or read from.
    Backup { read_only: bool },
}

/// Must the volume be mounted read-only?
pub open spec fn is_read_only(v: Volume) -> bool {
    match v {
        Volume::Data { read_only } => read_only,
        Volume::Pointer { read_only, .. } => read_only,
        Volume::Certificate { .. } => true,
        Volume::HiddenService { .. } => true,
        Volume::Backup { read_only } => read_only,
    }
}

/// The volume made read-only; nothing else about it changes.
pub open spec fn made_read_only(v: Volume) -> Volume {
    match v {
        Volume::Data { .. } => Volume::Data { read_only: true },
        Volume::Pointer { package_id, volume_id, path, .. } => Volume::Pointer {
            package_id,
            volume_id,
            path,
            read_only: true,
        },
        Volume::Certificate { interface_id } => Volume::Certificate { interface_id },
        Volume::HiddenService { interface_id } => Volume::HiddenService { interface_id },
        Volume::Backup { .. } => Volume::Backup { read_only: true },
    }
}

/// `a/b`.
pub open spec fn slash(a: Seq<char>, b: Seq<char>) -> Seq<char> {
    a + seq!['/'] + b
}

/// The host path of volume `v`, named `volume_id`, of package `pkg_id`.
pub open spec fn volume_path(v: Volume, pkg_id: Seq<char>, volume_id: Seq<char>) -> Seq<char> {
    match v {
        Volume::Data { .. } => slash(
            slash(slash(PKG_VOLUME_DIR@, pkg_id), "volumes"@),
            volume_id,
        ),
        Volume::Pointer { package_id, volume_id, path, .. } => joined(
            slash(slash(slash(PKG_VOLUME_DIR@, package_id@), "volumes"@), volume_id_text(volume_id)),
            path@,
        ),
        Volume::Certificate { interface_id } => slash(
            slash(slash(PKG_VOLUME_DIR@, pkg_id), "certificates"@),
            interface_id@,
        ),
        Volume::HiddenService { interface_id } => slash(
            slash(slash(PKG_VOLUME_DIR@, pkg_id), "hidden-services"@),
            interface_id@,
        ),
        Volume::Backup { .. } => slash(BACKUP_DIR@, pkg_id),
    }
}

/// `a/b`, for a `b` that is no absolute path.
fn with_segment(a: String, b: &str) -> (r: String)
    ensures
        r@ == slash(a@, b@),
{
    let mut r = a;
    proof {
        reveal_strlit("/");
    }
    r.append("/");
    r.append(b);
    assert(r@ =~= slash(a@, b@));
    r
}

impl Volume {
    /// The host path of this volume, for the package and the name it is
    /// mounted under.
    pub fn path_for(&self, pkg_id: &PackageId, volume_id: &VolumeId) -> (p: String)
        ensures
            p@ == volume_path(*self, pkg_id@, volume_id_text(*volume_id)),
    {
        self.path_for_name(pkg_id, volume_id.as_str())
    }

    /// The host path of this volume, for the package and the text of the name
    /// it is mounted under.
    pub fn path_for_name(&self, pkg_id: &PackageId, volume_id: &str) -> (p: String)
        ensures
            p@ == volume_path(*self, pkg_id@, volume_id@),
    {
        match self {
            Volume::Data { .. } => {
                let p = with_segment(PKG_VOLUME_DIR.to_owned(), pkg_id.as_str());
                let p = with_segment(p, "volumes");
                with_segment(p, volume_id)
            },
            Volume::Pointer { package_id, volume_id, path, .. } => {
                let p = with_segment(PKG_VOLUME_DIR.to_owned(), package_id.as_str());
                let p = with_segment(p, "volumes");
                let p = with_segment(p, volume_id.as_str());
                join(p.as_str(), path.as_str())
            },
            Volume::Certificate { interface_id } => {
                let p = with_segment(PKG_VOLUME_DIR.to_owned(), pkg_id.as_str());
                let p = with_segment(p, "certificates");
                with_segment(p, interface_id.as_str())
            },
            Volume::HiddenService { interface_id } => {
                let p = with_segment(PKG_VOLUME_DIR.to_owned(), pkg_id.as_str());
                let p = with_segment(p, "hidden-services");
                with_segment(p, interface_id.as_str())
            },
            Volume::Backup { .. } => with_segment(BACKUP_DIR.to_owned(), pkg_id.as_str()),
        }
    }

    /// Makes the volume read-only. A volume that is always read-only stays as
    /// it is.
    pub fn set_read_only(&mut self)
        ensures
            *final(self) == made_read_only(*old(self)),
            is_read_only(*final(self)),
    {
        match self {
            Volume::Data { read_only } => {
                *read_only = true;
            },
            Volume::Pointer { read_only, .. } => {
                *read_only = true;
            },
            Volume::Backup { read_only } => {
                *read_only = true;
            },
            _ => (),
        }
    }

    /// Must the volume be mounted read-only?
    pub fn read_only(&self) -> (b: bool)
        ensures
            b == is_read_only(*self),
    {
        match self {
            Volume::Data { read_only } => *read_only,
            Volume::Pointer { read_only, .. } => *read_only,
            Volume::Certificate { .. } => true,
            Volume::HiddenService { .. } => true,
            Volume::Backup { read_only } => *read_only,
        }
    }
}

impl Clone for Volume {
    fn clone(&self) -> (r: Volume)
        ensures
            r == *self,
    {
        match self {
            Volume::Data { read_only } => Volume::Data { read_only: *read_only },
            Volume::Pointer { package_id, volume_id, path, read_only } => Volume::Pointer {
                package_id: package_id.clone(),
                volume_id: volume_id.clone(),
                path: path.clone(),
                read_only: *read_only,
            },
            Volume::Certificate { interface_id } => Volume::Certificate {
                interface_id: interface_id.clone(),
            },
            Volume::HiddenService { interface_id } => Volume::HiddenService {
                interface_id: interface_id.clone(),
            },
            Volume::Backup { read_only } => Volume::Backup { read_only: *read_only },
        }
    }
}

/// The volumes of a package, by name, in the order of their declaration.
#[derive(Debug)]
pub struct Volumes {
    map: OrderedMap<Volume>,
}

impl View for Volumes {
    type V = Seq<(Seq<char>, Volume)>;

    closed spec fn view(&self) -> Seq<(Seq<char>, Volume)> {
        self.map@
    }
}

/// Every volume of `s` made read-only, under the same names and in the same
/// order.
pub open spec fn read_only_volumes(s: Seq<(Seq<char>, Volume)>) -> Seq<(Seq<char>, Volume)> {
    Seq::new(s.len(), |i: int| (s[i].0, made_read_only(s[i].1)))
}

/// The host path of the volume named `volume_id` among `s`, if there is
/// one.
pub open spec fn path_among(s: Seq<(Seq<char>, Volume)>, pkg_id: Seq<char>, volume_id: Seq<char>)
    -> Option<Seq<char>> {
    match lookup(s, volume_id) {
        Some(v) => Some(volume_path(v, pkg_id, volume_id)),
        None => None,
    }
}

impl Volumes {
    /// No volumes.
    pub fn new() -> (v: Volumes)
        ensures
            v@.len() == 0,
    {
        Volumes { map: OrderedMap::new() }
    }

    /// The number of volumes.
    pub fn len(&self) -> (n: usize)
        ensures
            n == self@.len(),
    {
        self.map.len()
    }

    /// The text of the name of the `i`-th volume.
    pub fn name_at(&self, i: usize) -> (k: &str)
        requires
            i < self@.len(),
        ensures
            k@ == self@[i as int].0,
    {
        self.map.key_at(i)
    }

    /// The `i`-th volume.
    pub fn volume_at(&self, i: usize) -> (v: &Volume)
        requires
            i < self@.len(),
        ensures
            *v == self@[i as int].1,
    {
        self.map.value_at(i)
    }

    /// The volume named `volume_id`.
    pub fn get(&self, volume_id: &VolumeId) -> (r: Option<&Volume>)
        ensures
            r is Some <==> has_key(self@, volume_id_text(*volume_id)),
            r matches Some(v) ==> Some(*v) == lookup(self@, volume_id_text(*volume_id)),
    {
        self.map.get(volume_id.as_str())
    }

    /// The volume whose name has the text `name`.
    pub fn get_by_name(&self, name: &str) -> (r: Option<&Volume>)
        ensures
            r is Some <==> has_key(self@, name@),
            r matches Some(v) ==> Some(*v) == lookup(self@, name@),
    {
        self.map.get(name)
    }

    /// Declares `volume` under the name `volume_id`, in place of what that
    /// name held.
    pub fn insert(&mut self, volume_id: &VolumeId, volume: Volume) -> (previous: Option<Volume>)
        ensures
            final(self)@ == crate::ordered_map::upsert(
                old(self)@,
                volume_id_text(*volume_id),
                volume,
            ),
            previous == lookup(old(self)@, volume_id_text(*volume_id)),
    {
        self.map.insert(volume_id.as_str().to_owned(), volume)
    }

    /// The host path of the volume named `volume_id` as mounted by `pkg_id`;
    /// `None` where no volume has that name.
    pub fn get_path_for(&self, pkg_id: &PackageId, volume_id: &VolumeId) -> (r: Option<String>)
        ensures
            r is Some <==> has_key(self@, volume_id_text(*volume_id)),
            r matches Some(p) ==> Some(p@) == path_among(
                self@,
                pkg_id@,
                volume_id_text(*volume_id),
            ),
    {
        match self.map.get(volume_id.as_str()) {
            Some(volume) => Some(volume.path_for(pkg_id, volume_id)),
            None => None,
        }
    }

    /// The same volumes, each made read-only.
    pub fn to_read_only(&self) -> (r: Volumes)
        ensures
            r@ == read_only_volumes(self@),
    {
        let mut map: OrderedMap<Volume> = OrderedMap::new();
        let mut i: usize = 0;
        self.map.keys_are_distinct();
        while i < self.map.len()
            invariant
                i <= self.map@.len(),
                crate::ordered_map::keys_distinct(self.map@),
                map@ == read_only_volumes(self.map@).subrange(0, i as int),
            decreases self.map@.len() - i,
        {
            let mut volume = self.map.value_at(i).clone();
            volume.set_read_only();
            let key = self.map.key_at(i).to_owned();
            proof {
                let s = self.map@;
                let before = map@;
                crate::ordered_map::position_finds(before, key@);
                if has_key(before, key@) {
                    let j = crate::ordered_map::position(before, key@);
                    assert(before[j].0 == s[j].0);
                    assert(s[j].0 != s[i as int].0);
                }
                assert(before.push((key@, volume)) =~= read_only_volumes(s).subrange(
                    0,
                    i as int + 1,
                ));
            }
            map.insert(key, volume);
            i = i + 1;
        }
        assert(map@ =~= read_only_volumes(self.map@));
        Volumes { map }
    }
}

/// Looking a name up among the read-only volumes finds the volume that
/// stood under it, made read-only.
pub proof fn read_only_lookup(s: Seq<(Seq<char>, Volume)>, volume_id: Seq<char>)
    ensures
        has_key(read_only_volumes(s), volume_id) == has_key(s, volume_id),
        crate::ordered_map::position(read_only_volumes(s), volume_id)
            == crate::ordered_map::position(s, volume_id),
        lookup(read_only_volumes(s), volume_id) == match lookup(s, volume_id) {
            Some(v) => Some(made_read_only(v)),
            None => None,
        },
    decreases s.len(),
{
    let r = read_only_volumes(s);
    if s.len() == 0 {
    } else {
        read_only_lookup(s.drop_first(), volume_id);
        assert(r.drop_first() =~= read_only_volumes(s.drop_first()));
        if has_key(s, volume_id) {
            let i = choose|i: int| 0 <= i < s.len() && (#[trigger] s[i]).0 == volume_id;
            assert(r[i].0 == volume_id);
        }
        if has_key(r, volume_id) {
            let i = choose|i: int| 0 <= i < r.len() && (#[trigger] r[i]).0 == volume_id;
            assert(s[i].0 == volume_id);
        }
        crate::ordered_map::position_finds(s, volume_id);
    }
}

/// After `to_read_only` every volume reports read-only, and every name
/// resolves to the host path it resolved to before.
pub proof fn to_read_only_is_read_only_and_keeps_paths(
    s: Seq<(Seq<char>, Volume)>,
    pkg_id: Seq<char>,
    volume_id: Seq<char>,
)
    ensures
        forall|i: int|
            0 <= i < read_only_volumes(s).len() ==> is_read_only(
                (#[trigger] read_only_volumes(s)[i]).1,
            ),
        path_among(read_only_volumes(s), pkg_id, volume_id) == path_among(s, pkg_id, volume_id),
{
    read_only_lookup(s, volume_id);
}

/// A read-only volume is read-only, and making a volume read-only moves it
/// nowhere.
pub proof fn read_only_keeps_path(v: Volume, pkg_id: Seq<char>, volume_id: Seq<char>)
    ensures
        is_read_only(made_read_only(v)),
        volume_path(made_read_only(v), pkg_id, volume_id) == volume_path(v, pkg_id, volume_id),
{
}

} // verus!
