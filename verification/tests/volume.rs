use embassy::id::{Id, PackageId};
use embassy::path::join;
use embassy::volume::{Volume, VolumeId, Volumes, BACKUP_DIR, PKG_VOLUME_DIR};

fn pkg(s: &str) -> PackageId {
    PackageId::new(s).unwrap()
}

fn vol(s: &str) -> VolumeId {
    VolumeId::new(s).unwrap()
}

#[test]
fn directories() {
    assert_eq!(PKG_VOLUME_DIR, "/mnt/embassy-os/volumes/package-data");
    assert_eq!(BACKUP_DIR, "/mnt/embassy-os-backups/EmbassyBackups");
}

#[test]
fn data_volume_path() {
    let v = Volume::Data { read_only: false };
    assert_eq!(
        v.path_for(&pkg("svc"), &vol("main")),
        "/mnt/embassy-os/volumes/package-data/svc/volumes/main"
    );
}

#[test]
fn pointer_volume_path_lies_in_the_other_package() {
    let v = Volume::Pointer {
        package_id: pkg("bitcoind"),
        volume_id: vol("chain"),
        path: "blocks/index".to_owned(),
        read_only: true,
    };
    assert_eq!(
        v.path_for(&pkg("svc"), &vol("btc")),
        "/mnt/embassy-os/volumes/package-data/bitcoind/volumes/chain/blocks/index"
    );
}

#[test]
fn pointer_volume_path_is_the_one_std_joins() {
    for path in ["", "a", "a/b/", "/etc/passwd"] {
        let v = Volume::Pointer {
            package_id: pkg("other"),
            volume_id: vol("main"),
            path: path.to_owned(),
            read_only: false,
        };
        let expected = std::path::Path::new(PKG_VOLUME_DIR)
            .join("other")
            .join("volumes")
            .join("main")
            .join(path);
        assert_eq!(
            v.path_for(&pkg("svc"), &vol("x")),
            expected.to_str().unwrap()
        );
    }
}

#[test]
fn certificate_and_hidden_service_paths() {
    let c = Volume::Certificate { interface_id: Id::new("rpc").unwrap() };
    assert_eq!(
        c.path_for(&pkg("svc"), &vol("cert")),
        "/mnt/embassy-os/volumes/package-data/svc/certificates/rpc"
    );
    let h = Volume::HiddenService { interface_id: Id::new("web").unwrap() };
    assert_eq!(
        h.path_for(&pkg("svc"), &vol("tor")),
        "/mnt/embassy-os/volumes/package-data/svc/hidden-services/web"
    );
}

#[test]
fn backup_volume_path() {
    let v = Volume::Backup { read_only: false };
    assert_eq!(
        v.path_for(&pkg("svc"), &VolumeId::Backup),
        "/mnt/embassy-os-backups/EmbassyBackups/svc"
    );
}

#[test]
fn read_only_of_each_kind() {
    assert!(!Volume::Data { read_only: false }.read_only());
    assert!(Volume::Data { read_only: true }.read_only());
    assert!(Volume::Certificate { interface_id: Id::new("a").unwrap() }.read_only());
    assert!(Volume::HiddenService { interface_id: Id::new("a").unwrap() }.read_only());
    assert!(!Volume::Backup { read_only: false }.read_only());
}

#[test]
fn set_read_only_changes_the_flag_only() {
    let mut v = Volume::Pointer {
        package_id: pkg("other"),
        volume_id: vol("main"),
        path: "x".to_owned(),
        read_only: false,
    };
    let before = v.path_for(&pkg("svc"), &vol("p"));
    v.set_read_only();
    assert!(v.read_only());
    assert_eq!(v.path_for(&pkg("svc"), &vol("p")), before);
}

#[test]
fn volume_id_text() {
    assert_eq!(vol("main").as_str(), "main");
    assert!(matches!(vol("BACKUP"), VolumeId::Backup));
    assert_eq!(VolumeId::Backup.as_str(), "BACKUP");
    assert!(VolumeId::new("").is_none());
    assert!(VolumeId::new("a/b").is_none());
}

fn some_volumes() -> Volumes {
    let mut v = Volumes::new();
    v.insert(&vol("main"), Volume::Data { read_only: false });
    v.insert(
        &vol("btc"),
        Volume::Pointer {
            package_id: pkg("bitcoind"),
            volume_id: vol("main"),
            path: "data".to_owned(),
            read_only: false,
        },
    );
    v.insert(&vol("cert"), Volume::Certificate { interface_id: Id::new("rpc").unwrap() });
    v.insert(&VolumeId::Backup, Volume::Backup { read_only: false });
    v
}

#[test]
fn get_path_for_a_declared_volume() {
    let v = some_volumes();
    assert_eq!(
        v.get_path_for(&pkg("svc"), &vol("main")),
        Some("/mnt/embassy-os/volumes/package-data/svc/volumes/main".to_owned())
    );
    assert_eq!(v.get_path_for(&pkg("svc"), &vol("nope")), None);
}

#[test]
fn to_read_only_makes_every_volume_read_only_and_keeps_paths() {
    let v = some_volumes();
    let r = v.to_read_only();
    assert_eq!(r.len(), v.len());
    for i in 0..v.len() {
        assert_eq!(r.name_at(i), v.name_at(i));
        assert!(r.volume_at(i).read_only());
        let id = VolumeId::new(v.name_at(i)).unwrap();
        assert_eq!(
            r.get_path_for(&pkg("svc"), &id),
            v.get_path_for(&pkg("svc"), &id)
        );
    }
    assert!(!v.volume_at(0).read_only());
}

#[test]
fn insert_replaces_in_place() {
    let mut v = some_volumes();
    let old = v.insert(&vol("main"), Volume::Data { read_only: true });
    assert!(matches!(old, Some(Volume::Data { read_only: false })));
    assert_eq!(v.len(), 4);
    assert_eq!(v.name_at(0), "main");
    assert!(v.volume_at(0).read_only());
}

#[test]
fn join_follows_std() {
    for (a, b) in [
        ("/a", "b"),
        ("/a/", "b"),
        ("", "b"),
        ("/a", ""),
        ("/a", "/b"),
        ("a/b", "c/d"),
    ] {
        assert_eq!(
            join(a, b),
            std::path::Path::new(a).join(b).to_str().unwrap()
        );
    }
}
