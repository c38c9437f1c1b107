use embassy::context::{MaybeAuthedRpcContext, RpcContextConfig};
use embassy::db::PackageDataEntryModelKnown;
use embassy::disk::{list, PartitionInfo, MAIN_DISK, ROOT_DISK};
use embassy::error::ErrorKind;
use embassy::pack::{pack, Asset, Source};
use embassy::text::{chars_of, split_chars, string_of};
use embassy::util::{Apply, ApplyRef};
use embassy::version::{Operator, Version, VersionRange};

const LISTING: &str = "BYT;\n/dev/sda:500GB:scsi:512:4096:gpt:ATA Samsung SSD 860:;\n1:1049kB:538MB:537MB:fat32::boot, esp;\n2:538MB:500GB:500GB:ext4::;\n\nBYT;\n/dev/mmcblk0:31.9GB:sd/mmc:512:512:msdos:SD SC32G:;\n1:4194kB:273MB:268MB:fat32::lba;\n\nBYT;\n/dev/sdb:8GB:scsi:512:512:unknown::;\n";

#[test]
fn the_disks() {
    assert_eq!(ROOT_DISK, "/dev/mmcblk0");
    assert_eq!(MAIN_DISK, "/dev/sda");
}

#[test]
fn a_listing_of_three_disks() {
    let disks = list(LISTING).0;
    assert_eq!(disks.len(), 3);
    let sda = &disks[0];
    assert_eq!(sda.logicalname, "/dev/sda");
    assert_eq!(sda.info.size, "500GB");
    assert_eq!(sda.info.description.as_deref(), Some("ATA Samsung SSD 860"));
    let names: Vec<&str> = sda.info.partitions.iter().map(|p| p.logicalname.as_str()).collect();
    assert_eq!(names, vec!["/dev/sda1", "/dev/sda2"]);
    let sizes: Vec<Option<&str>> =
        sda.info.partitions.iter().map(|p| p.info.size.as_deref()).collect();
    assert_eq!(sizes, vec![Some("537MB"), Some("500GB")]);
    assert!(sda.info.partitions.iter().all(|p| !p.info.is_mounted && p.info.label.is_none()));
}

#[test]
fn partitions_of_a_disk_whose_name_ends_in_a_digit_get_a_p() {
    let disks = list(LISTING).0;
    let mmc = &disks[1];
    assert_eq!(mmc.logicalname, "/dev/mmcblk0");
    assert_eq!(mmc.info.partitions.len(), 1);
    assert_eq!(mmc.info.partitions[0].logicalname, "/dev/mmcblk0p1");
    assert_eq!(mmc.info.partitions[0].info.size.as_deref(), Some("268MB"));
}

#[test]
fn an_empty_description_is_none_and_short_lines_are_no_partitions() {
    let disks = list(LISTING).0;
    let sdb = &disks[2];
    assert_eq!(sdb.info.description, None);
    assert!(sdb.info.partitions.is_empty());
}

#[test]
fn blocks_that_speak_of_no_disk_are_left_out() {
    assert!(list("").0.is_empty());
    assert!(list("BYT;").0.is_empty());
    assert!(list("BYT;\n/dev/sda:500GB:scsi").0.is_empty());
    assert_eq!(list("garbage\n\nBYT;\na:1:2:3:4:5:desc\n\n\n").0.len(), 1);
}

#[test]
fn a_block_that_gives_no_sizes() {
    let disks = list("CHS;\n/dev/sdc:9:scsi:512:512:msdos:Stick\n1:x\n2").0;
    assert_eq!(disks.len(), 1);
    let names: Vec<(&str, Option<&str>)> = disks[0]
        .info
        .partitions
        .iter()
        .map(|p| (p.logicalname.as_str(), p.info.size.as_deref()))
        .collect();
    assert_eq!(names, vec![("/dev/sdc1", None), ("/dev/sdc2", None)]);
}

#[test]
fn the_listing_reads_as_std_splits_it() {
    let mut expected = vec![];
    for block in LISTING.split("\n\n") {
        let mut lines = block.split('\n');
        let _ = lines.next();
        if let Some(info) = lines.next() {
            let fields: Vec<&str> = info.split(':').collect();
            if fields.len() >= 7 {
                expected.push((fields[0].to_owned(), fields[1].to_owned()));
            }
        }
    }
    let ours: Vec<(String, String)> =
        list(LISTING).0.into_iter().map(|d| (d.logicalname, d.info.size)).collect();
    assert_eq!(ours, expected);
}

#[test]
fn splitting_text() {
    for (s, sep) in [("a:b::c", ':'), ("", ':'), (":", ':'), ("abc", ':'), ("a\nb\n", '\n')] {
        let ours: Vec<String> =
            split_chars(&chars_of(s), sep).iter().map(|p| string_of(p)).collect();
        let theirs: Vec<String> = s.split(sep).map(|p| p.to_owned()).collect();
        assert_eq!(ours, theirs);
    }
}

#[test]
fn what_probing_a_partition_adds() {
    let mut p = PartitionInfo { is_mounted: false, size: Some("1GB".to_owned()), label: None };
    p.probed("  \n", false);
    assert_eq!((p.is_mounted, p.label.clone()), (false, None));
    p.probed(" EMBASSY data \n", true);
    assert_eq!((p.is_mounted, p.label.as_deref()), (true, Some("EMBASSY data")));
    p.probed("", false);
    assert_eq!((p.is_mounted, p.label.as_deref()), (true, Some("EMBASSY data")));
    p.probed("x", false);
    assert_eq!(p.label.as_deref(), Some("x"));
    assert_eq!(p.size.as_deref(), Some("1GB"));
}

fn names(entries: &[embassy::pack::PackEntry]) -> Vec<&str> {
    entries.iter().map(|e| e.name.as_str()).collect()
}

#[test]
fn the_archive_of_a_package_directory() {
    let assets = vec![
        Asset { src: "bitcoin.conf".to_owned(), is_dir: false },
        Asset { src: "scripts".to_owned(), is_dir: true },
    ];
    let entries =
        pack("/work/svc/", &VersionRange::Any, &Version::new(0, 3, 0, 0), true, &assets).unwrap();
    assert_eq!(
        names(&entries),
        vec![
            "manifest.cbor",
            "config_spec.cbor",
            "config_rules.cbor",
            "instructions.md",
            "bitcoin.conf",
            "scripts",
            "APPMGR_DIR_END:scripts",
            "image.tar",
        ]
    );
    assert!(matches!(&entries[0].source, Source::Encoded(p) if p == "/work/svc/manifest.yaml"));
    assert!(matches!(&entries[2].source, Source::Encoded(p) if p == "/work/svc/config_rules.yaml"));
    assert!(matches!(&entries[3].source, Source::File(p) if p == "/work/svc/instructions.md"));
    assert!(matches!(&entries[4].source, Source::File(p) if p == "/work/svc/assets/bitcoin.conf"));
    assert!(matches!(&entries[5].source, Source::Dir(p) if p == "/work/svc/assets/scripts"));
    assert!(matches!(&entries[6].source, Source::Mark));
    assert!(matches!(&entries[7].source, Source::File(p) if p == "/work/svc/image.tar"));
}

#[test]
fn the_archive_without_instructions_and_assets() {
    let entries = pack("svc", &VersionRange::Any, &Version::new(0, 3, 0, 0), false, &vec![]).unwrap();
    assert_eq!(
        names(&entries),
        vec!["manifest.cbor", "config_spec.cbor", "config_rules.cbor", "image.tar"]
    );
    assert!(matches!(&entries[3].source, Source::File(p) if p == "svc/image.tar"));
}

#[test]
fn what_cannot_be_packed() {
    let newer = VersionRange::Anchor(Operator::Gte, Version::new(0, 4, 0, 0));
    let host = Version::new(0, 3, 0, 0);
    assert_eq!(pack("svc", &newer, &host, false, &vec![]).unwrap_err().kind, ErrorKind::VersionIncompatible);
    for dir in ["", "/", "..", "a/.."] {
        assert_eq!(
            pack(dir, &VersionRange::Any, &host, false, &vec![]).unwrap_err().kind,
            ErrorKind::Pack,
            "{}",
            dir
        );
    }
}

#[test]
fn the_context_is_there_once_it_is_set_up() {
    let mut ctx = MaybeAuthedRpcContext::new();
    assert_eq!(ctx.authed().unwrap_err().kind, ErrorKind::Authorization);
    ctx.init(RpcContextConfig { bind: None, db: Some("/x.db".to_owned()), secret_store: None });
    let setup = ctx.authed().unwrap();
    assert_eq!(setup.db, "/x.db");
    assert_eq!(setup.bind.port, 5960);
}

#[test]
fn states_as_written_down() {
    let (installing, updating, removing, installed) = (
        PackageDataEntryModelKnown::Installing,
        PackageDataEntryModelKnown::Updating,
        PackageDataEntryModelKnown::Removing,
        PackageDataEntryModelKnown::Installed,
    );
    assert_eq!(PackageDataEntryModelKnown::check("installing").unwrap(), installing);
    assert_eq!(PackageDataEntryModelKnown::check("updating").unwrap(), updating);
    assert_eq!(PackageDataEntryModelKnown::check("removing").unwrap(), removing);
    assert_eq!(PackageDataEntryModelKnown::check("installed").unwrap(), installed);
    for bad in ["", "Installed", "install-failed"] {
        assert_eq!(PackageDataEntryModelKnown::check(bad).unwrap_err().kind, ErrorKind::Database);
    }
    assert!(!installing.as_installed() && installing.as_install_progress());
    assert!(updating.as_installed() && updating.as_install_progress());
    assert!(removing.as_installed() && !removing.as_install_progress());
    assert!(installed.as_installed() && !installed.as_install_progress());
}

#[test]
fn apply_hands_the_value_to_the_function() {
    assert_eq!(5u8.apply(|x| x + 1), 6);
    assert_eq!("abc".to_owned().apply_ref(|s| s.len()), 3);
}
