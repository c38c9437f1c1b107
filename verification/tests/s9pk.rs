use embassy::error::ErrorKind;
use embassy::id::PackageId;
use embassy::install::progress::InstallProgress;
use embassy::install::{
    cache_dir, cache_is_current, cache_path, download_install_s9pk, install_s9pk, public_dir,
    PKG_CACHE, PKG_PUBLIC_DIR,
};
use embassy::db::{AllPackageData, PackageDataEntry, StaticFiles};
use embassy::error::Error;
use embassy::ordered_map::OrderedMap;
use embassy::s9pk::builder::S9pkPacker;
use embassy::s9pk::header::{FileSection, Header, TableOfContents, HEADER_SIZE, MAGIC, VERSION};
use embassy::s9pk::reader::{to_hex, S9pkReader};
use embassy::version::Version;
use sha2::Digest;

fn pack(instructions: Option<&str>) -> Vec<u8> {
    S9pkPacker {
        writer: vec![],
        manifest: b"\xa1\x62id\x63svc",
        icon: b"PNG-bytes",
        docker_images: b"tar-stream-of-images",
        instructions,
    }
    .pack()
    .unwrap()
}

#[test]
fn the_header_is_83_bytes_of_magic_version_and_table() {
    assert_eq!(HEADER_SIZE, 83);
    assert_eq!(MAGIC, [0x3b, 0x3b]);
    assert_eq!(VERSION, 1);
    let mut out = vec![0xee];
    Header::placeholder().serialize(&mut out);
    assert_eq!(out.len(), 84);
    assert_eq!(&out[..4], [0xee, 0x3b, 0x3b, 1]);
    assert!(out[4..].iter().all(|b| *b == 0));
}

#[test]
fn a_section_is_two_big_endian_numbers() {
    let s = FileSection { position: 0x0102030405060708, length: 0xfffe };
    let mut out = vec![];
    s.serialize(&mut out);
    assert_eq!(
        out,
        vec![1, 2, 3, 4, 5, 6, 7, 8, 0, 0, 0, 0, 0, 0, 0xff, 0xfe]
    );
    assert_eq!(FileSection::deserialize(&out, 0), s);
    let max = FileSection { position: u64::MAX, length: u64::MAX - 1 };
    let mut out = vec![9, 9];
    max.serialize(&mut out);
    assert_eq!(FileSection::deserialize(&out, 2), max);
}

#[test]
fn a_header_reads_back() {
    let h = Header {
        table_of_contents: TableOfContents {
            manifest: FileSection { position: 83, length: 10 },
            license: FileSection { position: 93, length: 0 },
            instructions: FileSection { position: 1 << 40, length: 7 },
            icon: FileSection { position: 93, length: 300 },
            docker_images: FileSection { position: 393, length: u64::MAX },
        },
    };
    let mut bytes = vec![];
    h.serialize(&mut bytes);
    bytes.extend_from_slice(b"content");
    assert_eq!(Header::deserialize(&bytes), Some(h));
}

#[test]
fn what_is_no_header() {
    let mut bytes = vec![];
    Header::placeholder().serialize(&mut bytes);
    assert_eq!(Header::deserialize(&bytes[..82]), None);
    assert_eq!(Header::deserialize(&[]), None);
    for (at, value) in [(0, 0x3a), (1, 0), (2, 2)] {
        let mut wrong = bytes.clone();
        wrong[at] = value;
        assert_eq!(Header::deserialize(&wrong), None);
    }
}

#[test]
fn the_layout_of_a_packed_file() {
    let file = pack(Some("# Hello"));
    assert_eq!(file.len(), 83 + 8 + 9 + 20 + 7);
    let toc = Header::deserialize(&file).unwrap().table_of_contents;
    assert_eq!(toc.manifest, FileSection { position: 83, length: 8 });
    assert_eq!(toc.license, FileSection { position: 91, length: 0 });
    assert_eq!(toc.icon, FileSection { position: 91, length: 9 });
    assert_eq!(toc.docker_images, FileSection { position: 100, length: 20 });
    assert_eq!(toc.instructions, FileSection { position: 120, length: 7 });
    assert_eq!(&file[83..91], b"\xa1\x62id\x63svc");
    assert_eq!(&file[91..100], b"PNG-bytes");
    assert_eq!(&file[100..120], b"tar-stream-of-images");
    assert_eq!(&file[120..], b"# Hello");
}

#[test]
fn pack_then_read_gives_the_same_bytes_back() {
    for instructions in [None, Some("# Instructions\n\nRun it."), Some("")] {
        let mut reader = S9pkReader::from_reader(pack(instructions)).unwrap();
        assert!(!reader.validated());
        reader.validate().unwrap();
        assert!(reader.validated());
        assert_eq!(reader.manifest().unwrap(), b"\xa1\x62id\x63svc");
        assert_eq!(reader.icon().unwrap(), b"PNG-bytes");
        assert_eq!(reader.docker_images().unwrap(), b"tar-stream-of-images");
        assert_eq!(reader.license().unwrap(), b"");
        let expected = instructions.filter(|i| !i.is_empty()).map(|i| i.as_bytes());
        assert_eq!(reader.instructions().unwrap(), expected);
    }
}

#[test]
fn packing_after_what_a_file_holds_keeps_it() {
    let file = S9pkPacker {
        writer: b"old".to_vec(),
        manifest: b"m",
        icon: b"",
        docker_images: b"",
        instructions: None,
    }
    .pack()
    .unwrap();
    assert_eq!(&file[..3], b"old");
    assert_eq!(&file[3..6], [0x3b, 0x3b, 1]);
    assert_eq!(file.len(), 3 + 83 + 1);
    let toc = Header::deserialize(&file[3..]).unwrap().table_of_contents;
    assert_eq!(toc.manifest, FileSection { position: 86, length: 1 });
    assert_eq!(file[86], b'm');
}

#[test]
fn the_hash_is_the_sha256_of_the_content_in_hex() {
    let file = pack(Some("x"));
    let reader = S9pkReader::from_reader(file.clone()).unwrap();
    let digest = sha2::Sha256::digest(&file[83..]);
    let hex: String = digest.iter().map(|b| format!("{:02x}", b)).collect();
    assert_eq!(reader.hash_str(), hex);
    assert_eq!(reader.hash_str().len(), 64);
    let other = S9pkReader::from_reader(pack(Some("y"))).unwrap();
    assert_ne!(other.hash_str(), reader.hash_str());
}

#[test]
fn hex_text() {
    assert_eq!(to_hex(&vec![]), "");
    assert_eq!(to_hex(&vec![0x00, 0x0f, 0xa0, 0xff]), "000fa0ff");
    assert!(cache_is_current(Some("000fa0ff"), Some(&to_hex(&vec![0x00, 0x0f, 0xa0, 0xff]))));
}

#[test]
fn a_file_without_header_is_refused() {
    let e = S9pkReader::from_reader(b"not a package".to_vec()).unwrap_err();
    assert_eq!(e.kind, ErrorKind::ValidateS9pk);
    let mut file = pack(None);
    file[2] = 9;
    assert_eq!(S9pkReader::from_reader(file).unwrap_err().kind, ErrorKind::ValidateS9pk);
}

#[test]
fn a_truncated_file_does_not_validate() {
    let mut file = pack(Some("# Hello"));
    file.truncate(file.len() - 1);
    let mut reader = S9pkReader::from_reader(file).unwrap();
    assert_eq!(reader.validate().unwrap_err().kind, ErrorKind::ValidateS9pk);
    assert!(!reader.validated());
    assert!(reader.manifest().is_ok());
    assert_eq!(reader.instructions().unwrap_err().kind, ErrorKind::ValidateS9pk);
}

#[test]
fn a_file_whose_content_was_changed_has_another_digest() {
    let intact = pack(Some("# Hello"));
    let mut changed = intact.clone();
    let last = changed.len() - 1;
    changed[last] ^= 1;
    let mut reader = S9pkReader::from_reader(changed).unwrap();
    assert!(reader.validate().is_ok());
    assert_eq!(reader.instructions().unwrap(), Some(&b"# Helln"[..]));
    let expected = S9pkReader::from_reader(intact).unwrap();
    assert_ne!(reader.hash_str(), expected.hash_str());
    assert!(!cache_is_current(Some(expected.hash_str()), Some(reader.hash_str())));
    assert!(cache_is_current(Some(expected.hash_str()), Some(expected.hash_str())));
}

#[test]
fn a_section_that_overflows_does_not_validate() {
    let h = Header {
        table_of_contents: TableOfContents {
            manifest: FileSection { position: u64::MAX, length: u64::MAX },
            license: FileSection { position: 0, length: 0 },
            instructions: FileSection { position: 0, length: 0 },
            icon: FileSection { position: 0, length: 0 },
            docker_images: FileSection { position: 0, length: 0 },
        },
    };
    let mut bytes = vec![];
    h.serialize(&mut bytes);
    let mut reader = S9pkReader::from_reader(bytes).unwrap();
    assert!(reader.validate().is_err());
    assert!(reader.manifest().is_err());
    assert_eq!(reader.icon().unwrap(), b"");
}

fn pkg(s: &str) -> PackageId {
    PackageId::new(s).unwrap()
}

#[test]
fn where_packages_are_cached_and_published() {
    assert_eq!(PKG_CACHE, "/mnt/embassy-os/cache/packages");
    assert_eq!(PKG_PUBLIC_DIR, "/mnt/embassy-os/public/package-data");
    let v = Version::new(1, 0, 0, 0);
    assert_eq!(cache_dir(&pkg("svc"), &v), "/mnt/embassy-os/cache/packages/svc/1.0.0");
    assert_eq!(cache_path(&pkg("svc"), &v), "/mnt/embassy-os/cache/packages/svc/1.0.0/svc.s9pk");
    assert_eq!(public_dir(&pkg("svc"), &v), "/mnt/embassy-os/public/package-data/svc/1.0.0");
}

#[test]
fn the_cache_stands_in_only_for_the_digest_that_was_named() {
    assert!(cache_is_current(Some("abc"), Some("abc")));
    assert!(!cache_is_current(Some("abc"), Some("abd")));
    assert!(!cache_is_current(None, Some("abc")));
    assert!(!cache_is_current(Some("abc"), None));
    assert!(!cache_is_current(None, None));
}

#[test]
fn unpacking_hands_out_the_public_files_and_counts_what_was_read() {
    let mut reader = S9pkReader::from_reader(pack(Some("# Hello"))).unwrap();
    let mut progress = InstallProgress::new(Some(127));
    progress.downloaded(127);
    progress.download_complete();
    let unpack =
        install_s9pk(&mut reader, &pkg("svc"), &Version::new(1, 0, 0, 0), "svg", &mut progress)
            .unwrap();
    let dir = "/mnt/embassy-os/public/package-data/svc/1.0.0";
    assert_eq!(unpack.license.path, format!("{}/LICENSE.md", dir));
    assert_eq!(unpack.license.content, b"");
    assert_eq!(unpack.icon.path, format!("{}/icon.svg", dir));
    assert_eq!(unpack.icon.content, b"PNG-bytes");
    assert_eq!(unpack.docker_images, b"tar-stream-of-images");
    let instructions = unpack.instructions.unwrap();
    assert_eq!(instructions.path, format!("{}/INSTRUCTIONS.md", dir));
    assert_eq!(instructions.content, b"# Hello");
    assert_eq!(
        progress,
        InstallProgress {
            size: Some(127),
            downloaded: 127,
            download_complete: true,
            validated: true,
            read: 9 + 20 + 7,
            read_complete: true,
        }
    );
}

#[test]
fn unpacking_a_broken_file_fails_and_counts_nothing() {
    let mut file = pack(None);
    file.truncate(100);
    let mut reader = S9pkReader::from_reader(file).unwrap();
    let mut progress = InstallProgress::new(None);
    let e = install_s9pk(&mut reader, &pkg("svc"), &Version::new(1, 0, 0, 0), "png", &mut progress)
        .unwrap_err();
    assert_eq!(e.kind, ErrorKind::ValidateS9pk);
    assert_eq!(progress, InstallProgress::new(None));
}

#[test]
fn progress_counters_stop_at_the_top() {
    let mut p = InstallProgress::new(None);
    p.downloaded(u64::MAX - 1);
    p.downloaded(5);
    assert_eq!(p.downloaded, u64::MAX);
    p.read(3);
    p.read(4);
    assert_eq!(p.read, 7);
    assert!(!p.validated && !p.read_complete && !p.download_complete);
    p.validated();
    p.read_complete();
    assert!(p.validated && p.read_complete);
}

#[test]
fn the_record_follows_an_installation() {
    let mut db = AllPackageData(OrderedMap::new());
    let id = pkg("svc");
    let v = Version::new(1, 0, 0, 0);
    embassy::install::begin(&mut db, &id, StaticFiles::remote(&id, &v, "png"), Some(10));
    match db.get("svc") {
        Some(PackageDataEntry::Installing { static_files, install_progress }) => {
            assert_eq!(static_files.license, "/registry/packages/svc/1.0.0/LICENSE.md");
            assert_eq!(static_files.instructions, "/registry/packages/svc/1.0.0/INSTRUCTIONS.md");
            assert_eq!(static_files.icon, "/registry/packages/svc/1.0.0/icon.png");
            assert_eq!(*install_progress, InstallProgress::new(Some(10)));
        }
        other => panic!("{:?}", other.is_some()),
    }
    assert!(db.get("svc").unwrap().installed().is_none());
    assert!(db.get("svc").unwrap().install_progress().is_some());
    assert!(download_install_s9pk(&mut db, &id, Ok(())).is_ok());
    assert!(matches!(db.get("svc"), Some(PackageDataEntry::Installing { .. })));
    let e = download_install_s9pk(&mut db, &id, Err(Error::of(ErrorKind::Network, "reset")))
        .unwrap_err();
    assert_eq!(e.kind, ErrorKind::Network);
    assert!(matches!(db.get("svc"), Some(PackageDataEntry::InstallFailed)));
    assert_eq!(db.0.len(), 1);
    let local = StaticFiles::local(&id, &v, "svg");
    assert_eq!(local.icon, "/public/package-data/svc/1.0.0/icon.svg");
}
