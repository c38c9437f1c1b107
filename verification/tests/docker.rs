use embassy::action::docker::{
    DockerAction, DockerIOFormat, Exit, ImageId, Output, SYSTEM_PACKAGE_ID,
};
use embassy::action::ActionImplementation;
use embassy::error::ErrorKind;
use embassy::id::{Id, PackageId};
use embassy::net::{ip_to_string, IpPool, HOST_IP};
use embassy::ordered_map::OrderedMap;
use embassy::version::Version;
use embassy::volume::{Volume, VolumeId, Volumes};

fn pkg(s: &str) -> PackageId {
    PackageId::new(s).unwrap()
}

fn action() -> DockerAction {
    DockerAction {
        image: ImageId(Id::new("main").unwrap()),
        system: false,
        entrypoint: "run".to_owned(),
        args: vec!["--flag".to_owned(), "value".to_owned()],
        mounts: OrderedMap::new(),
        io_format: None,
        inject: false,
        shm_size_mb: None,
    }
}

fn volumes() -> Volumes {
    let mut v = Volumes::new();
    v.insert(&VolumeId::new("main").unwrap(), Volume::Data { read_only: false });
    v.insert(&VolumeId::new("ro").unwrap(), Volume::Data { read_only: true });
    v
}

#[test]
fn image_name_for_a_package() {
    let image = ImageId(Id::new("main").unwrap());
    assert_eq!(
        image.for_package("svc", Some(&Version::new(1, 0, 0, 0))),
        "start9/svc/main:1.0.0"
    );
    assert_eq!(image.for_package(SYSTEM_PACKAGE_ID, None), "start9/x_system/main");
}

#[test]
fn docker_args_of_a_plain_action() {
    let args = action().docker_args(&pkg("svc"), &Version::new(1, 0, 0, 0), &Volumes::new());
    assert_eq!(
        args,
        vec!["--entrypoint", "run", "start9/svc/main:1.0.0", "--flag", "value"]
    );
}

#[test]
fn docker_args_of_a_system_action() {
    let mut a = action();
    a.system = true;
    a.args = vec![];
    let args = a.docker_args(&pkg("svc"), &Version::new(1, 0, 0, 0), &Volumes::new());
    assert_eq!(args, vec!["--entrypoint", "run", "start9/x_system/main"]);
}

#[test]
fn docker_args_of_an_injected_action() {
    let mut a = action();
    a.inject = true;
    let args = a.docker_args(&pkg("svc"), &Version::new(1, 2, 0, 0), &Volumes::new());
    assert_eq!(args, vec!["service_svc_1.2.0", "run", "--flag", "value"]);
}

#[test]
fn docker_args_mount_declared_volumes_and_skip_the_others() {
    let mut a = action();
    a.mounts.insert("main".to_owned(), "/data".to_owned());
    a.mounts.insert("missing".to_owned(), "/nowhere".to_owned());
    a.mounts.insert("ro".to_owned(), "/ro".to_owned());
    a.shm_size_mb = Some(64);
    let args = a.docker_args(&pkg("svc"), &Version::new(1, 0, 0, 0), &volumes());
    assert_eq!(
        args,
        vec![
            "--mount",
            "type=bind,src=/mnt/embassy-os/volumes/package-data/svc/volumes/main,dst=/data",
            "--mount",
            "type=bind,src=/mnt/embassy-os/volumes/package-data/svc/volumes/ro,dst=/ro,readonly",
            "--shm-size",
            "64m",
            "--entrypoint",
            "run",
            "start9/svc/main:1.0.0",
            "--flag",
            "value",
        ]
    );
}

#[test]
fn a_read_only_volume_is_never_mounted_writable() {
    let mut a = action();
    a.mounts.insert("ro".to_owned(), "/ro".to_owned());
    a.mounts.insert("BACKUP".to_owned(), "/backup".to_owned());
    let mut v = volumes().to_read_only();
    v.insert(&VolumeId::Backup, Volume::Backup { read_only: true });
    let args = a.docker_args(&pkg("svc"), &Version::new(1, 0, 0, 0), &v);
    let mounts: Vec<&String> = args.iter().filter(|a| a.starts_with("type=bind")).collect();
    assert_eq!(mounts.len(), 2);
    for m in mounts {
        assert!(m.ends_with(",readonly"));
    }
}

#[test]
fn invocation_runs_a_fresh_container_or_execs() {
    let a = action();
    let argv = a.invocation(&pkg("svc"), &Version::new(1, 0, 0, 0), &Volumes::new());
    assert_eq!(&argv[..2], ["run", "--rm"]);
    assert_eq!(argv[2], "--entrypoint");
    let mut b = action();
    b.inject = true;
    let argv = b.invocation(&pkg("svc"), &Version::new(1, 0, 0, 0), &Volumes::new());
    assert_eq!(argv[0], "exec");
    assert_eq!(argv[1], "service_svc_1.0.0");
}

#[test]
fn create_takes_an_address_and_names_the_container() {
    let mut pool = IpPool::new();
    let (ip, argv) = action()
        .create(&pkg("svc"), &Version::new(1, 0, 0, 0), &Volumes::new(), &mut pool)
        .unwrap();
    assert_eq!(ip, HOST_IP + 1);
    assert_eq!(
        &argv[..7],
        ["create", "--net", "start9", "--ip", "172.18.0.2", "--name", "service_svc_1.0.0"]
    );
    assert_eq!(argv[7], "--entrypoint");
    let (second, _) = ActionImplementation::Docker(action())
        .install(&pkg("other"), &Version::new(1, 0, 0, 0), &Volumes::new(), &mut pool)
        .unwrap();
    assert_ne!(second, ip);
}

#[test]
fn create_fails_with_network_when_the_pool_is_empty() {
    let mut pool = IpPool::new();
    let mut taken = 0u32;
    while pool.get().is_some() {
        taken += 1;
    }
    assert_eq!(taken, 65534);
    let err = action()
        .create(&pkg("svc"), &Version::new(1, 0, 0, 0), &Volumes::new(), &mut pool)
        .unwrap_err();
    assert_eq!(err.kind, ErrorKind::Network);
}

#[test]
fn pool_hands_an_address_out_once_until_it_is_put_back() {
    let mut pool = IpPool::new();
    let a = pool.get().unwrap();
    let b = pool.get().unwrap();
    let c = pool.get().unwrap();
    assert!(a != b && b != c && a != c);
    pool.put(b);
    pool.put(b);
    pool.put(HOST_IP);
    pool.put(HOST_IP + 40000);
    let d = pool.get().unwrap();
    assert_eq!(d, b);
    let e = pool.get().unwrap();
    assert!(e != a && e != b && e != c);
}

#[test]
fn addresses_as_text() {
    assert_eq!(ip_to_string(HOST_IP), "172.18.0.1");
    assert_eq!(ip_to_string(0), "0.0.0.0");
    assert_eq!(ip_to_string(u32::MAX), "255.255.255.255");
    assert_eq!(ip_to_string(0x0a00_01fe), "10.0.1.254");
}

fn exit(success: bool, code: Option<i32>, stdout: &[u8], stderr: &[u8]) -> Exit {
    Exit { success, code, stdout: stdout.to_vec(), stderr: stderr.to_vec() }
}

#[test]
fn a_failed_run_is_payload() {
    let r = action().interpret(exit(false, Some(59), b"", b"disabled")).unwrap();
    let f = r.unwrap_err();
    assert_eq!(f.code, 59);
    assert_eq!(f.stderr, "disabled");
    let r = action().interpret(exit(false, None, b"out", b"killed")).unwrap();
    assert_eq!(r.unwrap_err().code, 0);
}

#[test]
fn a_failed_run_with_unreadable_standard_error_is_an_error() {
    let e = action().interpret(exit(false, Some(1), b"", &[0xff, 0xfe])).unwrap_err();
    assert_eq!(e.kind, ErrorKind::Deserialization);
}

#[test]
fn output_without_format_is_text_or_null() {
    let r = action().interpret(exit(true, Some(0), b"", b"")).unwrap().unwrap();
    assert!(matches!(r, Output::Null));
    let r = action().interpret(exit(true, Some(0), b"hello", b"")).unwrap().unwrap();
    assert!(matches!(r, Output::Text(t) if t == "hello"));
    let e = action().interpret(exit(true, Some(0), &[0xc3, 0x28], b"")).unwrap_err();
    assert_eq!(e.kind, ErrorKind::Deserialization);
}

#[test]
fn output_with_format_is_decoded_or_falls_back_to_text() {
    let mut a = action();
    a.io_format = Some(DockerIOFormat::Json);
    let r = a.interpret(exit(true, Some(0), b"{\"port\": 8080}", b"")).unwrap().unwrap();
    match r {
        Output::Document(d) => assert_eq!(d["port"], serde_json::Value::from(8080)),
        other => panic!("{:?}", other),
    }
    let r = a.interpret(exit(true, Some(0), b"not json", b"")).unwrap().unwrap();
    assert!(matches!(r, Output::Text(t) if t == "not json"));
    let r = a.interpret(exit(true, Some(0), b"", b"")).unwrap().unwrap();
    assert!(matches!(r, Output::Text(t) if t.is_empty()));
}

#[test]
fn execute_reads_the_end_of_the_run() {
    let a = ActionImplementation::Docker(action());
    let r = a.execute(exit(false, Some(3), b"", b"boom")).unwrap().unwrap_err();
    assert_eq!((r.code, r.stderr.as_str()), (3, "boom"));
}

#[test]
fn input_is_encoded_only_with_a_format() {
    let doc: serde_json::Value = serde_json::from_str("{\"a\": [1, 2]}").unwrap();
    assert_eq!(action().encode_input(Some(&doc)).unwrap(), None);
    let mut a = action();
    a.io_format = Some(DockerIOFormat::Json);
    assert_eq!(a.encode_input(None).unwrap(), None);
    assert_eq!(a.encode_input(Some(&doc)).unwrap(), Some(b"{\"a\":[1,2]}".to_vec()));
}

#[test]
fn every_format_reads_back_what_it_wrote() {
    let doc: serde_json::Value =
        serde_json::from_str("{\"name\": \"svc\", \"port\": 8080, \"tags\": [\"a\", \"b\"]}")
            .unwrap();
    for format in [
        DockerIOFormat::Json,
        DockerIOFormat::Yaml,
        DockerIOFormat::Cbor,
        DockerIOFormat::Toml,
    ] {
        let bytes = format.to_vec(&doc).unwrap();
        assert!(!bytes.is_empty());
        assert_eq!(format.from_slice(&bytes).unwrap(), doc);
    }
}

#[test]
fn formats_differ_in_what_they_write() {
    let doc: serde_json::Value = serde_json::from_str("{\"port\": 8080}").unwrap();
    assert_eq!(DockerIOFormat::Json.to_vec(&doc).unwrap(), b"{\"port\":8080}");
    assert_eq!(DockerIOFormat::Yaml.to_vec(&doc).unwrap(), b"---\nport: 8080\n");
    assert_eq!(DockerIOFormat::Toml.to_vec(&doc).unwrap(), b"port = 8080\n");
    assert_eq!(
        DockerIOFormat::Cbor.to_vec(&doc).unwrap(),
        vec![0xa1, 0x64, b'p', b'o', b'r', b't', 0x19, 0x1f, 0x90]
    );
}

#[test]
fn formats_refuse_what_they_cannot_read() {
    for format in [DockerIOFormat::Json, DockerIOFormat::Toml, DockerIOFormat::Cbor] {
        let e = format.from_slice(b"{{{{").unwrap_err();
        assert_eq!(e.kind, ErrorKind::Deserialization);
    }
    let e = DockerIOFormat::Yaml.from_slice(b"a: [1, 2").unwrap_err();
    assert_eq!(e.kind, ErrorKind::Deserialization);
    let top = serde_json::Value::Null;
    let e = DockerIOFormat::Toml.to_vec(&top).unwrap_err();
    assert_eq!(e.kind, ErrorKind::Serialization);
}

#[test]
fn format_names() {
    assert_eq!(DockerIOFormat::Json.to_string(), "JSON");
    assert_eq!(DockerIOFormat::Yaml.to_string(), "YAML");
    assert_eq!(DockerIOFormat::Cbor.to_string(), "CBOR");
    assert_eq!(DockerIOFormat::Toml.to_string(), "TOML");
}
