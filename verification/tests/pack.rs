use embassy::action::docker::Failure;
use embassy::config::spec::{ConfigSpec, Field, ValueSpec};
use embassy::config::value::{Json, Number, Property};
use embassy::error::ErrorKind;
use embassy::id::PackageId;
use embassy::ordered_map::OrderedMap;
use embassy::config::rules::{ConfigRule, ConfigRuleEntry, RuleValue, RuleVar};
use embassy::config::spec::ConfigSelector;
use embassy::pack::{
    check_image_tags, pack, trim_slashes, validate_path, verify, verify_manifest, verify_name,
    verify_rules, Asset, Contents, Declared, DeclaredAction, Error, Stage,
};
use embassy::s9pk::manifest::Assets;
use embassy::util::{invoke, Output, PersistencePath, SSome, SNone, PERSISTENCE_DIR, TMP_DIR};
use embassy::version::{Version, VersionRange};
use rand::SeedableRng;

fn pkg(s: &str) -> PackageId {
    PackageId::new(s).unwrap()
}

#[test]
fn contained_paths() {
    for p in ["", "a", "a/b", "./a", "a/..b", "a/b..", "...", "a/.../b", "a//b"] {
        assert!(validate_path(p).is_ok(), "{}", p);
        assert!(!std::path::Path::new(p).is_absolute());
        assert!(std::path::Path::new(p).iter().all(|seg| seg != ".."));
    }
}

#[test]
fn paths_that_escape() {
    for p in ["/", "/a", "..", "../a", "a/..", "a/../b", "a/b/..", "./..", "..//a"] {
        match validate_path(p) {
            Err(Error::InvalidFileName(name)) => assert_eq!(name, p),
            other => panic!("{}: {:?}", p, other),
        }
    }
}

#[test]
fn pack_errors() {
    let e = Error::InvalidFileName("../x".to_owned());
    assert_eq!(e.to_string(), "Invalid File Name: ../x");
    assert_eq!(
        Error::InvalidDirectoryName("d".to_owned()).to_string(),
        "Invalid Directory Name: d"
    );
    assert_eq!(Error::InvalidOutputPath("o".to_owned()).to_string(), "Invalid Output Path: o");
    let e = e.into_error();
    assert_eq!((e.kind, e.message.as_str()), (ErrorKind::Pack, "Invalid File Name: ../x"));
}

#[test]
fn trailing_slashes_are_trimmed() {
    assert_eq!(trim_slashes("a/b///"), "a/b");
    assert_eq!(trim_slashes("a/b"), "a/b");
    assert_eq!(trim_slashes("///"), "");
    assert_eq!(trim_slashes(""), "");
    assert_eq!(trim_slashes("/a/"), "/a");
}

#[test]
fn the_package_is_named_by_the_file() {
    assert_eq!(verify_name("/tmp/svc.s9pk").unwrap(), "svc");
    assert_eq!(verify_name("my-svc2.s9pk///").unwrap(), "my-svc2");
    assert_eq!(verify_name("dir.d/SVC.s9pk").unwrap(), "SVC");
}

#[test]
fn file_names_that_are_refused() {
    for (path, kind) in [
        ("svc", ErrorKind::Pack),
        ("/tmp/", ErrorKind::Pack),
        ("", ErrorKind::Pack),
        (".s9pk", ErrorKind::Pack),
        ("svc.tar", ErrorKind::ValidateS9pk),
        ("svc.S9PK", ErrorKind::ValidateS9pk),
        ("svc.s9pk.bak", ErrorKind::ValidateS9pk),
        ("start9-x.s9pk", ErrorKind::ValidateS9pk),
        ("my_svc.s9pk", ErrorKind::ValidateS9pk),
        ("my.svc.s9pk", ErrorKind::ValidateS9pk),
        ("my svc.s9pk", ErrorKind::ValidateS9pk),
    ] {
        assert_eq!(verify_name(path).unwrap_err().kind, kind, "{}", path);
    }
}

fn tags(t: &[&str]) -> Vec<String> {
    t.iter().map(|s| s.to_string()).collect()
}

#[test]
fn the_image_has_to_be_tagged_for_the_package() {
    assert!(check_image_tags(&tags(&["start9/svc"]), &pkg("svc")).is_ok());
    assert!(check_image_tags(&tags(&["start9/svc:latest"]), &pkg("svc")).is_ok());
    assert!(check_image_tags(&tags(&["alpine:3", "start9/svc:1.0.0", "start9/svc"]), &pkg("svc"))
        .is_ok());
}

#[test]
fn foreign_or_missing_tags_are_refused() {
    for t in [
        vec![],
        vec!["alpine:3"],
        vec!["start9/other:latest"],
        vec!["start9/svc:latest", "start9/other:latest"],
        vec!["start9/svc2"],
        vec!["start9/svc/main:1.0.0"],
        vec!["start9/"],
    ] {
        let e = check_image_tags(&tags(&t), &pkg("svc")).unwrap_err();
        assert_eq!(e.kind, ErrorKind::ValidateS9pk, "{:?}", t);
    }
}

#[test]
fn the_parts_come_in_order() {
    assert_eq!(Stage::Manifest.expects(), Some("manifest.cbor"));
    assert_eq!(Stage::Manifest.next(true), Stage::ConfigSpec);
    assert_eq!(Stage::ConfigSpec.expects(), Some("config_spec.cbor"));
    assert_eq!(Stage::ConfigSpec.next(false), Stage::ConfigRules);
    assert_eq!(Stage::ConfigRules.expects(), Some("config_rules.cbor"));
    assert_eq!(Stage::ConfigRules.next(true), Stage::Instructions);
    assert_eq!(Stage::ConfigRules.next(false), Stage::Image);
    assert_eq!(Stage::Instructions.expects(), Some("instructions.md"));
    assert_eq!(Stage::Instructions.next(true), Stage::Image);
    assert_eq!(Stage::Image.expects(), Some("image.tar"));
    assert_eq!(Stage::Image.next(true), Stage::Done);
    assert_eq!(Stage::Done.expects(), None);
    assert_eq!(Stage::Done.next(false), Stage::Done);
}

#[test]
fn an_entry_has_to_be_the_one_that_is_due() {
    assert!(Stage::Manifest.check_entry(Some("manifest.cbor")).is_ok());
    let e = Stage::Manifest.check_entry(Some("config_spec.cbor")).unwrap_err();
    assert_eq!(e.kind, ErrorKind::ValidateS9pk);
    assert_eq!(
        e.message,
        "Package File Invalid or Corrupted: expected manifest.cbor, got config_spec.cbor"
    );
    assert_eq!(Stage::Image.check_entry(None).unwrap_err().kind, ErrorKind::ValidateS9pk);
    assert!(Stage::Done.check_entry(Some("anything")).is_err());
}

fn declared<'a>(
    id: &'a PackageId,
    min: &'a Version,
    public: Option<&'a str>,
    shared: Option<&'a str>,
) -> Declared<'a> {
    Declared { id, min_os_version: min, public, shared, actions: &[] }
}

#[test]
fn what_a_manifest_may_declare() {
    let id = pkg("svc");
    let min = Version::new(0, 3, 0, 0);
    let host = Version::new(0, 3, 1, 0);
    assert!(verify_manifest(&declared(&id, &min, None, None), "svc", &host).is_ok());
    assert!(verify_manifest(&declared(&id, &min, Some("pub"), Some("shared")), "svc", &host).is_ok());
    assert!(verify_manifest(&declared(&id, &min, Some("a/b"), Some("a/c")), "svc", &min).is_ok());
    assert!(verify_manifest(&declared(&id, &min, Some("ab"), Some("a")), "svc", &host).is_ok());
}

#[test]
fn what_a_manifest_may_not_declare() {
    let id = pkg("svc");
    let min = Version::new(0, 3, 0, 0);
    let host = Version::new(0, 3, 1, 0);
    let old = Version::new(0, 2, 9, 9);
    let cases = [
        (declared(&id, &min, None, None), "svc", &old, ErrorKind::ValidateS9pk),
        (declared(&id, &min, None, None), "other", &host, ErrorKind::ValidateS9pk),
        (declared(&id, &min, Some("a"), Some("a/b")), "svc", &host, ErrorKind::ValidateS9pk),
        (declared(&id, &min, Some("a/b/c"), Some("a/b")), "svc", &host, ErrorKind::ValidateS9pk),
        (declared(&id, &min, Some("x"), Some("x")), "svc", &host, ErrorKind::ValidateS9pk),
        (declared(&id, &min, Some("../pub"), None), "svc", &host, ErrorKind::Pack),
        (declared(&id, &min, Some("pub"), Some("/shared")), "svc", &host, ErrorKind::Pack),
        (declared(&id, &min, Some("/p"), Some("/p/s")), "svc", &host, ErrorKind::ValidateS9pk),
    ];
    for (d, name, host, kind) in cases {
        assert_eq!(verify_manifest(&d, name, host).unwrap_err().kind, kind);
    }
}

static NO_RULES: Vec<ConfigRuleEntry> = Vec::new();

fn spec() -> ConfigSpec {
    ConfigSpec(vec![Field {
        name: "port".to_owned(),
        spec: ValueSpec::Number {
            range: None,
            integral: true,
            nullable: false,
            default: Some(Number::whole(80)),
        },
    }])
}

fn entries(names: &[&str]) -> Vec<String> {
    names.iter().map(|s| s.to_string()).collect()
}

const ALL: [&str; 5] =
    ["manifest.cbor", "config_spec.cbor", "config_rules.cbor", "instructions.md", "image.tar"];

#[test]
fn a_package_file_that_verifies() {
    let id = pkg("svc");
    let min = Version::new(0, 3, 0, 0);
    let spec = spec();
    let deps = OrderedMap::new();
    let mut rng = rand::rngs::StdRng::seed_from_u64(1);
    let with = Contents {
        entries: entries(&ALL),
        declared: declared(&id, &min, Some("public"), None),
        has_instructions: true,
        config_spec: &spec,
        dependencies: &deps,
        rules: &NO_RULES,
        image_tags: Some(tags(&["start9/svc:latest"])),
    };
    assert!(verify("/tmp/svc.s9pk", &with, &min, &mut rng, &None).is_ok());
    let without = Contents {
        entries: entries(&[ALL[0], ALL[1], ALL[2], ALL[4]]),
        declared: declared(&id, &min, None, None),
        has_instructions: false,
        config_spec: &spec,
        dependencies: &deps,
        rules: &NO_RULES,
        image_tags: Some(tags(&["start9/svc"])),
    };
    assert!(verify("svc.s9pk/", &without, &min, &mut rng, &None).is_ok());
}

#[test]
fn a_package_file_that_does_not_verify() {
    let id = pkg("svc");
    let min = Version::new(0, 3, 0, 0);
    let good = spec();
    let bad = ConfigSpec(vec![Field {
        name: "mode".to_owned(),
        spec: ValueSpec::Enum { values: vec![], default: "x".to_owned() },
    }]);
    let deps = OrderedMap::new();
    let mut rng = rand::rngs::StdRng::seed_from_u64(1);
    let contents = |e: &[&str], has: bool, spec, t: Option<&[&str]>| Contents {
        entries: entries(e),
        declared: declared(&id, &min, None, None),
        has_instructions: has,
        config_spec: spec,
        dependencies: &deps,
        rules: &NO_RULES,
        image_tags: t.map(tags),
    };
    let own: Option<&[&str]> = Some(&["start9/svc"]);
    let cases = vec![
        ("svc.zip", contents(&ALL, true, &good, own), ErrorKind::ValidateS9pk),
        ("svc", contents(&ALL, true, &good, own), ErrorKind::Pack),
        ("other.s9pk", contents(&ALL, true, &good, own), ErrorKind::ValidateS9pk),
        ("svc.s9pk", contents(&[], true, &good, own), ErrorKind::ValidateS9pk),
        ("svc.s9pk", contents(&ALL[1..], true, &good, own), ErrorKind::ValidateS9pk),
        ("svc.s9pk", contents(&ALL[..1], true, &good, own), ErrorKind::ValidateS9pk),
        ("svc.s9pk", contents(&ALL, true, &bad, own), ErrorKind::ValidateS9pk),
        ("svc.s9pk", contents(&ALL[..2], true, &good, own), ErrorKind::ValidateS9pk),
        ("svc.s9pk", contents(&ALL[..4], true, &good, own), ErrorKind::ValidateS9pk),
        ("svc.s9pk", contents(&ALL, true, &good, None), ErrorKind::ValidateS9pk),
        ("svc.s9pk", contents(&ALL, true, &good, Some(&["start9/x"])), ErrorKind::ValidateS9pk),
    ];
    for (path, c, kind) in cases {
        assert_eq!(verify(path, &c, &min, &mut rng, &None).unwrap_err().kind, kind, "{}", path);
    }
}

#[test]
fn asset_paths_default() {
    let a = Assets::default();
    assert_eq!(a.license_path(), "LICENSE.md");
    assert_eq!(a.icon_path(), "icon.png");
    assert_eq!(a.icon_type(), "png");
    assert_eq!(a.docker_images_path(), "images.tar");
    assert_eq!(a.instructions_path(), "INSTRUCTIONS.md");
}

#[test]
fn asset_paths_as_declared() {
    let a = Assets {
        license: Some("docs/LICENSE".to_owned()),
        icon: Some("art/logo.v2.svg".to_owned()),
        docker_images: Some("img.tar".to_owned()),
        instructions: Some("docs/README.md".to_owned()),
    };
    assert_eq!(a.license_path(), "docs/LICENSE");
    assert_eq!(a.icon_path(), "art/logo.v2.svg");
    assert_eq!(a.icon_type(), "svg");
    assert_eq!(a.docker_images_path(), "img.tar");
    assert_eq!(a.instructions_path(), "docs/README.md");
}

#[test]
fn icon_type_without_extension_is_png() {
    for icon in ["icon", ".hidden", "dir.d/icon", "icon/..", ""] {
        let a = Assets { license: None, icon: Some(icon.to_owned()), docker_images: None, instructions: None };
        assert_eq!(a.icon_type(), "png", "{}", icon);
    }
    let a = Assets { license: None, icon: Some("icon.".to_owned()), docker_images: None, instructions: None };
    assert_eq!(a.icon_type(), "");
}

#[test]
fn persisted_paths_are_taken_from_the_root() {
    assert_eq!(PERSISTENCE_DIR, "/root/appmgr");
    assert_eq!(TMP_DIR, "/root/tmp/appmgr");
    for p in ["apps/svc/config.yaml", "/apps/svc/config.yaml", "///apps/svc/config.yaml"] {
        let path = PersistencePath::from_ref(p);
        assert_eq!(path.path(), "/root/appmgr/apps/svc/config.yaml");
        assert_eq!(path.tmp(), "/root/tmp/appmgr/apps/svc/config.yaml");
        assert_eq!(path.lock_path(), "/root/appmgr/apps/svc/config.yaml.lock");
        assert_eq!(PersistencePath::new(p.to_owned()).path(), path.path());
    }
}

#[test]
fn persisted_paths_join() {
    let apps = PersistencePath::from_ref("apps");
    assert_eq!(apps.join("svc").path(), "/root/appmgr/apps/svc");
    assert_eq!(apps.join("svc/").join("x.yaml").path(), "/root/appmgr/apps/svc/x.yaml");
    assert_eq!(apps.join("/etc/passwd").path(), "/root/appmgr/etc/passwd");
    assert_eq!(PersistencePath::from_ref("").path(), "/root/appmgr/");
    assert_eq!(PersistencePath::from_ref("/").tmp(), "/root/tmp/appmgr/");
    assert_eq!(apps.clone().path(), apps.path());
}

#[test]
fn persisted_paths_agree_with_std() {
    for p in ["a", "/a/b", "a/b/"] {
        let rel = std::path::Path::new(p);
        let rel = if rel.has_root() { rel.strip_prefix("/").unwrap() } else { rel };
        let expected = std::path::Path::new(PERSISTENCE_DIR).join(rel);
        assert_eq!(PersistencePath::from_ref(p).path(), expected.to_str().unwrap());
    }
}

#[test]
fn static_options() {
    assert_eq!(SSome(5u8).into(), 5);
    assert_eq!(SSome::from("x").into(), "x");
    let _none: SNone<u8> = SNone::new();
}

#[test]
fn finished_commands() {
    let ok = invoke(
        Output { success: true, stdout: b"out".to_vec(), stderr: b"warn".to_vec() },
        ErrorKind::Docker,
    );
    assert_eq!(ok.unwrap(), b"out");
    let e = invoke(
        Output { success: false, stdout: b"out".to_vec(), stderr: b"no such image".to_vec() },
        ErrorKind::Docker,
    )
    .unwrap_err();
    assert_eq!((e.kind, e.message.as_str()), (ErrorKind::Docker, "no such image"));
    let e = invoke(
        Output { success: false, stdout: vec![], stderr: vec![0xff] },
        ErrorKind::Filesystem,
    )
    .unwrap_err();
    assert_eq!((e.kind, e.message.as_str()), (ErrorKind::Filesystem, "Unknown Error"));
    let _ = Failure { code: 0, stderr: String::new() };
}

#[test]
fn an_action_without_command_is_refused() {
    let id = pkg("svc");
    let min = Version::new(0, 3, 0, 0);
    let actions = vec![
        DeclaredAction { id: "backup".to_owned(), command: vec!["tar".to_owned()] },
        DeclaredAction { id: "reset".to_owned(), command: vec![] },
    ];
    let d = Declared { id: &id, min_os_version: &min, public: None, shared: None, actions: &actions };
    let e = verify_manifest(&d, "svc", &min).unwrap_err();
    assert_eq!(e.kind, ErrorKind::ValidateS9pk);
    assert_eq!(e.message, "Command Cannot Be Empty: reset");
    let d = Declared { actions: &actions[..1], ..d };
    assert!(verify_manifest(&d, "svc", &min).is_ok());
}

fn own(path: &[&str]) -> RuleValue {
    RuleValue::Var(RuleVar {
        package: None,
        path: ConfigSelector(path.iter().map(|s| s.to_string()).collect()),
    })
}

fn port_is(n: i64) -> ConfigRuleEntry {
    ConfigRuleEntry {
        rule: ConfigRule::Equals(own(&["port"]), RuleValue::Literal(Json::Number(Number::whole(n)))),
        description: format!("port has to be {}", n),
    }
}

#[test]
fn the_default_configuration_has_to_satisfy_the_rules() {
    let id = pkg("svc");
    let min = Version::new(0, 3, 0, 0);
    let spec = spec();
    let deps = OrderedMap::new();
    let mut rng = rand::rngs::StdRng::seed_from_u64(1);
    let contents = |rules| Contents {
        entries: entries(&ALL),
        declared: declared(&id, &min, None, None),
        has_instructions: true,
        config_spec: &spec,
        dependencies: &deps,
        rules,
        image_tags: Some(tags(&["start9/svc"])),
    };
    let kept = vec![port_is(80)];
    assert!(verify("svc.s9pk", &contents(&kept), &min, &mut rng, &None).is_ok());
    let broken = vec![port_is(80), port_is(81)];
    let e = verify("svc.s9pk", &contents(&broken), &min, &mut rng, &None).unwrap_err();
    assert_eq!(e.kind, ErrorKind::ValidateS9pk);
    let default = vec![Property { name: "port".to_owned(), value: Json::Number(Number::whole(80)) }];
    assert!(verify_rules(&kept, "svc", &default).is_ok());
    assert_eq!(verify_rules(&broken, "svc", &default).unwrap_err().kind, ErrorKind::ValidateS9pk);
    let through_name = vec![ConfigRuleEntry {
        rule: ConfigRule::And(
            Box::new(ConfigRule::Exists(RuleVar {
                package: Some("svc".to_owned()),
                path: ConfigSelector(vec!["port".to_owned()]),
            })),
            Box::new(ConfigRule::Not(Box::new(ConfigRule::Exists(RuleVar {
                package: Some("other".to_owned()),
                path: ConfigSelector(vec![]),
            })))),
        ),
        description: "svc has a port and there is no other".to_owned(),
    }];
    assert!(verify_rules(&through_name, "svc", &default).is_ok());
    assert!(verify_rules(&through_name, "other", &default).is_err());
}

#[test]
fn the_assets_between_the_instructions_and_the_image_are_passed_over() {
    let id = pkg("svc");
    let min = Version::new(0, 3, 0, 0);
    let spec = spec();
    let deps = OrderedMap::new();
    let mut rng = rand::rngs::StdRng::seed_from_u64(1);
    let planned = pack(
        "/work/svc",
        &VersionRange::Any,
        &min,
        true,
        &vec![
            Asset { src: "static".to_owned(), is_dir: true },
            Asset { src: "seed.db".to_owned(), is_dir: false },
        ],
    )
    .unwrap();
    let names: Vec<String> = planned.iter().map(|e| e.name.clone()).collect();
    assert_eq!(
        names,
        vec![
            "manifest.cbor",
            "config_spec.cbor",
            "config_rules.cbor",
            "instructions.md",
            "static",
            "APPMGR_DIR_END:static",
            "seed.db",
            "image.tar",
        ]
    );
    let contents = |entries| Contents {
        entries,
        declared: declared(&id, &min, None, None),
        has_instructions: true,
        config_spec: &spec,
        dependencies: &deps,
        rules: &NO_RULES,
        image_tags: Some(tags(&["start9/svc"])),
    };
    assert!(verify("svc.s9pk", &contents(names.clone()), &min, &mut rng, &None).is_ok());
    let mut without_image = names;
    without_image.pop();
    let e = verify("svc.s9pk", &contents(without_image), &min, &mut rng, &None).unwrap_err();
    assert_eq!(e.kind, ErrorKind::ValidateS9pk);
}
