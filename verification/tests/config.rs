use embassy::config::action::{ConfigActions, ConfigRes};
use embassy::config::configure::settle;
use embassy::config::pointer::PointerSources;
use embassy::config::spec::{
    ConfigSelector, ConfigSpec, DefaultString, Field, PackagePointerSpecVariant, Pattern,
    SystemPointerSpec, ValueSpec, ValueSpecPointer, Variant,
};
use embassy::config::value::{clone_config, get_property, same_configs, Json, Number, Property, TypeOf};
use embassy::config::{
    Bound, ConfigurationError, MatchError, NoMatchWithPath, NumRange, TimeoutError,
};
use embassy::action::docker::{DockerAction, Failure, ImageId};
use embassy::action::ActionImplementation;
use embassy::db::AllPackageData;
use embassy::dependencies::DepInfo;
use embassy::error::ErrorKind;
use embassy::id::{Id, PackageId};
use embassy::ordered_map::OrderedMap;
use embassy::version::VersionRange;
use rand::SeedableRng;

fn rng(seed: u64) -> rand::rngs::StdRng {
    rand::rngs::StdRng::seed_from_u64(seed)
}

fn num(n: i64) -> Json {
    Json::Number(Number::whole(n))
}

fn frac(text: &str, floor: i64) -> Json {
    Json::Number(Number { text: text.to_owned(), floor, integral: false })
}

fn text(s: &str) -> Json {
    Json::String(s.to_owned())
}

fn obj(props: Vec<(&str, Json)>) -> Json {
    Json::Object(config(props))
}

fn config(props: Vec<(&str, Json)>) -> Vec<Property> {
    props.into_iter().map(|(name, value)| Property { name: name.to_owned(), value }).collect()
}

fn field(name: &str, spec: ValueSpec) -> Field {
    Field { name: name.to_owned(), spec }
}

fn range(min: i64, max: i64) -> NumRange {
    NumRange {
        min: Some(Bound { value: min, inclusive: true }),
        max: Some(Bound { value: max, inclusive: true }),
    }
}

fn port_spec() -> ValueSpec {
    ValueSpec::Number {
        range: Some(range(1, 65535)),
        integral: true,
        nullable: false,
        default: Some(Number::whole(8080)),
    }
}

fn pattern(p: &str) -> Option<Pattern> {
    Some(Pattern { pattern: p.to_owned(), description: "letters".to_owned() })
}

fn svc() -> ConfigSpec {
    ConfigSpec(vec![
        field("port", port_spec()),
        field(
            "name",
            ValueSpec::String {
                pattern: pattern("^[a-z]+$"),
                nullable: false,
                default: Some(DefaultString::Literal("svc".to_owned())),
            },
        ),
        field("verbose", ValueSpec::Boolean { default: false }),
        field(
            "mode",
            ValueSpec::Enum {
                values: vec!["fast".to_owned(), "safe".to_owned()],
                default: "safe".to_owned(),
            },
        ),
        field(
            "peers",
            ValueSpec::List {
                inner: Box::new(ValueSpec::String {
                    pattern: None,
                    nullable: false,
                    default: Some(DefaultString::Literal("peer".to_owned())),
                }),
                range: NumRange { min: None, max: Some(Bound { value: 3, inclusive: false }) },
                unique: true,
                default: vec![text("a")],
            },
        ),
        field(
            "advanced",
            ValueSpec::Object {
                fields: vec![
                    field("threads", port_spec()),
                    field(
                        "password",
                        ValueSpec::String {
                            pattern: pattern("^[ab]{8}$"),
                            nullable: false,
                            default: Some(DefaultString::Entropy {
                                charset: vec!['a', 'b'],
                                len: 8,
                            }),
                        },
                    ),
                ],
                nullable: false,
            },
        ),
        field(
            "backend",
            ValueSpec::Union {
                tag: "type".to_owned(),
                variants: vec![
                    Variant { name: "internal".to_owned(), fields: vec![] },
                    Variant {
                        name: "external".to_owned(),
                        fields: vec![field("port", port_spec())],
                    },
                ],
                default: "external".to_owned(),
            },
        ),
    ])
}

fn path(e: &NoMatchWithPath) -> String {
    e.path_string()
}

fn check(spec: &ValueSpec, v: &Json) -> Option<MatchError> {
    match spec.matches(v) {
        Ok(()) => None,
        Err(e) => {
            assert!(e.path.is_empty());
            Some(e.error)
        }
    }
}

#[test]
fn kinds_of_values() {
    assert_eq!(Json::Null.type_of(), "null");
    assert_eq!(Json::Bool(true).type_of(), "boolean");
    assert_eq!(num(1).type_of(), "number");
    assert_eq!(text("a").type_of(), "string");
    assert_eq!(Json::Array(vec![]).type_of(), "list");
    assert_eq!(obj(vec![]).type_of(), "object");
}

#[test]
fn whole_numbers() {
    assert_eq!(Number::whole(0).text, "0");
    assert_eq!(Number::whole(-17).text, "-17");
    assert_eq!(Number::whole(i64::MIN).text, "-9223372036854775808");
    assert_eq!(Number::whole(i64::MAX).text, "9223372036854775807");
}

#[test]
fn same_documents() {
    let a = obj(vec![("x", num(1)), ("y", Json::Array(vec![text("a"), Json::Null]))]);
    let b = obj(vec![("y", Json::Array(vec![text("a"), Json::Null])), ("x", num(1))]);
    assert!(a.equals(&b));
    assert!(a.equals(&a.clone()));
    assert!(!a.equals(&obj(vec![("x", num(1))])));
    assert!(!a.equals(&obj(vec![("x", num(2)), ("y", Json::Array(vec![text("a"), Json::Null]))])));
    assert!(!Json::Array(vec![num(1), num(2)]).equals(&Json::Array(vec![num(2), num(1)])));
    assert!(!num(1).equals(&frac("1.0", 1)));
    assert!(!Json::Null.equals(&Json::Bool(false)));
    assert!(same_configs(&config(vec![("a", num(1))]), &config(vec![("a", num(1))])));
    assert!(!same_configs(&config(vec![("a", num(1))]), &config(vec![("b", num(1))])));
}

#[test]
fn port_must_be_in_range() {
    let spec = ConfigSpec(vec![field("port", port_spec())]);
    let e = spec.matches(&config(vec![("port", num(0))])).unwrap_err();
    assert_eq!(path(&e), "port");
    assert!(matches!(&e.error, MatchError::OutOfRange(r, n) if *r == range(1, 65535) && n.text == "0"));
    assert_eq!(e.to_string(), "port: Number Out Of Range: expected [1,65535], actual: 0");
    assert_eq!(ConfigurationError::NoMatch(e).kind(), ErrorKind::ConfigSpecViolation);
    assert!(spec.matches(&config(vec![("port", num(1))])).is_ok());
    assert!(spec.matches(&config(vec![("port", num(65535))])).is_ok());
    assert!(spec.matches(&config(vec![("port", num(65536))])).is_err());
}

#[test]
fn numbers() {
    let spec = port_spec();
    assert!(matches!(check(&spec, &frac("1.5", 1)), Some(MatchError::NonIntegral(n)) if n.text == "1.5"));
    assert!(matches!(check(&spec, &Json::Null), Some(MatchError::NotNullable)));
    assert!(matches!(
        check(&spec, &text("80")),
        Some(MatchError::InvalidType("number", "string"))
    ));
    let open = ValueSpec::Number {
        range: Some(NumRange {
            min: Some(Bound { value: 0, inclusive: false }),
            max: Some(Bound { value: 1, inclusive: false }),
        }),
        integral: false,
        nullable: true,
        default: None,
    };
    assert!(check(&open, &frac("0.5", 0)).is_none());
    assert!(check(&open, &Json::Null).is_none());
    assert!(matches!(check(&open, &num(0)), Some(MatchError::OutOfRange(..))));
    assert!(matches!(check(&open, &num(1)), Some(MatchError::OutOfRange(..))));
    assert!(matches!(check(&open, &frac("-0.5", -1)), Some(MatchError::OutOfRange(..))));
    let closed = ValueSpec::Number {
        range: Some(range(0, 1)),
        integral: false,
        nullable: false,
        default: Some(Number::whole(0)),
    };
    assert!(check(&closed, &num(1)).is_none());
    assert!(matches!(check(&closed, &frac("1.25", 1)), Some(MatchError::OutOfRange(..))));
}

#[test]
fn strings_and_patterns() {
    let spec = ValueSpec::String { pattern: pattern("^[a-z]+$"), nullable: true, default: None };
    assert!(check(&spec, &text("abc")).is_none());
    assert!(check(&spec, &Json::Null).is_none());
    assert!(matches!(
        check(&spec, &text("Abc")),
        Some(MatchError::Pattern(s, p)) if s == "Abc" && p == "^[a-z]+$"
    ));
    assert!(matches!(check(&spec, &num(1)), Some(MatchError::InvalidType("string", "number"))));
    let broken = ValueSpec::String { pattern: pattern("("), nullable: false, default: None };
    assert!(matches!(check(&broken, &text("x")), Some(MatchError::Pattern(..))));
}

#[test]
fn booleans_and_enums() {
    let b = ValueSpec::Boolean { default: true };
    assert!(check(&b, &Json::Bool(false)).is_none());
    assert!(matches!(check(&b, &Json::Null), Some(MatchError::InvalidType("boolean", "null"))));
    let e = ValueSpec::Enum { values: vec!["a".to_owned(), "b".to_owned()], default: "a".to_owned() };
    assert!(check(&e, &text("b")).is_none());
    assert!(matches!(
        check(&e, &text("c")),
        Some(MatchError::Enum(s, values)) if s == "c" && values == vec!["a", "b"]
    ));
    assert!(matches!(check(&e, &Json::Null), Some(MatchError::InvalidType("string", "null"))));
}

#[test]
fn lists() {
    let spec = ValueSpec::List {
        inner: Box::new(port_spec()),
        range: range(1, 3),
        unique: true,
        default: vec![num(1)],
    };
    assert!(check(&spec, &Json::Array(vec![num(1), num(2)])).is_none());
    assert!(matches!(
        check(&spec, &Json::Array(vec![])),
        Some(MatchError::LengthMismatch(r, 0)) if r == range(1, 3)
    ));
    assert!(matches!(
        check(&spec, &Json::Array(vec![num(1), num(2), num(3), num(4)])),
        Some(MatchError::LengthMismatch(_, 4))
    ));
    assert!(matches!(
        check(&spec, &Json::Array(vec![num(2), num(1), num(2)])),
        Some(MatchError::ListUniquenessViolation)
    ));
    assert!(matches!(check(&spec, &num(1)), Some(MatchError::InvalidType("list", "number"))));
    let e = spec.matches(&Json::Array(vec![num(5), num(0), num(70000)])).unwrap_err();
    assert_eq!(e.path, vec!["1"]);
    assert!(matches!(e.error, MatchError::OutOfRange(..)));
}

#[test]
fn objects_missing_properties_count_as_null_and_extra_ones_are_ignored() {
    let spec = ValueSpec::Object {
        fields: vec![
            field("a", ValueSpec::Boolean { default: true }),
            field("b", ValueSpec::Number { range: None, integral: false, nullable: true, default: None }),
        ],
        nullable: true,
    };
    assert!(check(&spec, &obj(vec![("a", Json::Bool(true)), ("zzz", num(1))])).is_none());
    assert!(check(&spec, &Json::Null).is_none());
    let e = spec.matches(&obj(vec![("b", num(1))])).unwrap_err();
    assert_eq!(e.path, vec!["a"]);
    assert!(matches!(e.error, MatchError::InvalidType("boolean", "null")));
    assert!(matches!(check(&spec, &Json::Array(vec![])), Some(MatchError::InvalidType("object", "list"))));
}

#[test]
fn the_path_runs_from_the_root_to_the_leaf() {
    let e = svc()
        .matches(&config(vec![
            ("port", num(1)),
            ("name", text("svc")),
            ("verbose", Json::Bool(true)),
            ("mode", text("fast")),
            ("peers", Json::Array(vec![])),
            ("advanced", obj(vec![("threads", num(2)), ("password", text("nope"))])),
        ]))
        .unwrap_err();
    assert_eq!(e.path, vec!["password", "advanced"]);
    assert_eq!(path(&e), "advanced.password");
    assert_eq!(
        e.to_string(),
        "advanced.password: String \"nope\" Does Not Match Pattern ^[ab]{8}$"
    );
}

#[test]
fn unions() {
    let spec = ValueSpec::Union {
        tag: "type".to_owned(),
        variants: vec![
            Variant { name: "internal".to_owned(), fields: vec![] },
            Variant { name: "external".to_owned(), fields: vec![field("port", port_spec())] },
        ],
        default: "internal".to_owned(),
    };
    assert!(check(&spec, &obj(vec![("type", text("internal"))])).is_none());
    assert!(check(&spec, &obj(vec![("type", text("external")), ("port", num(80))])).is_none());
    assert!(matches!(
        check(&spec, &obj(vec![("port", num(80))])),
        Some(MatchError::MissingTag(t)) if t == "type"
    ));
    assert!(matches!(
        check(&spec, &obj(vec![("type", text("other"))])),
        Some(MatchError::Union(v, names)) if v == "other" && names == vec!["internal", "external"]
    ));
    let e = spec.matches(&obj(vec![("type", text("external"))])).unwrap_err();
    assert_eq!(e.path, vec!["port"]);
    assert!(matches!(e.error, MatchError::NotNullable));
    let e = spec.matches(&obj(vec![("type", num(1))])).unwrap_err();
    assert_eq!(e.path, vec!["type"]);
    assert!(matches!(e.error, MatchError::InvalidType("string", "number")));
    assert!(matches!(check(&spec, &Json::Null), Some(MatchError::InvalidType("object", "null"))));
}

#[test]
fn a_pointer_matches_anything() {
    let spec = ValueSpec::Pointer(ValueSpecPointer::System(SystemPointerSpec::HostIp));
    for v in [Json::Null, num(1), text("x"), obj(vec![])] {
        assert!(check(&spec, &v).is_none());
    }
}

#[test]
fn the_generated_config_matches_for_every_seed() {
    let spec = svc();
    assert!(spec.validate(&OrderedMap::new()).is_ok());
    for seed in 0..40 {
        let c = spec.gen(&mut rng(seed), &None).unwrap();
        assert!(spec.matches(&c).is_ok());
        assert!(matches!(get_property(&c, "port"), Some(Json::Number(n)) if n.floor == 8080));
        assert!(matches!(get_property(&c, "name"), Some(Json::String(s)) if s == "svc"));
        assert!(matches!(get_property(&c, "mode"), Some(Json::String(s)) if s == "safe"));
        match get_property(&c, "backend") {
            Some(Json::Object(props)) => {
                assert!(matches!(get_property(props, "type"), Some(Json::String(s)) if s == "external"));
                assert!(get_property(props, "port").is_some());
            }
            other => panic!("{:?}", other),
        }
        match get_property(&c, "advanced") {
            Some(Json::Object(props)) => match get_property(props, "password") {
                Some(Json::String(p)) => {
                    assert_eq!(p.len(), 8);
                    assert!(p.chars().all(|c| c == 'a' || c == 'b'));
                }
                other => panic!("{:?}", other),
            },
            other => panic!("{:?}", other),
        }
    }
}

#[test]
fn generation_is_determined_by_the_seed() {
    let spec = svc();
    let a = spec.gen(&mut rng(7), &None).unwrap();
    let b = spec.gen(&mut rng(7), &None).unwrap();
    assert!(same_configs(&a, &b));
    let differs = (0..20).any(|seed| !same_configs(&a, &spec.gen(&mut rng(seed), &None).unwrap()));
    assert!(differs);
}

#[test]
fn a_pattern_that_the_charset_cannot_meet_times_out() {
    let spec = ValueSpec::String {
        pattern: pattern("^c+$"),
        nullable: false,
        default: Some(DefaultString::Entropy { charset: vec!['a', 'b'], len: 4 }),
    };
    assert!(spec.validate().is_ok());
    let r = spec.gen(&mut rng(1), &Some(50));
    assert!(matches!(r, Err(ConfigurationError::TimeoutError(TimeoutError))));
    assert_eq!(r.unwrap_err().kind(), ErrorKind::ConfigGen);
    let r = spec.gen(&mut rng(1), &Some(0));
    assert!(matches!(r, Err(ConfigurationError::TimeoutError(_))));
}

#[test]
fn a_rare_pattern_is_met_within_the_timeout() {
    let spec = ValueSpec::String {
        pattern: pattern("^a{6}$"),
        nullable: false,
        default: Some(DefaultString::Entropy { charset: vec!['a', 'b'], len: 6 }),
    };
    let v = spec.gen(&mut rng(3), &Some(100000)).unwrap();
    assert!(matches!(v, Json::String(s) if s == "aaaaaa"));
}

#[test]
fn unsound_schemas_are_refused() {
    let bad_default = ValueSpec::Number {
        range: Some(range(1, 10)),
        integral: true,
        nullable: false,
        default: Some(Number::whole(11)),
    };
    assert!(matches!(bad_default.validate().unwrap_err().error, MatchError::OutOfRange(..)));
    let no_default = ValueSpec::Number { range: None, integral: true, nullable: false, default: None };
    assert!(matches!(no_default.validate().unwrap_err().error, MatchError::NotNullable));
    let bad_enum = ValueSpec::Enum { values: vec!["a".to_owned()], default: "b".to_owned() };
    assert!(matches!(bad_enum.validate().unwrap_err().error, MatchError::Enum(..)));
    let bad_literal = ValueSpec::String {
        pattern: pattern("^[0-9]+$"),
        nullable: false,
        default: Some(DefaultString::Literal("abc".to_owned())),
    };
    assert!(matches!(bad_literal.validate().unwrap_err().error, MatchError::Pattern(..)));
    let empty_charset = ValueSpec::String {
        pattern: None,
        nullable: false,
        default: Some(DefaultString::Entropy { charset: vec![], len: 4 }),
    };
    assert!(empty_charset.validate().is_err());
    let bad_list = ValueSpec::List {
        inner: Box::new(port_spec()),
        range: range(0, 1),
        unique: false,
        default: vec![num(1), num(2)],
    };
    assert!(matches!(bad_list.validate().unwrap_err().error, MatchError::LengthMismatch(..)));
    let twice = ValueSpec::Object {
        fields: vec![field("a", port_spec()), field("b", port_spec()), field("a", port_spec())],
        nullable: false,
    };
    assert!(matches!(twice.validate().unwrap_err().error, MatchError::InvalidKey(k) if k == "a"));
    let tagged = ValueSpec::Union {
        tag: "type".to_owned(),
        variants: vec![Variant { name: "v".to_owned(), fields: vec![field("type", port_spec())] }],
        default: "v".to_owned(),
    };
    assert!(matches!(
        tagged.validate().unwrap_err().error,
        MatchError::PropertyMatchesUnionTag(p, v) if p == "type" && v == "v"
    ));
    let no_variant = ValueSpec::Union { tag: "type".to_owned(), variants: vec![], default: "v".to_owned() };
    assert!(matches!(no_variant.validate().unwrap_err().error, MatchError::Union(..)));
    let nested = ConfigSpec(vec![field(
        "outer",
        ValueSpec::Object { fields: vec![field("inner", bad_default_again())], nullable: false },
    )]);
    let e = nested.validate(&OrderedMap::new()).unwrap_err();
    assert_eq!(e.path_string(), "outer.inner");
}

fn bad_default_again() -> ValueSpec {
    ValueSpec::Enum { values: vec![], default: "x".to_owned() }
}

fn pointer_to(package: &str) -> ValueSpec {
    ValueSpec::Pointer(ValueSpecPointer::Package {
        package_id: PackageId::new(package).unwrap(),
        target: PackagePointerSpecVariant::Config {
            selector: ConfigSelector(vec!["rpc".to_owned(), "port".to_owned()]),
            multi: false,
        },
    })
}

#[test]
fn pointers_have_to_look_into_declared_dependencies() {
    let spec = ConfigSpec(vec![field("btc-port", pointer_to("bitcoind"))]);
    let e = spec.validate(&OrderedMap::new()).unwrap_err();
    assert_eq!(e.path, vec!["btc-port"]);
    assert!(matches!(e.error, MatchError::InvalidPointer(_)));
    assert_eq!(e.to_string(), "btc-port: Pointer Is Invalid: bitcoind");
    let mut deps = OrderedMap::new();
    deps.insert(
        "bitcoind".to_owned(),
        DepInfo { version: VersionRange::Any, optional: None, description: None, config: None },
    );
    assert!(spec.validate(&deps).is_ok());
}

fn bitcoind_config(port: i64) -> Vec<Property> {
    config(vec![("rpc", obj(vec![("port", num(port)), ("user", text("u"))]))])
}

#[test]
fn refreshing_pointers_writes_what_they_resolve_to() {
    let spec = ConfigSpec(vec![
        field("port", port_spec()),
        field("btc-port", pointer_to("bitcoind")),
        field(
            "advanced",
            ValueSpec::Object { fields: vec![field("host", ValueSpec::Pointer(
                ValueSpecPointer::System(SystemPointerSpec::HostIp),
            ))], nullable: false },
        ),
        field("lnd-port", pointer_to("lnd")),
    ]);
    let db = AllPackageData(OrderedMap::new());
    let overrides = OrderedMap::new();
    let mut configs = OrderedMap::new();
    configs.insert("bitcoind".to_owned(), bitcoind_config(8332));
    let sources = PointerSources { db: &db, overrides: &overrides, configs: &configs };
    let mut c = config(vec![
        ("btc-port", text("stale")),
        ("port", num(80)),
        ("advanced", obj(vec![("x", num(1))])),
    ]);
    assert!(spec.matches(&c).is_ok());
    spec.update(&sources, &mut c);
    assert!(spec.matches(&c).is_ok());
    let names: Vec<&str> = c.iter().map(|p| p.name.as_str()).collect();
    assert_eq!(names, vec!["btc-port", "port", "advanced", "lnd-port"]);
    assert!(get_property(&c, "btc-port").unwrap().equals(&num(8332)));
    assert!(get_property(&c, "port").unwrap().equals(&num(80)));
    assert!(get_property(&c, "lnd-port").unwrap().equals(&Json::Null));
    assert!(get_property(&c, "advanced")
        .unwrap()
        .equals(&obj(vec![("x", num(1)), ("host", text("172.18.0.1"))])));
}

fn peers_spec() -> ValueSpec {
    ValueSpec::List {
        inner: Box::new(ValueSpec::Object {
            fields: vec![
                field("name", ValueSpec::String { pattern: None, nullable: true, default: None }),
                field("port", pointer_to("bitcoind")),
            ],
            nullable: false,
        }),
        range: NumRange { min: None, max: None },
        unique: false,
        default: vec![],
    }
}

fn backend_spec() -> ValueSpec {
    ValueSpec::Union {
        tag: "kind".to_owned(),
        variants: vec![
            Variant { name: "internal".to_owned(), fields: vec![field("port", pointer_to("bitcoind"))] },
            Variant {
                name: "external".to_owned(),
                fields: vec![field("address", ValueSpec::String {
                    pattern: None,
                    nullable: true,
                    default: None,
                })],
            },
        ],
        default: "external".to_owned(),
    }
}

#[test]
fn pointers_inside_lists_and_unions_are_refreshed_too() {
    let spec = ConfigSpec(vec![field("peers", peers_spec()), field("backend", backend_spec())]);
    let db = AllPackageData(OrderedMap::new());
    let overrides = OrderedMap::new();
    let mut configs = OrderedMap::new();
    configs.insert("bitcoind".to_owned(), bitcoind_config(8332));
    let sources = PointerSources { db: &db, overrides: &overrides, configs: &configs };
    let mut c = config(vec![
        (
            "peers",
            Json::Array(vec![
                obj(vec![("name", text("a")), ("port", num(1))]),
                obj(vec![("name", text("b"))]),
            ]),
        ),
        ("backend", obj(vec![("kind", text("internal")), ("port", text("stale"))])),
    ]);
    assert!(spec.matches(&c).is_ok());
    spec.update(&sources, &mut c);
    assert!(spec.matches(&c).is_ok());
    assert!(get_property(&c, "peers").unwrap().equals(&Json::Array(vec![
        obj(vec![("name", text("a")), ("port", num(8332))]),
        obj(vec![("name", text("b")), ("port", num(8332))]),
    ])));
    assert!(get_property(&c, "backend")
        .unwrap()
        .equals(&obj(vec![("kind", text("internal")), ("port", num(8332))])));
}

#[test]
fn only_the_variant_that_the_tag_names_is_refreshed() {
    let spec = ConfigSpec(vec![field("backend", backend_spec())]);
    let db = AllPackageData(OrderedMap::new());
    let overrides = OrderedMap::new();
    let mut configs = OrderedMap::new();
    configs.insert("bitcoind".to_owned(), bitcoind_config(8332));
    let sources = PointerSources { db: &db, overrides: &overrides, configs: &configs };
    let external = obj(vec![("kind", text("external")), ("address", text("10.0.0.1"))]);
    let mut c = config(vec![("backend", external.clone())]);
    spec.update(&sources, &mut c);
    assert!(get_property(&c, "backend").unwrap().equals(&external));
    let unknown = obj(vec![("kind", text("elsewhere"))]);
    let mut c = config(vec![("backend", unknown.clone())]);
    spec.update(&sources, &mut c);
    assert!(get_property(&c, "backend").unwrap().equals(&unknown));
    let mut c = config(vec![("backend", text("none"))]);
    spec.update(&sources, &mut c);
    assert!(get_property(&c, "backend").unwrap().equals(&text("none")));
    let mut c = vec![];
    spec.update(&sources, &mut c);
    assert!(c.is_empty());
}

#[test]
fn pointers_inside_lists_and_unions_have_to_be_declared_too() {
    let in_list = ConfigSpec(vec![field("peers", peers_spec())]);
    let e = in_list.validate(&OrderedMap::new()).unwrap_err();
    assert_eq!(e.path_string(), "peers.port");
    assert!(matches!(e.error, MatchError::InvalidPointer(_)));
    let in_union = ConfigSpec(vec![field("backend", backend_spec())]);
    let e = in_union.validate(&OrderedMap::new()).unwrap_err();
    assert_eq!(e.path_string(), "backend.internal.port");
    assert!(matches!(e.error, MatchError::InvalidPointer(_)));
    let mut deps = OrderedMap::new();
    deps.insert(
        "bitcoind".to_owned(),
        DepInfo { version: VersionRange::Any, optional: None, description: None, config: None },
    );
    assert!(in_list.validate(&deps).is_ok());
    assert!(in_union.validate(&deps).is_ok());
}

#[test]
fn defaults_are_generated_as_declared() {
    let spec = ConfigSpec(vec![
        field("port", port_spec()),
        field("on", ValueSpec::Boolean { default: true }),
        field("backend", backend_spec()),
        field("btc", pointer_to("bitcoind")),
        field("peers", peers_spec()),
    ]);
    let made = spec.gen(&mut rng(1), &Some(0)).unwrap();
    let names: Vec<&str> = made.iter().map(|p| p.name.as_str()).collect();
    assert_eq!(names, vec!["port", "on", "backend", "btc", "peers"]);
    assert!(made[0].value.equals(&num(8080)));
    assert!(made[1].value.equals(&Json::Bool(true)));
    assert!(made[2].value.equals(&obj(vec![("kind", text("external")), ("address", Json::Null)])));
    assert!(made[3].value.equals(&Json::Null));
    assert!(made[4].value.equals(&Json::Array(vec![])));
}

#[test]
fn a_union_whose_default_names_no_variant_cannot_be_generated() {
    let spec = ValueSpec::Union { tag: "kind".to_owned(), variants: vec![], default: "x".to_owned() };
    match spec.gen(&mut rng(1), &None) {
        Err(ConfigurationError::NoMatch(e)) => {
            assert!(matches!(e.error, MatchError::Union(_, _)));
        }
        other => panic!("{:?}", other),
    }
}

#[test]
fn a_config_written_in_this_run_is_read_before_the_one_the_package_has() {
    let spec = ConfigSpec(vec![field("btc-port", pointer_to("bitcoind"))]);
    let db = AllPackageData(OrderedMap::new());
    let mut overrides = OrderedMap::new();
    overrides.insert("bitcoind".to_owned(), bitcoind_config(9999));
    let mut configs = OrderedMap::new();
    configs.insert("bitcoind".to_owned(), bitcoind_config(8332));
    let sources = PointerSources { db: &db, overrides: &overrides, configs: &configs };
    let mut c = vec![];
    spec.update(&sources, &mut c);
    assert!(get_property(&c, "btc-port").unwrap().equals(&num(9999)));
}

#[test]
fn selectors() {
    let doc = obj(vec![("rpc", obj(vec![("port", num(8332))]))]);
    let port = ConfigSelector(vec!["rpc".to_owned(), "port".to_owned()]);
    assert!(port.select(false, &doc).equals(&num(8332)));
    assert!(port.select(true, &doc).equals(&Json::Array(vec![num(8332)])));
    let missing = ConfigSelector(vec!["rpc".to_owned(), "user".to_owned()]);
    assert!(missing.select(false, &doc).equals(&Json::Null));
    assert!(missing.select(true, &doc).equals(&Json::Array(vec![])));
    let through = ConfigSelector(vec!["rpc".to_owned(), "port".to_owned(), "x".to_owned()]);
    assert!(through.select(false, &doc).equals(&Json::Null));
    assert!(ConfigSelector(vec![]).select(false, &doc).equals(&doc));
}

fn current(c: Option<Vec<Property>>) -> ConfigRes {
    ConfigRes { config: c, spec: ConfigSpec(vec![field("port", port_spec())]) }
}

fn no_sources<T>(f: impl FnOnce(&PointerSources) -> T) -> T {
    let db = AllPackageData(OrderedMap::new());
    let overrides = OrderedMap::new();
    let configs = OrderedMap::new();
    f(&PointerSources { db: &db, overrides: &overrides, configs: &configs })
}

#[test]
fn a_supplied_config_that_violates_the_schema_is_refused_with_its_path() {
    let r = no_sources(|s| {
        settle(
            &current(Some(config(vec![("port", num(80))]))),
            Some(config(vec![("port", num(0))])),
            s,
            &mut rng(0),
            &None,
        )
    });
    match r {
        Err(e) => {
            assert_eq!(e.kind(), ErrorKind::ConfigSpecViolation);
            match e {
                ConfigurationError::NoMatch(e) => assert_eq!(e.path_string(), "port"),
                other => panic!("{:?}", other),
            }
        }
        Ok(c) => panic!("{:?}", c),
    }
}

#[test]
fn the_supplied_config_is_taken_and_compared_with_the_current_one() {
    let now = current(Some(config(vec![("port", num(80))])));
    let same = no_sources(|s| {
        settle(&now, Some(config(vec![("port", num(80))])), s, &mut rng(0), &None).unwrap()
    });
    assert!(!same.changed);
    let other = no_sources(|s| {
        settle(&now, Some(config(vec![("port", num(81))])), s, &mut rng(0), &None).unwrap()
    });
    assert!(other.changed);
    assert!(same_configs(&other.config, &config(vec![("port", num(81))])));
}

#[test]
fn without_a_supplied_config_the_current_one_is_kept_or_one_is_generated() {
    let now = current(Some(config(vec![("port", num(443))])));
    let kept = no_sources(|s| settle(&now, None, s, &mut rng(0), &None).unwrap());
    assert!(!kept.changed);
    assert!(same_configs(&kept.config, &clone_config(now.config.as_ref().unwrap())));
    let fresh = no_sources(|s| settle(&current(None), None, s, &mut rng(0), &None).unwrap());
    assert!(fresh.changed);
    assert!(same_configs(&fresh.config, &config(vec![("port", num(8080))])));
}

fn action(entrypoint: &str) -> ActionImplementation {
    ActionImplementation::Docker(DockerAction {
        image: ImageId(Id::new("main").unwrap()),
        system: false,
        entrypoint: entrypoint.to_owned(),
        args: vec![],
        mounts: OrderedMap::new(),
        io_format: None,
        inject: false,
        shm_size_mb: None,
    })
}

#[test]
fn outcomes_of_the_config_actions() {
    let actions = ConfigActions { get: action("get"), set: action("set") };
    let e = actions
        .get(Err(Failure { code: 1, stderr: "no config".to_owned() }))
        .err()
        .unwrap();
    assert_eq!((e.kind, e.message.as_str()), (ErrorKind::ConfigGen, "no config"));
    assert!(actions.get(Ok(current(None))).is_ok());
    let mut deps = OrderedMap::new();
    deps.insert(
        "bitcoind".to_owned(),
        DepInfo { version: VersionRange::Any, optional: None, description: None, config: None },
    );
    let mut used = OrderedMap::new();
    used.insert("lnd".to_owned(), vec!["grpc".to_owned()]);
    used.insert("bitcoind".to_owned(), vec!["rpc".to_owned(), "peer".to_owned()]);
    used.insert("tor".to_owned(), vec![]);
    let kept = actions.set(&deps, Ok(used)).unwrap();
    assert_eq!(kept.len(), 1);
    assert_eq!(kept.key_at(0), "bitcoind");
    assert_eq!(kept.value_at(0), &vec!["rpc".to_owned(), "peer".to_owned()]);
    let e = actions
        .set(&deps, Err(Failure { code: 1, stderr: "port clash".to_owned() }))
        .unwrap_err();
    assert_eq!((e.kind, e.message.as_str()), (ErrorKind::ConfigRulesViolation, "port clash"));
}

#[test]
fn messages_of_match_errors() {
    let cases: Vec<(MatchError, &str)> = vec![
        (
            MatchError::Pattern("a\"b".to_owned(), "^x$".to_owned()),
            "String \"a\\\"b\" Does Not Match Pattern ^x$",
        ),
        (
            MatchError::Enum("c".to_owned(), vec!["a".to_owned(), "b".to_owned()]),
            "String \"c\" Is Not In Enum {\"a\", \"b\"}",
        ),
        (MatchError::NotNullable, "Field Is Not Nullable"),
        (
            MatchError::LengthMismatch(
                NumRange { min: Some(Bound { value: 1, inclusive: true }), max: None },
                0,
            ),
            "Length Mismatch: expected [1,*), actual: 0",
        ),
        (MatchError::InvalidType("list", "null"), "Invalid Type: expected list, actual: null"),
        (
            MatchError::OutOfRange(
                NumRange {
                    min: None,
                    max: Some(Bound { value: -5, inclusive: false }),
                },
                Number { text: "2.5".to_owned(), floor: 2, integral: false },
            ),
            "Number Out Of Range: expected (*,-5), actual: 2.5",
        ),
        (
            MatchError::NonIntegral(Number { text: "2.5".to_owned(), floor: 2, integral: false }),
            "Number Is Not Integral: 2.5",
        ),
        (MatchError::Union("v".to_owned(), vec![]), "Variant \"v\" Is Not In Union {}"),
        (MatchError::MissingTag("type".to_owned()), "Variant Is Missing Tag \"type\""),
        (
            MatchError::PropertyMatchesUnionTag("type".to_owned(), "v".to_owned()),
            "Property \"type\" Of Variant \"v\" Conflicts With Union Tag",
        ),
        (
            MatchError::PropertyNameMatchesMapTag("k".to_owned()),
            "Name of Property \"k\" Conflicts With Map Tag Name",
        ),
        (
            MatchError::InvalidPointer(ValueSpecPointer::System(SystemPointerSpec::HostIp)),
            "Pointer Is Invalid: system",
        ),
        (MatchError::InvalidKey("a b".to_owned()), "Object Key Is Invalid: a b"),
        (MatchError::ListUniquenessViolation, "Value In List Is Not Unique"),
    ];
    for (e, want) in cases {
        assert_eq!(e.to_string(), want);
    }
}

#[test]
fn prepend_adds_the_outer_segment() {
    let e = NoMatchWithPath::new(MatchError::NotNullable);
    assert_eq!(e.to_string(), ": Field Is Not Nullable");
    let e = e.prepend("leaf".to_owned()).prepend("mid".to_owned()).prepend("root".to_owned());
    assert_eq!(e.path, vec!["leaf", "mid", "root"]);
    assert_eq!(e.to_string(), "root.mid.leaf: Field Is Not Nullable");
}

#[test]
fn the_first_defect_of_a_schema_is_the_one_reported() {
    let bad_enum = || ValueSpec::Enum { values: vec!["a".to_owned()], default: "z".to_owned() };
    let fine = || ValueSpec::Boolean { default: false };
    let e = ValueSpec::Object {
        fields: vec![field("x", fine()), field("x", fine()), field("y", bad_enum())],
        nullable: false,
    }
    .validate()
    .unwrap_err();
    assert_eq!(e.path_string(), "y");
    assert!(matches!(e.error, MatchError::Enum(_, _)));
    let e = ValueSpec::Object {
        fields: vec![field("x", fine()), field("y", fine()), field("y", fine()), field("x", fine())],
        nullable: false,
    }
    .validate()
    .unwrap_err();
    assert_eq!(e.path_string(), "");
    assert!(matches!(&e.error, MatchError::InvalidKey(k) if k == "y"));
    let union = |variants| ValueSpec::Union {
        tag: "kind".to_owned(),
        variants,
        default: "one".to_owned(),
    };
    let e = union(vec![
        Variant { name: "one".to_owned(), fields: vec![field("kind", fine())] },
        Variant { name: "two".to_owned(), fields: vec![field("y", bad_enum())] },
    ])
    .validate()
    .unwrap_err();
    assert!(matches!(&e.error, MatchError::PropertyMatchesUnionTag(t, v) if t == "kind" && v == "one"));
    let e = union(vec![
        Variant { name: "one".to_owned(), fields: vec![field("kind", bad_enum())] },
    ])
    .validate()
    .unwrap_err();
    assert_eq!(e.path_string(), "one.kind");
    assert!(matches!(e.error, MatchError::Enum(_, _)));
    let e = ValueSpec::List {
        inner: Box::new(bad_enum()),
        range: range(5, 6),
        unique: false,
        default: vec![],
    }
    .validate()
    .unwrap_err();
    assert!(matches!(e.error, MatchError::Enum(_, _)));
    let spec = ConfigSpec(vec![
        field("p", pointer_to("bitcoind")),
        field("q", fine()),
        field("q", fine()),
    ]);
    let e = spec.validate(&OrderedMap::new()).unwrap_err();
    assert!(matches!(&e.error, MatchError::InvalidKey(k) if k == "q"));
}
