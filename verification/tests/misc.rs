use embassy::action::{ActionId, ValuePrimative};
use embassy::config::value::{Json, Number, Property};
use embassy::context::{
    RpcContextConfig, SocketAddr, COOLDOWN_MS, DEFAULT_BIND_IP, DEFAULT_BIND_PORT,
};
use embassy::error::{Error, ErrorKind};
use embassy::id::{Id, InvalidId};
use embassy::migration::{Migration, Migrations};
use embassy::action::docker::{DockerAction, ImageId};
use embassy::action::ActionImplementation;
use embassy::ordered_map::OrderedMap;
use embassy::version::{Operator, Version, VersionRange};

const KINDS: [ErrorKind; 18] = [
    ErrorKind::Unknown,
    ErrorKind::Filesystem,
    ErrorKind::Docker,
    ErrorKind::ConfigSpecViolation,
    ErrorKind::ConfigRulesViolation,
    ErrorKind::NotFound,
    ErrorKind::VersionIncompatible,
    ErrorKind::Network,
    ErrorKind::Serialization,
    ErrorKind::Deserialization,
    ErrorKind::Pack,
    ErrorKind::ValidateS9pk,
    ErrorKind::ConfigGen,
    ErrorKind::Database,
    ErrorKind::Backup,
    ErrorKind::Restore,
    ErrorKind::Authorization,
    ErrorKind::AutoConfigure,
];

#[test]
fn exit_codes_are_distinct_and_never_zero() {
    let mut seen = std::collections::HashSet::new();
    for k in KINDS {
        assert_ne!(k.code(), 0);
        assert!(seen.insert(k.code()));
    }
    assert_eq!(ErrorKind::Unknown.code(), 1);
    assert_eq!(ErrorKind::Docker.code(), 3);
}

#[test]
fn which_kinds_are_recoverable() {
    let recoverable: Vec<ErrorKind> = KINDS.into_iter().filter(|k| k.recoverable()).collect();
    assert_eq!(
        recoverable,
        vec![
            ErrorKind::ConfigSpecViolation,
            ErrorKind::ConfigRulesViolation,
            ErrorKind::NotFound,
            ErrorKind::AutoConfigure,
        ]
    );
}

#[test]
fn errors_carry_kind_and_message() {
    let e = Error::of(ErrorKind::Network, "No available IP addresses");
    assert_eq!(e.kind, ErrorKind::Network);
    assert_eq!(e.message, "No available IP addresses");
    let c = e.clone();
    assert_eq!((c.kind, c.message), (e.kind, e.message));
    let e = Error::new("x".to_owned(), ErrorKind::Database);
    assert_eq!(e.message, "x");
}

#[test]
fn identifiers() {
    assert_eq!(Id::new("rpc-2").unwrap().as_str(), "rpc-2");
    assert!(Id::new("start9").is_ok());
    assert_eq!(Id::new("").unwrap_err(), InvalidId::Empty);
    assert_eq!(Id::new("a b").unwrap_err(), InvalidId::Character);
    assert_eq!(Id::new("é").unwrap_err(), InvalidId::Character);
    assert!(Id::new("a").unwrap().same(&Id::new("a").unwrap()));
    assert!(!Id::new("a").unwrap().same(&Id::new("b").unwrap()));
    assert_eq!(ActionId(Id::new("restart").unwrap()).as_str(), "restart");
}

#[test]
fn the_daemon_listens_on_localhost_5960_by_default() {
    assert_eq!(DEFAULT_BIND_IP, u32::from_be_bytes([127, 0, 0, 1]));
    assert_eq!(DEFAULT_BIND_PORT, 5960);
    assert_eq!(COOLDOWN_MS, 500);
    let setup = RpcContextConfig::default().init();
    assert_eq!(setup.bind, SocketAddr { ip: 0x7f000001, port: 5960 });
    assert_eq!(setup.db, "/mnt/embassy-os/embassy.db");
    assert_eq!(setup.secret_store, "/mnt/embassy-os/secrets.db");
}

#[test]
fn what_the_config_file_says_wins() {
    let setup = RpcContextConfig {
        bind: Some(SocketAddr { ip: 0, port: 80 }),
        db: Some("/tmp/db".to_owned()),
        secret_store: None,
    }
    .init();
    assert_eq!(setup.bind, SocketAddr { ip: 0, port: 80 });
    assert_eq!(setup.db, "/tmp/db");
    assert_eq!(setup.secret_store, "/mnt/embassy-os/secrets.db");
}

#[test]
fn values_shown_as_they_are() {
    assert!(matches!(ValuePrimative::deserialize(&Json::Null), Some(ValuePrimative::Null)));
    assert!(matches!(
        ValuePrimative::deserialize(&Json::Bool(true)),
        Some(ValuePrimative::Boolean(true))
    ));
    assert!(matches!(
        ValuePrimative::deserialize(&Json::String("x".to_owned())),
        Some(ValuePrimative::String(s)) if s == "x"
    ));
    assert!(matches!(
        ValuePrimative::deserialize(&Json::Number(Number::whole(7))),
        Some(ValuePrimative::Number(n)) if n.text == "7"
    ));
    assert!(ValuePrimative::deserialize(&Json::Array(vec![])).is_none());
    assert!(ValuePrimative::deserialize(&Json::Object(vec![Property {
        name: "a".to_owned(),
        value: Json::Null
    }]))
    .is_none());
}

fn action(entrypoint: &str) -> ActionImplementation {
    ActionImplementation::Docker(DockerAction {
        image: ImageId(Id::new("main").unwrap()),
        system: false,
        entrypoint: entrypoint.to_owned(),
        args: vec![],
        mounts: OrderedMap::new(),
        io_format: None,
        inject: false,
        shm_size_mb: None,
    })
}

fn entrypoint(a: Option<&ActionImplementation>) -> Option<&str> {
    a.map(|a| match a {
        ActionImplementation::Docker(d) => d.entrypoint.as_str(),
    })
}

#[test]
fn the_first_migration_whose_range_admits_the_version_is_taken() {
    let m = Migrations {
        from: vec![
            Migration {
                range: VersionRange::Anchor(Operator::Lt, Version::new(1, 0, 0, 0)),
                action: action("from-0"),
            },
            Migration { range: VersionRange::Any, action: action("from-any") },
        ],
        to: vec![Migration {
            range: VersionRange::Anchor(Operator::Eq, Version::new(2, 0, 0, 0)),
            action: action("to-2"),
        }],
    };
    assert_eq!(entrypoint(m.from_version(&Version::new(0, 9, 0, 0))), Some("from-0"));
    assert_eq!(entrypoint(m.from_version(&Version::new(1, 0, 0, 0))), Some("from-any"));
    assert_eq!(entrypoint(m.to_version(&Version::new(2, 0, 0, 0))), Some("to-2"));
    assert_eq!(entrypoint(m.to_version(&Version::new(2, 0, 0, 1))), None);
    let none = Migrations::default();
    assert!(none.from_version(&Version::new(1, 0, 0, 0)).is_none());
}

#[test]
fn ordered_maps_keep_insertion_order() {
    let mut m: OrderedMap<u32> = OrderedMap::new();
    assert_eq!(m.insert("b".to_owned(), 1), None);
    assert_eq!(m.insert("a".to_owned(), 2), None);
    assert_eq!(m.insert("c".to_owned(), 3), None);
    assert_eq!(m.insert("a".to_owned(), 20), Some(2));
    assert_eq!(m.len(), 3);
    assert_eq!((m.key_at(0), m.key_at(1), m.key_at(2)), ("b", "a", "c"));
    assert_eq!(m.get("a"), Some(&20));
    assert_eq!(m.get("zz"), None);
    assert!(m.contains_key("c"));
    assert_eq!(m.find("c"), Some(2));
    assert_eq!(m.remove("b"), Some(1));
    assert_eq!(m.remove("b"), None);
    assert_eq!((m.key_at(0), m.key_at(1)), ("a", "c"));
    assert_eq!(m.replace_value_at(1, 30), 3);
    m.set_value_at(0, 21);
    assert_eq!((m.value_at(0), m.value_at(1)), (&21, &30));
    let copy = m.clone();
    assert_eq!(copy.len(), 2);
    assert_eq!(copy.get("c"), Some(&30));
}
