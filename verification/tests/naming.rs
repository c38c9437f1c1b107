use embassy::action::docker::DockerAction;
use embassy::id::{InvalidId, PackageId};
use embassy::version::Version;

#[test]
fn container_name_of_a_plain_version() {
    let id = PackageId::new("svc").unwrap();
    let name = DockerAction::container_name(&id, &Version::new(1, 0, 0, 0));
    assert_eq!(name, "service_svc_1.0.0");
}

#[test]
fn container_name_with_revision() {
    let id = PackageId::new("bitcoind").unwrap();
    let name = DockerAction::container_name(&id, &Version::new(0, 21, 1, 3));
    assert_eq!(name, "service_bitcoind_0.21.1.3");
}

#[test]
fn uncontainer_name_reads_the_package_back() {
    let id = PackageId::new("my-svc").unwrap();
    let name = DockerAction::container_name(&id, &Version::new(12, 0, 7, 0));
    assert_eq!(DockerAction::uncontainer_name(&name), Some("my-svc"));
}

#[test]
fn uncontainer_name_without_prefix() {
    assert_eq!(DockerAction::uncontainer_name("other_svc_1.0.0"), None);
    assert_eq!(DockerAction::uncontainer_name("service"), None);
}

#[test]
fn uncontainer_name_without_separator() {
    assert_eq!(DockerAction::uncontainer_name("service_svc"), Some("svc"));
    assert_eq!(DockerAction::uncontainer_name("service_"), Some(""));
}

#[test]
fn package_id_rules() {
    assert!(PackageId::new("svc").is_ok());
    assert!(PackageId::new("a-b-9").is_ok());
    assert_eq!(PackageId::new("").err(), Some(InvalidId::Empty));
    assert_eq!(PackageId::new("a_b").err(), Some(InvalidId::Character));
    assert_eq!(PackageId::new("a/b").err(), Some(InvalidId::Character));
    assert_eq!(PackageId::new("start9-x").err(), Some(InvalidId::Reserved));
}
