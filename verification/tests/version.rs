use embassy::version::{migrate_to, MigrationStep, Operator, Order, Version, VersionRange};
use std::str::FromStr;

fn theirs(v: Version) -> emver::Version {
    emver::Version::new(
        v.major as usize,
        v.minor as usize,
        v.patch as usize,
        v.revision as usize,
    )
}

#[test]
fn version_text_leaves_out_a_zero_revision() {
    assert_eq!(Version::new(1, 2, 3, 0).to_string(), "1.2.3");
    assert_eq!(Version::new(0, 0, 0, 0).to_string(), "0.0.0");
}

#[test]
fn version_text_shows_a_revision() {
    assert_eq!(Version::new(1, 2, 3, 4).to_string(), "1.2.3.4");
    assert_eq!(Version::new(10, 200, 3000, 40000).to_string(), "10.200.3000.40000");
}

#[test]
fn version_text_of_the_greatest_numbers() {
    assert_eq!(
        Version::new(u64::MAX, 0, 9, 0).to_string(),
        "18446744073709551615.0.9"
    );
}

#[test]
fn version_text_is_the_one_emver_prints() {
    for v in [
        Version::new(0, 3, 0, 0),
        Version::new(1, 0, 0, 1),
        Version::new(12, 34, 56, 78),
    ] {
        assert_eq!(v.to_string(), theirs(v).to_string());
        assert_eq!(emver::Version::from_str(&v.to_string()).unwrap(), theirs(v));
    }
}

#[test]
fn versions_compare_part_by_part() {
    let a = Version::new(1, 2, 3, 4);
    assert_eq!(a.compare(&Version::new(1, 2, 3, 4)), Order::Equal);
    assert_eq!(a.compare(&Version::new(2, 0, 0, 0)), Order::Less);
    assert_eq!(a.compare(&Version::new(1, 3, 0, 0)), Order::Less);
    assert_eq!(a.compare(&Version::new(1, 2, 4, 0)), Order::Less);
    assert_eq!(a.compare(&Version::new(1, 2, 3, 5)), Order::Less);
    assert_eq!(a.compare(&Version::new(0, 9, 9, 9)), Order::Greater);
    assert_eq!(a.compare(&Version::new(1, 2, 3, 3)), Order::Greater);
}

#[test]
fn version_order_agrees_with_emver() {
    let all = [
        Version::new(0, 0, 0, 0),
        Version::new(0, 0, 0, 1),
        Version::new(0, 1, 0, 0),
        Version::new(1, 0, 0, 0),
        Version::new(1, 0, 2, 0),
        Version::new(1, 0, 2, 7),
    ];
    for a in all {
        for b in all {
            let ours = a.compare(&b);
            let expected = match theirs(a).cmp(&theirs(b)) {
                std::cmp::Ordering::Less => Order::Less,
                std::cmp::Ordering::Equal => Order::Equal,
                std::cmp::Ordering::Greater => Order::Greater,
            };
            assert_eq!(ours, expected);
        }
    }
}

fn caret_one() -> VersionRange {
    VersionRange::conj(
        VersionRange::Anchor(Operator::Gte, Version::new(1, 0, 0, 0)),
        VersionRange::Anchor(Operator::Lt, Version::new(2, 0, 0, 0)),
    )
}

#[test]
fn range_admits_what_lies_between_its_anchors() {
    let r = caret_one();
    assert!(Version::new(1, 0, 0, 0).satisfies(&r));
    assert!(Version::new(1, 9, 9, 9).satisfies(&r));
    assert!(!Version::new(2, 0, 0, 0).satisfies(&r));
    assert!(!Version::new(0, 9, 0, 0).satisfies(&r));
}

#[test]
fn range_operators() {
    let v = Version::new(1, 2, 0, 0);
    let at = |op| VersionRange::Anchor(op, Version::new(1, 2, 0, 0));
    assert!(v.satisfies(&at(Operator::Eq)));
    assert!(v.satisfies(&at(Operator::Gte)));
    assert!(v.satisfies(&at(Operator::Lte)));
    assert!(!v.satisfies(&at(Operator::Neq)));
    assert!(!v.satisfies(&at(Operator::Gt)));
    assert!(!v.satisfies(&at(Operator::Lt)));
    assert!(Version::new(1, 2, 0, 1).satisfies(&at(Operator::Gt)));
    assert!(Version::new(1, 1, 9, 9).satisfies(&at(Operator::Lt)));
}

#[test]
fn range_any_and_nothing() {
    let v = Version::new(3, 1, 4, 1);
    assert!(v.satisfies(&VersionRange::Any));
    assert!(!v.satisfies(&VersionRange::Nothing));
    assert!(v.satisfies(&VersionRange::disj(VersionRange::Nothing, VersionRange::Any)));
    assert!(!v.satisfies(&VersionRange::conj(VersionRange::Nothing, VersionRange::Any)));
    assert!(v.satisfies(&VersionRange::exactly(v)));
    assert!(!Version::new(3, 1, 4, 2).satisfies(&VersionRange::exactly(v)));
}

#[test]
fn range_agrees_with_emver() {
    let ours = VersionRange::disj(
        caret_one(),
        VersionRange::Anchor(Operator::Eq, Version::new(3, 0, 0, 0)),
    );
    let parsed = emver::VersionRange::from_str(">=1.0.0 <2.0.0 || =3.0.0").unwrap();
    for v in [
        Version::new(0, 9, 0, 0),
        Version::new(1, 0, 0, 0),
        Version::new(1, 5, 0, 0),
        Version::new(2, 0, 0, 0),
        Version::new(3, 0, 0, 0),
        Version::new(3, 0, 0, 1),
    ] {
        assert_eq!(v.satisfies(&ours), theirs(v).satisfies(&parsed));
    }
}

#[test]
fn range_text() {
    assert_eq!(VersionRange::Any.to_string(), "*");
    assert_eq!(VersionRange::Nothing.to_string(), "!");
    assert_eq!(caret_one().to_string(), ">=1.0.0 <2.0.0");
    assert_eq!(
        VersionRange::Anchor(Operator::Neq, Version::new(1, 0, 0, 2)).to_string(),
        "!=1.0.0.2"
    );
    let either = VersionRange::disj(
        VersionRange::Anchor(Operator::Lte, Version::new(1, 0, 0, 0)),
        VersionRange::Anchor(Operator::Gt, Version::new(2, 0, 0, 0)),
    );
    assert_eq!(either.to_string(), "<=1.0.0 || >2.0.0");
    let both = VersionRange::conj(
        either,
        VersionRange::Anchor(Operator::Eq, Version::new(0, 1, 0, 0)),
    );
    assert_eq!(both.to_string(), "(<=1.0.0 || >2.0.0) =0.1.0");
}

#[test]
fn range_text_is_the_one_emver_prints() {
    let parsed = emver::VersionRange::from_str(">=1.0.0 <2.0.0").unwrap();
    assert_eq!(caret_one().to_string(), parsed.to_string());
}

fn chain() -> Vec<Version> {
    vec![
        Version::new(0, 1, 0, 0),
        Version::new(0, 2, 0, 0),
        Version::new(0, 2, 1, 0),
        Version::new(0, 3, 0, 0),
    ]
}

#[test]
fn migrating_upwards_takes_every_version_in_order() {
    let c = chain();
    let steps = migrate_to(&c, &c[0], &c[2]).unwrap();
    assert_eq!(
        steps,
        vec![
            MigrationStep::Up(c[1]),
            MigrationStep::Commit(c[1]),
            MigrationStep::Up(c[2]),
            MigrationStep::Commit(c[2]),
        ]
    );
}

#[test]
fn migrating_downwards_rolls_back_and_commits_the_one_before() {
    let c = chain();
    let steps = migrate_to(&c, &c[3], &c[1]).unwrap();
    assert_eq!(
        steps,
        vec![
            MigrationStep::Down(c[3]),
            MigrationStep::Commit(c[2]),
            MigrationStep::Down(c[2]),
            MigrationStep::Commit(c[1]),
        ]
    );
}

#[test]
fn migrating_to_the_same_version_does_nothing() {
    let c = chain();
    assert_eq!(migrate_to(&c, &c[1], &c[1]), Some(vec![]));
}

#[test]
fn migrating_outside_the_chain_is_refused() {
    let c = chain();
    assert_eq!(migrate_to(&c, &Version::new(9, 0, 0, 0), &c[1]), None);
    assert_eq!(migrate_to(&c, &c[1], &Version::new(9, 0, 0, 0)), None);
}
