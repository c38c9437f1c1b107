//! Dependencies between packages: what a package asks of another, and in
//! which way that may be unmet.

use vstd::prelude::*;
use vstd::string::*;
use crate::action::ActionImplementation;
use crate::action::docker::Failure;
use crate::db::{installed_at, AllPackageData, PackageDataEntry};
use crate::error::{Error, ErrorKind};
use crate::id::PackageId;
use crate::ordered_map::{has_key, keys_distinct, lookup, lookup_at, position_finds, OrderedMap};
use crate::status::{DependencyErrors, MainStatus};
use crate::status::health_check::{HealthCheckResult, HealthCheckResultVariant};
use crate::text::string_of;
use crate::version::{
    admits, decimal, push_decimal, range_text, version_text, Version, VersionRange,
};

verus! {

/// The way in which a dependency is unmet.
#[derive(Debug)]
pub enum DependencyError {
    /// The dependency is not installed.
    NotInstalled,
    /// The dependency is installed but not running.
    NotRunning,
    /// The dependency is installed at a version outside the range asked for.
    IncorrectVersion { expected: VersionRange, received: Version },
    /// The dependency's configuration does not suit the dependent.
    ConfigUnsatisfied { error: String },
    /// The dependency runs, but health checks of it do not succeed.
    HealthChecksFailed { failures: OrderedMap<HealthCheckResult> },
}

/// A dependency error as a plain value.
pub enum DependencyErrorView {
    NotInstalled,
    NotRunning,
    IncorrectVersion { expected: VersionRange, received: Version },
    ConfigUnsatisfied { error: Seq<char> },
    HealthChecksFailed { failures: Seq<(Seq<char>, HealthCheckResult)> },
}

impl View for DependencyError {
    type V = DependencyErrorView;

    open spec fn view(&self) -> DependencyErrorView {
        match *self {
            DependencyError::NotInstalled => DependencyErrorView::NotInstalled,
            DependencyError::NotRunning => DependencyErrorView::NotRunning,
            DependencyError::IncorrectVersion { expected, received } =>
                DependencyErrorView::IncorrectVersion { expected, received },
            DependencyError::ConfigUnsatisfied { error } => DependencyErrorView::ConfigUnsatisfied {
                error: error@,
            },
            DependencyError::HealthChecksFailed { failures } =>
                DependencyErrorView::HealthChecksFailed { failures: failures@ },
        }
    }
}

impl Clone for DependencyError {
    fn clone(&self) -> (r: DependencyError)
        ensures
            r@ == self@,
    {
        match self {
            DependencyError::NotInstalled => DependencyError::NotInstalled,
            DependencyError::NotRunning => DependencyError::NotRunning,
            DependencyError::IncorrectVersion { expected, received } =>
                DependencyError::IncorrectVersion {
                expected: expected.clone(),
                received: *received,
            },
            DependencyError::ConfigUnsatisfied { error } => DependencyError::ConfigUnsatisfied {
                error: error.clone(),
            },
            DependencyError::HealthChecksFailed { failures } => {
                let copy = failures.clone();
                assert(copy@ =~= failures@);
                DependencyError::HealthChecksFailed { failures: copy }
            },
        }
    }
}

/// The text of a health check's finding.
pub open spec fn variant_text(v: HealthCheckResultVariant) -> Seq<char> {
    match v {
        HealthCheckResultVariant::Disabled => "disabled"@,
        HealthCheckResultVariant::Success => "success"@,
        HealthCheckResultVariant::Failure { error } => "failure: "@ + error@,
    }
}

/// The text of one failed check: its name, when it was found, and what was
/// found.
pub open spec fn failure_text(check: Seq<char>, result: HealthCheckResult) -> Seq<char> {
    check + " @ "@ + decimal(result.time.0 as nat) + seq![' '] + variant_text(result.result)
}

/// The texts of the failed checks, with `, ` between them.
pub open spec fn failures_text(failures: Seq<(Seq<char>, HealthCheckResult)>) -> Seq<char>
    decreases failures.len(),
{
    if failures.len() == 0 {
        Seq::empty()
    } else if failures.len() == 1 {
        failure_text(failures[0].0, failures[0].1)
    } else {
        failures_text(failures.drop_last()) + ", "@ + failure_text(
            failures.last().0,
            failures.last().1,
        )
    }
}

/// The message of a dependency error.
pub open spec fn dependency_error_text(e: DependencyError) -> Seq<char> {
    match e {
        DependencyError::NotInstalled => "Not Installed"@,
        DependencyError::NotRunning => "Not Running"@,
        DependencyError::IncorrectVersion { expected, received } =>
            "Incorrect Version: Expected "@ + range_text(expected) + ", Received "@ + version_text(
            received,
        ),
        DependencyError::ConfigUnsatisfied { error } =>
            "Configuration Requirements Not Satisfied: "@ + error@,
        DependencyError::HealthChecksFailed { failures } => "Failed Health Check(s): "@
            + failures_text(failures@),
    }
}

impl DependencyError {
    /// The message of the error.
    pub fn to_string(&self) -> (s: String)
        ensures
            s@ == dependency_error_text(*self),
    {
        match self {
            DependencyError::NotInstalled => "Not Installed".to_owned(),
            DependencyError::NotRunning => "Not Running".to_owned(),
            DependencyError::IncorrectVersion { expected, received } => {
                let mut s = "Incorrect Version: Expected ".to_owned();
                s.append(expected.to_string().as_str());
                s.append(", Received ");
                s.append(received.to_string().as_str());
                s
            },
            DependencyError::ConfigUnsatisfied { error } => {
                let mut s = "Configuration Requirements Not Satisfied: ".to_owned();
                s.append(error.as_str());
                s
            },
            DependencyError::HealthChecksFailed { failures } => {
                let mut s = "Failed Health Check(s): ".to_owned();
                let mut i: usize = 0;
                while i < failures.len()
                    invariant
                        i <= failures@.len(),
                        s@ == "Failed Health Check(s): "@ + failures_text(failures@.take(i as int)),
                    decreases failures@.len() - i,
                {
                    proof {
                        let next = failures@.take(i as int + 1);
                        assert(next.drop_last() =~= failures@.take(i as int));
                        assert(next.last() == failures@[i as int]);
                        if i > 0 {
                            assert(next.len() > 1);
                        }
                    }
                    if i > 0 {
                        s.append(", ");
                    }
                    let result = failures.value_at(i);
                    s.append(failures.key_at(i));
                    s.append(" @ ");
                    let mut time: Vec<char> = Vec::new();
                    push_decimal(result.time.0, &mut time);
                    time.push(' ');
                    let time = string_of(&time);
                    s.append(time.as_str());
                    match &result.result {
                        HealthCheckResultVariant::Disabled => {
                            s.append("disabled");
                        },
                        HealthCheckResultVariant::Success => {
                            s.append("success");
                        },
                        HealthCheckResultVariant::Failure { error } => {
                            s.append("failure: ");
                            s.append(error.as_str());
                        },
                    }
                    assert(s@ =~= "Failed Health Check(s): "@ + failures_text(
                        failures@.take(i as int + 1),
                    ));
                    i = i + 1;
                }
                assert(failures@.take(i as int) =~= failures@);
                s
            },
        }
    }
}

/// A dependency error, together with the dependency it is about.
#[derive(Debug)]
pub struct TaggedDependencyError {
    pub dependency: PackageId,
    pub error: DependencyError,
}

impl TaggedDependencyError {
    /// The dependency, a colon, and the message of the error.
    pub fn to_string(&self) -> (s: String)
        ensures
            s@ == self.dependency@ + ": "@ + dependency_error_text(self.error),
    {
        let mut s = self.dependency.as_str().to_owned();
        s.append(": ");
        s.append(self.error.to_string().as_str());
        s
    }
}

/// The two sandboxed actions by which a dependent looks at, and adjusts,
/// the configuration of a dependency.
pub struct DependencyConfig {
    pub check: ActionImplementation,
    pub auto_configure: ActionImplementation,
}

impl DependencyConfig {
    /// What the end of the check action means: a failed check is an error of
    /// kind `ConfigRulesViolation` that carries what the check wrote to its
    /// standard error.
    pub fn check(&self, outcome: Result<(), Failure>) -> (r: Result<(), Error>)
        ensures
            r is Ok <==> outcome is Ok,
            r matches Err(e) ==> e.kind == ErrorKind::ConfigRulesViolation && e.message
                == outcome->Err_0.stderr,
    {
        match outcome {
            Ok(()) => Ok(()),
            Err(f) => Err(Error::new(f.stderr, ErrorKind::ConfigRulesViolation)),
        }
    }

    /// What the end of the auto-configure action means: the new
    /// configuration, or an error of kind `AutoConfigure` that carries what the
    /// action wrote to its standard error.
    pub fn auto_configure<C>(&self, outcome: Result<C, Failure>) -> (r: Result<C, Error>)
        ensures
            r is Ok <==> outcome is Ok,
            r matches Ok(c) ==> c == outcome->Ok_0,
            r matches Err(e) ==> e.kind == ErrorKind::AutoConfigure && e.message
                == outcome->Err_0.stderr,
    {
        match outcome {
            Ok(c) => Ok(c),
            Err(f) => Err(Error::new(f.stderr, ErrorKind::AutoConfigure)),
        }
    }
}

/// What a package asks of one dependency.
pub struct DepInfo {
    /// The versions of the dependency that will do.
    pub version: VersionRange,
    /// Why the dependency may be left out, where it may.
    pub optional: Option<String>,
    /// What the dependency is needed for.
    pub description: Option<String>,
    /// How the dependency's configuration is looked at.
    pub config: Option<DependencyConfig>,
}

/// How the check of the dependency's configuration ended, where it was
/// run.
#[derive(Debug)]
pub enum CheckOutcome {
    /// The check was not run.
    NotRun,
    /// The check passed.
    Passed,
    /// The check did not pass, or could not be run.
    Failed(Error),
}

/// How a check is recorded, as a plain value: which of the three, and
/// for a failure its kind and its message.
pub open spec fn outcome_view(outcome: CheckOutcome) -> Option<Result<(), (ErrorKind, Seq<char>)>> {
    match outcome {
        CheckOutcome::NotRun => None,
        CheckOutcome::Passed => Some(Ok(())),
        CheckOutcome::Failed(e) => Some(Err((e.kind, e.message@))),
    }
}

impl CheckOutcome {
    /// What the end of a check is recorded as: a check that ran and
    /// succeeded has passed; one that ran and failed has failed with an error
    /// of kind `ConfigRulesViolation` that carries what it wrote to its
    /// standard error; and one that could not be run has failed with the error
    /// that kept it from running.
    pub fn found(end: Result<Result<(), Failure>, Error>) -> (outcome: CheckOutcome)
        ensures
            outcome_view(outcome) == Some(
                match end {
                    Ok(Ok(())) => Ok(()),
                    Ok(Err(f)) => Err((ErrorKind::ConfigRulesViolation, f.stderr@)),
                    Err(e) => Err((e.kind, e.message@)),
                },
            ),
    {
        match end {
            Ok(Ok(())) => CheckOutcome::Passed,
            Ok(Err(f)) => CheckOutcome::Failed(Error::new(f.stderr, ErrorKind::ConfigRulesViolation)),
            Err(e) => CheckOutcome::Failed(e),
        }
    }
}

/// The health results that count, for a package that runs or that was
/// running when its backup began; `None` for a package that does not run.
pub open spec fn running_health(main: MainStatus) -> Option<Seq<(Seq<char>, HealthCheckResult)>> {
    match main {
        MainStatus::Running { health, .. } => Some(health@),
        MainStatus::BackingUp { started: Some(_), health } => Some(health@),
        _ => None,
    }
}

/// The results among `health` that are no success, in their order.
pub open spec fn failures_of(health: Seq<(Seq<char>, HealthCheckResult)>) -> Seq<
    (Seq<char>, HealthCheckResult),
>
    decreases health.len(),
{
    if health.len() == 0 {
        Seq::empty()
    } else if health.last().1.result is Success {
        failures_of(health.drop_last())
    } else {
        failures_of(health.drop_last()).push(health.last())
    }
}

/// Is the check of the dependency's configuration run? It is once the
/// dependency is found installed at a version that will do, where a check is
/// declared.
pub open spec fn check_is_due(info: DepInfo, installed: Option<(Version, MainStatus)>) -> bool {
    installed matches Some(i) && admits(info.version, i.0) && info.config is Some
}

/// The answer to whether a dependency is satisfied, as a plain value: an
/// error where the question could not be answered, and otherwise either
/// satisfied or the way in which it is not.
pub type Verdict = Result<Result<(), DependencyErrorView>, Error>;

/// Is the dependency described by `info` satisfied, where `installed` is
/// the version and status of the dependency if it is installed, and `check`
/// is how the configuration check ended? In this order: the dependency has
/// to be installed, at a version the range admits; its configuration has to
/// pass the declared check, where a failure of kind `ConfigRulesViolation`
/// makes the dependency unsatisfied and any other failure is an error; it
/// has to run; and every health check of it has to succeed.
pub open spec fn verdict(
    info: DepInfo,
    installed: Option<(Version, MainStatus)>,
    check: CheckOutcome,
) -> Verdict {
    match installed {
        None => Ok(Err(DependencyErrorView::NotInstalled)),
        Some((version, main)) => if !admits(info.version, version) {
            Ok(
                Err(
                    DependencyErrorView::IncorrectVersion {
                        expected: info.version,
                        received: version,
                    },
                ),
            )
        } else if info.config is Some && check is Failed {
            if check->Failed_0.kind == ErrorKind::ConfigRulesViolation {
                Ok(
                    Err(
                        DependencyErrorView::ConfigUnsatisfied {
                            error: check->Failed_0.message@,
                        },
                    ),
                )
            } else {
                Err(check->Failed_0)
            }
        } else {
            match running_health(main) {
                None => Ok(Err(DependencyErrorView::NotRunning)),
                Some(health) => if failures_of(health).len() == 0 {
                    Ok(Ok(()))
                } else {
                    Ok(Err(DependencyErrorView::HealthChecksFailed { failures: failures_of(health) }))
                },
            }
        },
    }
}

/// An answer as a plain value.
pub open spec fn verdict_of(r: Result<Result<(), DependencyError>, Error>) -> Verdict {
    match r {
        Ok(Ok(())) => Ok(Ok(())),
        Ok(Err(e)) => Ok(Err(e@)),
        Err(e) => Err(e),
    }
}

/// Every failure stands in `health` under its name.
pub proof fn failures_come_from_health(health: Seq<(Seq<char>, HealthCheckResult)>, key: Seq<char>)
    ensures
        has_key(failures_of(health), key) ==> has_key(health, key),
    decreases health.len(),
{
    if health.len() > 0 {
        let f = failures_of(health);
        if has_key(f, key) {
            let i = choose|i: int| 0 <= i < f.len() && (#[trigger] f[i]).0 == key;
            let rest = failures_of(health.drop_last());
            if i < rest.len() {
                assert(rest[i].0 == key);
                failures_come_from_health(health.drop_last(), key);
                let j = choose|j: int|
                    0 <= j < health.drop_last().len() && (#[trigger] health.drop_last()[j]).0
                        == key;
                assert(health[j].0 == key);
            } else {
                assert(health[health.len() - 1].0 == key);
            }
        }
    }
}

/// The results among `health` that are no success.
fn collect_failures(health: &OrderedMap<HealthCheckResult>) -> (failures: OrderedMap<
    HealthCheckResult,
>)
    ensures
        failures@ == failures_of(health@),
{
    let mut failures: OrderedMap<HealthCheckResult> = OrderedMap::new();
    let mut i: usize = 0;
    health.keys_are_distinct();
    assert(health@.take(0) =~= Seq::empty());
    while i < health.len()
        invariant
            i <= health@.len(),
            keys_distinct(health@),
            failures@ == failures_of(health@.take(i as int)),
        decreases health@.len() - i,
    {
        let result = health.value_at(i);
        proof {
            let next = health@.take(i as int + 1);
            assert(next.drop_last() =~= health@.take(i as int));
            assert(next.last() == health@[i as int]);
        }
        if !result.succeeded() {
            let key = health.key_at(i).to_owned();
            proof {
                let before = health@.take(i as int);
                failures_come_from_health(before, key@);
                if has_key(before, key@) {
                    let j = choose|j: int| 0 <= j < before.len() && (#[trigger] before[j]).0
                        == key@;
                    assert(health@[j].0 != health@[i as int].0);
                }
            }
            failures.insert(key, result.clone());
        }
        i = i + 1;
    }
    assert(health@.take(i as int) =~= health@);
    failures
}

impl DepInfo {
    /// Is the check of the dependency's configuration to be run before
    /// `satisfied` is asked?
    pub fn needs_check(&self, installed: Option<(&Version, &MainStatus)>) -> (b: bool)
        ensures
            b == check_is_due(
                *self,
                match installed {
                    Some(i) => Some((*i.0, *i.1)),
                    None => None,
                },
            ),
    {
        match installed {
            Some((version, _)) => self.version.admits_version(version) && self.config.is_some(),
            None => false,
        }
    }

    /// Is the dependency satisfied?
    pub fn satisfied(&self, installed: Option<(&Version, &MainStatus)>, check: CheckOutcome) -> (r:
        Result<Result<(), DependencyError>, Error>)
        ensures
            verdict_of(r) == verdict(
                *self,
                match installed {
                    Some(i) => Some((*i.0, *i.1)),
                    None => None,
                },
                check,
            ),
    {
        let (version, main) = match installed {
            Some(i) => i,
            None => {
                return Ok(Err(DependencyError::NotInstalled));
            },
        };
        if !self.version.admits_version(version) {
            return Ok(
                Err(
                    DependencyError::IncorrectVersion {
                        expected: self.version.clone(),
                        received: *version,
                    },
                ),
            );
        }
        if self.config.is_some() {
            match check {
                CheckOutcome::Failed(e) => {
                    if e.kind == ErrorKind::ConfigRulesViolation {
                        return Ok(Err(DependencyError::ConfigUnsatisfied { error: e.message }));
                    } else {
                        return Err(e);
                    }
                },
                _ => {},
            }
        }
        let health = match main {
            MainStatus::Running { health, .. } => health,
            MainStatus::BackingUp { started: Some(_), health } => health,
            _ => {
                return Ok(Err(DependencyError::NotRunning));
            },
        };
        let failures = collect_failures(health);
        if failures.len() > 0 {
            Ok(Err(DependencyError::HealthChecksFailed { failures }))
        } else {
            Ok(Ok(()))
        }
    }
}

impl Clone for CheckOutcome {
    fn clone(&self) -> (r: CheckOutcome)
        ensures
            r == *self,
    {
        match self {
            CheckOutcome::NotRun => CheckOutcome::NotRun,
            CheckOutcome::Passed => CheckOutcome::Passed,
            CheckOutcome::Failed(e) => CheckOutcome::Failed(e.clone()),
        }
    }
}

/// The dependencies that a package declares, by the dependency's name.
pub struct Dependencies(pub OrderedMap<DepInfo>);

/// The version and status of package `id`, if it is installed.
pub open spec fn state_of(installed: Seq<(Seq<char>, PackageDataEntry)>, id: Seq<char>) -> Option<
    (Version, MainStatus),
> {
    match installed_at(installed, id) {
        Some(i) => Some((i.manifest.version, i.status.main)),
        None => None,
    }
}

/// How the configuration check of the dependency on `id` ended; not run
/// where nothing is recorded.
pub open spec fn outcome_of(checks: Seq<(Seq<char>, CheckOutcome)>, id: Seq<char>)
    -> CheckOutcome {
    match lookup(checks, id) {
        Some(c) => c,
        None => CheckOutcome::NotRun,
    }
}

/// The answer for one declared dependency.
pub open spec fn verdict_for(
    dep: (Seq<char>, DepInfo),
    installed: Seq<(Seq<char>, PackageDataEntry)>,
    checks: Seq<(Seq<char>, CheckOutcome)>,
) -> Verdict {
    verdict(dep.1, state_of(installed, dep.0), outcome_of(checks, dep.0))
}

/// The unmet dependencies among `deps`, in their order, each with the way
/// in which it is unmet; or the first error met while judging them.
pub open spec fn dependency_errors(
    deps: Seq<(Seq<char>, DepInfo)>,
    installed: Seq<(Seq<char>, PackageDataEntry)>,
    checks: Seq<(Seq<char>, CheckOutcome)>,
) -> Result<Seq<(Seq<char>, DependencyErrorView)>, Error>
    decreases deps.len(),
{
    if deps.len() == 0 {
        Ok(Seq::empty())
    } else {
        match dependency_errors(deps.drop_last(), installed, checks) {
            Err(e) => Err(e),
            Ok(rest) => match verdict_for(deps.last(), installed, checks) {
                Err(e) => Err(e),
                Ok(Ok(())) => Ok(rest),
                Ok(Err(d)) => Ok(rest.push((deps.last().0, d))),
            },
        }
    }
}

/// Judging depends on the record only through the version and status of
/// each package.
pub proof fn dependency_errors_by_state(
    deps: Seq<(Seq<char>, DepInfo)>,
    a: Seq<(Seq<char>, PackageDataEntry)>,
    b: Seq<(Seq<char>, PackageDataEntry)>,
    checks: Seq<(Seq<char>, CheckOutcome)>,
)
    requires
        forall|id: Seq<char>| #[trigger] state_of(a, id) == state_of(b, id),
    ensures
        dependency_errors(deps, a, checks) == dependency_errors(deps, b, checks),
    decreases deps.len(),
{
    if deps.len() > 0 {
        dependency_errors_by_state(deps.drop_last(), a, b, checks);
        assert(state_of(a, deps.last().0) == state_of(b, deps.last().0));
    }
}

/// What `dependency_errors` holds: exactly the declared dependencies that
/// are unmet, each under its name with its own answer.
pub proof fn dependency_errors_are_the_unmet(
    deps: Seq<(Seq<char>, DepInfo)>,
    installed: Seq<(Seq<char>, PackageDataEntry)>,
    checks: Seq<(Seq<char>, CheckOutcome)>,
)
    requires
        keys_distinct(deps),
        dependency_errors(deps, installed, checks) is Ok,
    ensures
        keys_distinct(dependency_errors(deps, installed, checks)->Ok_0),
        forall|i: int|
            0 <= i < deps.len() ==> (#[trigger] verdict_for(deps[i], installed, checks)) is Ok,
        forall|i: int|
            0 <= i < deps.len() ==> lookup(
                dependency_errors(deps, installed, checks)->Ok_0,
                (#[trigger] deps[i]).0,
            ) == match verdict_for(deps[i], installed, checks)->Ok_0 {
                Ok(()) => None::<DependencyErrorView>,
                Err(d) => Some(d),
            },
        forall|k: Seq<char>| #[trigger]
            has_key(dependency_errors(deps, installed, checks)->Ok_0, k) ==> has_key(deps, k),
    decreases deps.len(),
{
    let errors = dependency_errors(deps, installed, checks)->Ok_0;
    if deps.len() > 0 {
        let front = deps.drop_last();
        let last = deps.last();
        assert(keys_distinct(front)) by {
            assert forall|i: int, j: int| 0 <= i < j < front.len() implies (#[trigger] front[i]).0
                != (#[trigger] front[j]).0 by {
                assert(deps[i].0 != deps[j].0);
            }
        }
        dependency_errors_are_the_unmet(front, installed, checks);
        let rest = dependency_errors(front, installed, checks)->Ok_0;
        assert(!has_key(rest, last.0)) by {
            if has_key(rest, last.0) {
                let j = choose|j: int| 0 <= j < front.len() && (#[trigger] front[j]).0 == last.0;
                assert(deps[j].0 != deps[deps.len() - 1].0);
            }
        }
        assert forall|k: Seq<char>| #[trigger] has_key(errors, k) implies has_key(deps, k) by {
            let i = choose|i: int| 0 <= i < errors.len() && (#[trigger] errors[i]).0 == k;
            if i < rest.len() {
                assert(rest[i].0 == k);
                assert(has_key(rest, k));
                assert(has_key(front, k));
                let j = choose|j: int| 0 <= j < front.len() && (#[trigger] front[j]).0 == k;
                assert(deps[j].0 == k);
            } else {
                assert(deps[deps.len() - 1].0 == k);
            }
        }
        assert(keys_distinct(errors)) by {
            assert forall|i: int, j: int| 0 <= i < j < errors.len() implies (#[trigger] errors[i]).0
                != (#[trigger] errors[j]).0 by {
                if j < rest.len() {
                    assert(rest[i].0 != rest[j].0);
                } else {
                    assert(rest[i].0 == errors[i].0);
                }
            }
        }
        assert forall|i: int| 0 <= i < deps.len() implies lookup(errors, (#[trigger] deps[i]).0)
            == match verdict_for(deps[i], installed, checks)->Ok_0 {
            Ok(()) => None::<DependencyErrorView>,
            Err(d) => Some(d),
        } && verdict_for(deps[i], installed, checks) is Ok by {
            let k = deps[i].0;
            position_finds(errors, k);
            position_finds(rest, k);
            if i < front.len() {
                assert(front[i] == deps[i]);
                assert(k != last.0);
                if has_key(rest, k) {
                    let p = crate::ordered_map::position(rest, k);
                    assert(errors[p] == rest[p]);
                    lookup_at(errors, p);
                } else {
                    if has_key(errors, k) {
                        let p = choose|p: int| 0 <= p < errors.len() && (#[trigger] errors[p]).0
                            == k;
                        if p < rest.len() {
                            assert(rest[p].0 == k);
                        }
                    }
                }
            } else {
                if verdict_for(last, installed, checks)->Ok_0 is Err {
                    assert(errors[rest.len() as int].0 == k);
                    lookup_at(errors, rest.len() as int);
                } else {
                    assert(errors == rest);
                }
            }
        }
    }
}

/// No dependency is recorded as unmet exactly when every declared
/// dependency is satisfied.
pub proof fn no_errors_iff_all_satisfied(
    deps: Seq<(Seq<char>, DepInfo)>,
    installed: Seq<(Seq<char>, PackageDataEntry)>,
    checks: Seq<(Seq<char>, CheckOutcome)>,
)
    requires
        keys_distinct(deps),
        dependency_errors(deps, installed, checks) is Ok,
    ensures
        dependency_errors(deps, installed, checks)->Ok_0.len() == 0 <==> forall|i: int|
            0 <= i < deps.len() ==> (#[trigger] verdict_for(deps[i], installed, checks)) == Ok::<
                Result<(), DependencyErrorView>,
                Error,
            >(Ok(())),
{
    let errors = dependency_errors(deps, installed, checks)->Ok_0;
    dependency_errors_are_the_unmet(deps, installed, checks);
    if errors.len() == 0 {
        assert forall|i: int| 0 <= i < deps.len() implies (#[trigger] verdict_for(
            deps[i],
            installed,
            checks,
        )) == Ok::<Result<(), DependencyErrorView>, Error>(Ok(())) by {
            assert(lookup(errors, deps[i].0) is None);
        }
    } else {
        let k = errors[0].0;
        assert(has_key(errors, k));
        let i = choose|i: int| 0 <= i < deps.len() && (#[trigger] deps[i]).0 == k;
        assert(lookup(errors, deps[i].0) is Some);
        assert(verdict_for(deps[i], installed, checks) != Ok::<
            Result<(), DependencyErrorView>,
            Error,
        >(Ok(())));
    }
}

/// A dependency that is installed at an admitted version, whose
/// configuration check did not fail, and that does not run, is recorded as
/// not running for every package that declares it.
pub proof fn stopped_dependency_is_not_running(
    deps: Seq<(Seq<char>, DepInfo)>,
    installed: Seq<(Seq<char>, PackageDataEntry)>,
    checks: Seq<(Seq<char>, CheckOutcome)>,
    dependency: Seq<char>,
)
    requires
        keys_distinct(deps),
        has_key(deps, dependency),
        dependency_errors(deps, installed, checks) is Ok,
        state_of(installed, dependency) matches Some(state) && admits(
            lookup(deps, dependency)->0.version,
            state.0,
        ) && running_health(state.1) is None,
        !(lookup(deps, dependency)->0.config is Some && outcome_of(checks, dependency) is Failed),
    ensures
        lookup(dependency_errors(deps, installed, checks)->Ok_0, dependency) == Some(
            DependencyErrorView::NotRunning,
        ),
{
    dependency_errors_are_the_unmet(deps, installed, checks);
    position_finds(deps, dependency);
    let i = crate::ordered_map::position(deps, dependency);
    assert(deps[i].0 == dependency);
    assert(verdict_for(deps[i], installed, checks) == Ok::<
        Result<(), DependencyErrorView>,
        Error,
    >(Err(DependencyErrorView::NotRunning)));
}

impl Dependencies {
    /// Judges every declared dependency against what is installed, and
    /// gives the unmet ones, in the order of their declaration. An error met
    /// while judging ends the judging and is handed back.
    pub fn check_status(
        &self,
        installed: &AllPackageData,
        checks: &OrderedMap<CheckOutcome>,
    ) -> (r: Result<DependencyErrors, Error>)
        ensures
            match dependency_errors(self.0@, installed.0@, checks@) {
                Ok(errors) => r matches Ok(found) && found@ == errors,
                Err(e) => r == Err::<DependencyErrors, Error>(e),
            },
    {
        let mut errors = DependencyErrors::new();
        let mut i: usize = 0;
        self.0.keys_are_distinct();
        assert(self.0@.take(0) =~= Seq::empty());
        assert(errors@ =~= Seq::empty());
        while i < self.0.len()
            invariant
                i <= self.0@.len(),
                keys_distinct(self.0@),
                dependency_errors(self.0@.take(i as int), installed.0@, checks@) == Ok::<
                    Seq<(Seq<char>, DependencyErrorView)>,
                    Error,
                >(errors@),
            decreases self.0@.len() - i,
        {
            let id = self.0.key_at(i);
            let info = self.0.value_at(i);
            proof {
                let next = self.0@.take(i as int + 1);
                assert(next.drop_last() =~= self.0@.take(i as int));
                assert(next.last() == self.0@[i as int]);
            }
            let check = match checks.get(id) {
                Some(c) => c.clone(),
                None => CheckOutcome::NotRun,
            };
            let verdict = match installed.installed(id) {
                Some(state) => info.satisfied(
                    Some((&state.manifest.version, &state.status.main)),
                    check,
                ),
                None => info.satisfied(None, check),
            };
            match verdict {
                Err(e) => {
                    proof {
                        later_errors_keep_the_first(
                            self.0@,
                            installed.0@,
                            checks@,
                            i as int + 1,
                        );
                    }
                    return Err(e);
                },
                Ok(Ok(())) => {},
                Ok(Err(d)) => {
                    proof {
                        let before = self.0@.take(i as int);
                        assert(keys_distinct(before)) by {
                            assert forall|a: int, b: int| 0 <= a < b < before.len() implies (
                            #[trigger] before[a]).0 != (#[trigger] before[b]).0 by {
                                assert(self.0@[a].0 != self.0@[b].0);
                            }
                        }
                        dependency_errors_are_the_unmet(before, installed.0@, checks@);
                        if has_key(errors.0@, id@) {
                            let p = choose|p: int|
                                0 <= p < errors.0@.len() && (#[trigger] errors.0@[p]).0 == id@;
                            assert(errors@[p].0 == id@);
                            assert(has_key(errors@, id@));
                            let j = choose|j: int|
                                0 <= j < before.len() && (#[trigger] before[j]).0 == id@;
                            assert(self.0@[j].0 != self.0@[i as int].0);
                        }
                    }
                    let ghost old_errors = errors@;
                    errors.0.insert(id.to_owned(), d);
                    assert(errors@ =~= old_errors.push((id@, d@)));
                },
            }
            i = i + 1;
        }
        assert(self.0@.take(i as int) =~= self.0@);
        Ok(errors)
    }
}

/// Once judging a front part of the dependencies has met an error, judging
/// all of them meets the same error.
pub proof fn later_errors_keep_the_first(
    deps: Seq<(Seq<char>, DepInfo)>,
    installed: Seq<(Seq<char>, PackageDataEntry)>,
    checks: Seq<(Seq<char>, CheckOutcome)>,
    n: int,
)
    requires
        0 <= n <= deps.len(),
        dependency_errors(deps.take(n), installed, checks) is Err,
    ensures
        dependency_errors(deps, installed, checks) == dependency_errors(
            deps.take(n),
            installed,
            checks,
        ),
    decreases deps.len() - n,
{
    if n < deps.len() {
        let next = deps.take(n + 1);
        assert(next.drop_last() =~= deps.take(n));
        later_errors_keep_the_first(deps, installed, checks, n + 1);
    } else {
        assert(deps.take(n) =~= deps);
    }
}

} // verus!
