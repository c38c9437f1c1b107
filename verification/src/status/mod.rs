//! The status of an installed package, and its reconciliation with what
//! the container runtime reports.

pub mod health_check;
pub mod sweep;
pub mod tick;

use vstd::prelude::*;
use crate::dependencies::{DependencyError, DependencyErrorView};
use crate::error::{Error, ErrorKind};
use crate::ordered_map::{has_key, lookup, same_text, OrderedMap};
use crate::status::health_check::{HealthCheck, HealthCheckResult, Timestamp};

verus! {

/// What a package is meant to be doing.
#[derive(Debug)]
pub enum MainStatus {
    Stopped,
    Stopping,
    Running { started: Timestamp, health: OrderedMap<HealthCheckResult> },
    BackingUp { started: Option<Timestamp>, health: OrderedMap<HealthCheckResult> },
    Restoring { running: bool },
}

/// The dependencies of a package that are unmet, each with the way in
/// which it is.
#[derive(Debug)]
pub struct DependencyErrors(pub OrderedMap<DependencyError>);

impl View for DependencyErrors {
    type V = Seq<(Seq<char>, DependencyErrorView)>;

    open spec fn view(&self) -> Seq<(Seq<char>, DependencyErrorView)> {
        Seq::new(self.0@.len(), |i: int| (self.0@[i].0, self.0@[i].1@))
    }
}

impl DependencyErrors {
    /// No unmet dependency.
    pub fn new() -> (e: DependencyErrors)
        ensures
            e@.len() == 0,
    {
        DependencyErrors(OrderedMap::new())
    }

    /// The way in which the dependency on `key` is unmet, if it is.
    pub fn get(&self, key: &str) -> (r: Option<&DependencyError>)
        ensures
            r is Some <==> crate::ordered_map::has_key(self.0@, key@),
            r matches Some(e) ==> Some(*e) == crate::ordered_map::lookup(self.0@, key@),
    {
        self.0.get(key)
    }
}

/// The status of an installed package.
#[derive(Debug)]
pub struct Status {
    /// Has the package been configured?
    pub configured: bool,
    /// What the package is meant to be doing.
    pub main: MainStatus,
    /// Which of its dependencies are unmet.
    pub dependencies: DependencyErrors,
}

/// What the container runtime reports of a container.
#[derive(Clone, Copy, Debug, PartialEq, Eq, Structural)]
pub enum Observation {
    Created,
    Exited,
    Running,
    Restarting,
    Paused,
}

/// The observation that a reported state stands for; `None` for no state
/// and for any state not listed here.
pub open spec fn observation_of(state: Option<Seq<char>>) -> Option<Observation> {
    match state {
        Some(s) => if s == "created"@ {
            Some(Observation::Created)
        } else if s == "exited"@ {
            Some(Observation::Exited)
        } else if s == "running"@ {
            Some(Observation::Running)
        } else if s == "restarting"@ {
            Some(Observation::Restarting)
        } else if s == "paused"@ {
            Some(Observation::Paused)
        } else {
            None
        },
        None => None,
    }
}

/// What is said of a container whose state is not known.
pub const UNEXPECTED_STATUS: &'static str = "Unexpected Docker Status";

/// How long a container is given to stop, in seconds.
pub const STOP_TIMEOUT: u64 = 30;

/// What the reconciler asks of the container runtime.
#[derive(Clone, Copy, Debug, PartialEq, Eq, Structural)]
pub enum SyncAction {
    /// Nothing.
    Nothing,
    /// Start the container.
    Start,
    /// Stop the container within `timeout` seconds, then look at it again.
    Stop { timeout: u64 },
    /// Pause the container.
    Pause,
    /// Unpause the container.
    Unpause,
    /// Unpause the container, stop it within `timeout` seconds, then look at
    /// it again.
    UnpauseThenStop { timeout: u64 },
}

/// Is the container not meant to run at all?
pub open spec fn wants_down(desired: MainStatus) -> bool {
    desired is Stopped || desired is Restoring
}

/// What is asked of the runtime for a package meant to be `desired` whose
/// container is observed as `observed`.
pub open spec fn sync_action(desired: MainStatus, observed: Observation) -> SyncAction {
    match observed {
        Observation::Created | Observation::Exited => if desired is Running {
            SyncAction::Start
        } else {
            SyncAction::Nothing
        },
        Observation::Running | Observation::Restarting => if wants_down(desired) {
            SyncAction::Stop { timeout: STOP_TIMEOUT }
        } else if desired is BackingUp {
            SyncAction::Pause
        } else {
            SyncAction::Nothing
        },
        Observation::Paused => if wants_down(desired) {
            SyncAction::UnpauseThenStop { timeout: STOP_TIMEOUT }
        } else if desired is Running {
            SyncAction::Unpause
        } else {
            SyncAction::Nothing
        },
    }
}

/// What the status becomes: a stopping package whose container is down has
/// stopped, and a running package whose container is started counts as
/// started at `now`. Everything else stays.
pub open spec fn sync_status(desired: MainStatus, observed: Observation, now: Timestamp)
    -> MainStatus {
    if observed == Observation::Created || observed == Observation::Exited {
        match desired {
            MainStatus::Stopping => MainStatus::Stopped,
            MainStatus::Running { started, health } => MainStatus::Running { started: now, health },
            other => other,
        }
    } else {
        desired
    }
}

/// After this action the container is looked at again.
pub open spec fn looks_again(action: SyncAction) -> bool {
    action is Stop || action is UnpauseThenStop
}

/// A container that still runs after it was stopped is an anomaly of the
/// runtime.
pub open spec fn is_anomaly(state_after_stop: Option<Seq<char>>) -> bool {
    state_after_stop == Some("running"@)
}

impl SyncAction {
    /// Is the container looked at again after this action?
    pub fn needs_inspection(&self) -> (b: bool)
        ensures
            b == looks_again(*self),
    {
        match self {
            SyncAction::Stop { .. } => true,
            SyncAction::UnpauseThenStop { .. } => true,
            _ => false,
        }
    }
}

/// Reads a reported state.
pub fn observe(state: Option<&str>) -> (o: Option<Observation>)
    ensures
        o == observation_of(
            match state {
                Some(s) => Some(s@),
                None => None,
            },
        ),
{
    match state {
        Some(s) => {
            if same_text(s, "created") {
                Some(Observation::Created)
            } else if same_text(s, "exited") {
                Some(Observation::Exited)
            } else if same_text(s, "running") {
                Some(Observation::Running)
            } else if same_text(s, "restarting") {
                Some(Observation::Restarting)
            } else if same_text(s, "paused") {
                Some(Observation::Paused)
            } else {
                None
            }
        },
        None => None,
    }
}

/// Does the state reported after a stop show the anomaly?
pub fn check_anomaly(state_after_stop: Option<&str>) -> (b: bool)
    ensures
        b == is_anomaly(
            match state_after_stop {
                Some(s) => Some(s@),
                None => None,
            },
        ),
{
    match state_after_stop {
        Some(s) => same_text(s, "running"),
        None => false,
    }
}

/// Is the check named `name` declared critical?
pub open spec fn is_critical(checks: Seq<(Seq<char>, HealthCheck)>, name: Seq<char>) -> bool {
    match lookup(checks, name) {
        Some(c) => c.critical,
        None => false,
    }
}

/// The names of the checks among `results` that failed and are declared
/// critical, in their order.
pub open spec fn critical_failures(
    results: Seq<(Seq<char>, HealthCheckResult)>,
    checks: Seq<(Seq<char>, HealthCheck)>,
) -> Seq<Seq<char>>
    decreases results.len(),
{
    if results.len() == 0 {
        Seq::empty()
    } else if results.last().1.result is Failure && is_critical(checks, results.last().0) {
        critical_failures(results.drop_last(), checks).push(results.last().0)
    } else {
        critical_failures(results.drop_last(), checks)
    }
}

/// What a running package is meant to be doing once its health checks
/// have been run: it keeps running, with the new results, unless a critical
/// check failed; then it is to stop.
pub open spec fn checked_main(
    main: MainStatus,
    results: OrderedMap<HealthCheckResult>,
    checks: Seq<(Seq<char>, HealthCheck)>,
) -> MainStatus {
    match main {
        MainStatus::Running { started, .. } => if critical_failures(results@, checks).len() > 0 {
            MainStatus::Stopping
        } else {
            MainStatus::Running { started, health: results }
        },
        other => other,
    }
}

/// A check that is switched off, or that succeeded, stops nothing: where
/// no result is a failure, no critical failure is found.
pub proof fn without_failure_nothing_is_critical(
    results: Seq<(Seq<char>, HealthCheckResult)>,
    checks: Seq<(Seq<char>, HealthCheck)>,
)
    requires
        forall|i: int| 0 <= i < results.len() ==> !((#[trigger] results[i]).1.result is Failure),
    ensures
        critical_failures(results, checks).len() == 0,
    decreases results.len(),
{
    if results.len() > 0 {
        assert(!(results[results.len() - 1].1.result is Failure));
        assert forall|i: int| 0 <= i < results.drop_last().len() implies !((
        #[trigger] results.drop_last()[i]).1.result is Failure) by {
            assert(results.drop_last()[i] == results[i]);
        }
        without_failure_nothing_is_critical(results.drop_last(), checks);
    }
}

impl MainStatus {
    /// Takes in the results of the health checks of a running package, and
    /// names the critical checks that failed, each of which the user is to be
    /// told of. A package that is not running takes in nothing.
    pub fn check(&mut self, results: OrderedMap<HealthCheckResult>, checks: &OrderedMap<HealthCheck>) -> (
        failed: Vec<String>)
        ensures
            *final(self) == checked_main(*old(self), results, checks@),
            crate::text::texts(failed@) == if *old(self) is Running {
                critical_failures(results@, checks@)
            } else {
                Seq::empty()
            },
    {
        let mut failed: Vec<String> = Vec::new();
        let started = match self {
            MainStatus::Running { started, .. } => *started,
            _ => {
                assert(crate::text::texts(failed@) =~= Seq::empty());
                return failed;
            },
        };
        let mut i: usize = 0;
        assert(results@.take(0) =~= Seq::empty());
        assert(crate::text::texts(failed@) =~= Seq::empty());
        while i < results.len()
            invariant
                i <= results@.len(),
                crate::text::texts(failed@) == critical_failures(
                    results@.take(i as int),
                    checks@,
                ),
            decreases results@.len() - i,
        {
            proof {
                let next = results@.take(i as int + 1);
                assert(next.drop_last() =~= results@.take(i as int));
                assert(next.last() == results@[i as int]);
            }
            let name = results.key_at(i);
            let critical = match checks.get(name) {
                Some(c) => c.critical,
                None => false,
            };
            if results.value_at(i).failed() && critical {
                let ghost before = crate::text::texts(failed@);
                failed.push(name.to_owned());
                assert(crate::text::texts(failed@) =~= before.push(name@));
            }
            i = i + 1;
        }
        assert(results@.take(i as int) =~= results@);
        if failed.len() > 0 {
            *self = MainStatus::Stopping;
        } else {
            *self = MainStatus::Running { started, health: results };
        }
        failed
    }

    /// Brings the status in line with the state that the runtime reports of
    /// the package's container, and says what to ask of the runtime. A state
    /// that is none of created, exited, running, restarting and paused is an
    /// error of kind `Docker`, and leaves the status as it is.
    pub fn synchronize(&mut self, state: Option<&str>, now: Timestamp) -> (r: Result<
        SyncAction,
        Error,
    >)
        ensures
            ({
                let observed = observation_of(
                    match state {
                        Some(s) => Some(s@),
                        None => None,
                    },
                );
                match observed {
                    Some(o) => r == Ok::<SyncAction, Error>(sync_action(*old(self), o))
                        && *final(self) == sync_status(*old(self), o, now),
                    None => r is Err && r->Err_0.kind == ErrorKind::Docker && r->Err_0.message@
                        == UNEXPECTED_STATUS@ && *final(self) == *old(self),
                }
            }),
    {
        let observed = match observe(state) {
            Some(o) => o,
            None => {
                return Err(Error::of(ErrorKind::Docker, UNEXPECTED_STATUS));
            },
        };
        match observed {
            Observation::Created | Observation::Exited => {
                match self {
                    MainStatus::Stopping => {
                        *self = MainStatus::Stopped;
                        Ok(SyncAction::Nothing)
                    },
                    MainStatus::Running { started, .. } => {
                        *started = now;
                        Ok(SyncAction::Start)
                    },
                    _ => Ok(SyncAction::Nothing),
                }
            },
            Observation::Running | Observation::Restarting => {
                match self {
                    MainStatus::Stopped | MainStatus::Restoring { .. } => Ok(
                        SyncAction::Stop { timeout: STOP_TIMEOUT },
                    ),
                    MainStatus::BackingUp { .. } => Ok(SyncAction::Pause),
                    _ => Ok(SyncAction::Nothing),
                }
            },
            Observation::Paused => {
                match self {
                    MainStatus::Stopped | MainStatus::Restoring { .. } => Ok(
                        SyncAction::UnpauseThenStop { timeout: STOP_TIMEOUT },
                    ),
                    MainStatus::Running { .. } => Ok(SyncAction::Unpause),
                    _ => Ok(SyncAction::Nothing),
                }
            },
        }
    }
}

} // verus!
