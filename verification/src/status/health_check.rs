//! Health checks and their results.

use vstd::prelude::*;
use crate::action::ActionImplementation;
use crate::action::docker::Failure;

verus! {

/// A point in time: milliseconds since the start of 1970, UTC.
#[derive(Clone, Copy, Debug, PartialEq, Eq, Structural)]
pub struct Timestamp(pub u64);

/// A health check: the action that performs it, and whether a failure of
/// it stops the package.
pub struct HealthCheck {
    pub implementation: ActionImplementation,
    pub critical: bool,
}

/// What a health check found.
#[derive(Debug)]
pub enum HealthCheckResultVariant {
    /// The check is switched off.
    Disabled,
    /// The package is healthy.
    Success,
    /// The package is not healthy; `error` says why.
    Failure { error: String },
}

/// The exit code by which a health check says that it is switched off.
pub const DISABLED_EXIT_CODE: i32 = 59;

impl Clone for HealthCheckResultVariant {
    fn clone(&self) -> (r: HealthCheckResultVariant)
        ensures
            r == *self,
    {
        match self {
            HealthCheckResultVariant::Disabled => HealthCheckResultVariant::Disabled,
            HealthCheckResultVariant::Success => HealthCheckResultVariant::Success,
            HealthCheckResultVariant::Failure { error } => HealthCheckResultVariant::Failure {
                error: error.clone(),
            },
        }
    }
}

/// The result of one health check, and when it was found.
#[derive(Debug)]
pub struct HealthCheckResult {
    pub time: Timestamp,
    pub result: HealthCheckResultVariant,
}

impl Clone for HealthCheckResult {
    fn clone(&self) -> (r: HealthCheckResult)
        ensures
            r == *self,
    {
        HealthCheckResult { time: self.time, result: self.result.clone() }
    }
}

/// What the end of a health check's invocation means: success for a clean
/// exit, switched off for the exit code set aside for that, and otherwise a
/// failure that carries what the check wrote to its standard error.
pub open spec fn variant_of(outcome: Result<(), Failure>) -> HealthCheckResultVariant {
    match outcome {
        Ok(()) => HealthCheckResultVariant::Success,
        Err(f) => if f.code == DISABLED_EXIT_CODE {
            HealthCheckResultVariant::Disabled
        } else {
            HealthCheckResultVariant::Failure { error: f.stderr }
        },
    }
}

impl HealthCheck {
    /// The result that the end of this check's invocation stands for, found
    /// at `now`.
    pub fn check(&self, outcome: Result<(), Failure>, now: Timestamp) -> (r: HealthCheckResult)
        ensures
            r.time == now,
            r.result == variant_of(outcome),
    {
        HealthCheckResult::check(outcome, now)
    }
}

impl HealthCheckResult {
    /// The result that the end of a check's invocation stands for, found at
    /// `now`.
    pub fn check(outcome: Result<(), Failure>, now: Timestamp) -> (r: HealthCheckResult)
        ensures
            r.time == now,
            r.result == variant_of(outcome),
    {
        let result = match outcome {
            Ok(()) => HealthCheckResultVariant::Success,
            Err(f) => {
                if f.code == DISABLED_EXIT_CODE {
                    HealthCheckResultVariant::Disabled
                } else {
                    HealthCheckResultVariant::Failure { error: f.stderr }
                }
            },
        };
        HealthCheckResult { time: now, result }
    }

    /// Did the check fail?
    pub fn failed(&self) -> (b: bool)
        ensures
            b == (self.result is Failure),
    {
        match &self.result {
            HealthCheckResultVariant::Failure { .. } => true,
            _ => false,
        }
    }

    /// Did the check succeed?
    pub fn succeeded(&self) -> (b: bool)
        ensures
            b == (self.result is Success),
    {
        match &self.result {
            HealthCheckResultVariant::Success => true,
            _ => false,
        }
    }
}

} // verus!
