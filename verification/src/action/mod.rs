//! Actions: the lifecycle hooks of a package, each a container invocation.

pub mod docker;
pub mod format;
use vstd::prelude::*;
use crate::action::docker::{
    create_args_of, interpreted, run_args_of, DockerAction, Exit, Failure, Output,
};
use crate::config::spec::{fields_violation, ConfigSpec};
use crate::config::value::{config_view, Property};
use crate::error::{Error, ErrorKind};
use crate::id::{Id, PackageId};
use crate::net::IpPool;
use crate::text::texts;
use crate::version::Version;
use crate::volume::Volumes;

verus! {

/// The name of an action that the user can trigger.
#[derive(Debug)]
pub struct ActionId(pub Id);

impl ActionId {
    /// The text of the name.
    pub fn as_str(&self) -> (s: &str)
        ensures
            s@ == self.0@,
    {
        self.0.as_str()
    }
}

/// What the runtime reports a container as.
#[derive(Clone, Copy, Debug, PartialEq, Eq, Structural)]
pub enum DockerStatus {
    Running,
    Stopped,
    Paused,
}

/// The outcome of an action that the user triggered.
pub enum ActionResult {
    V0(ActionResultV0),
}

/// A value that is shown as it is: no list and no object.
pub enum ValuePrimative {
    Null,
    Boolean(bool),
    String(String),
    Number(crate::config::value::Number),
}

/// What a document is as a value that is shown as it is.
pub open spec fn primitive_of(v: crate::config::value::JsonView) -> Option<
    crate::config::value::JsonView,
> {
    match v {
        crate::config::value::JsonView::Array(_) => None,
        crate::config::value::JsonView::Object(_) => None,
        other => Some(other),
    }
}

impl ValuePrimative {
    /// The value as a document.
    pub open spec fn document(self) -> crate::config::value::JsonView {
        match self {
            ValuePrimative::Null => crate::config::value::JsonView::Null,
            ValuePrimative::Boolean(b) => crate::config::value::JsonView::Bool(b),
            ValuePrimative::String(s) => crate::config::value::JsonView::String(s@),
            ValuePrimative::Number(n) => crate::config::value::JsonView::Number {
                text: n.text@,
                floor: n.floor,
                integral: n.integral,
            },
        }
    }

    /// Reads a document as a value that is shown as it is: null, a
    /// boolean, a string or a number. A list and an object are none.
    pub fn deserialize(v: &crate::config::value::Json) -> (r: Option<ValuePrimative>)
        ensures
            r is Some <==> primitive_of(v@) is Some,
            r matches Some(p) ==> Some(p.document()) == primitive_of(v@),
    {
        match v {
            crate::config::value::Json::Null => Some(ValuePrimative::Null),
            crate::config::value::Json::Bool(b) => Some(ValuePrimative::Boolean(*b)),
            crate::config::value::Json::String(s) => Some(ValuePrimative::String(s.clone())),
            crate::config::value::Json::Number(n) => Some(ValuePrimative::Number(n.clone())),
            crate::config::value::Json::Array(_) => None,
            crate::config::value::Json::Object(_) => None,
        }
    }
}

/// The outcome of an action, first version.
pub struct ActionResultV0 {
    pub message: String,
    pub value: ValuePrimative,
    pub copyable: bool,
    pub qr: bool,
}

/// An action that the user can trigger.
pub struct Action {
    pub name: String,
    pub description: String,
    pub warning: Option<String>,
    pub implementation: ActionImplementation,
    pub allowed_statuses: Vec<DockerStatus>,
    pub input_spec: ConfigSpec,
}

impl Action {
    /// Holds the input against the action's schema and, where it matches,
    /// gives the arguments that run the action. Input that does not match is
    /// an error of kind `ConfigSpecViolation`, and nothing is run.
    pub fn execute(
        &self,
        pkg_id: &PackageId,
        pkg_version: &Version,
        volumes: &Volumes,
        input: &Vec<Property>,
    ) -> (r: Result<Vec<String>, Error>)
        ensures
            r is Ok <==> fields_violation(self.input_spec.0@, config_view(input@), 0) is None,
            r matches Ok(argv) ==> texts(argv@) == run_args_of(
                self.implementation->Docker_0,
                pkg_id@,
                *pkg_version,
                volumes@,
            ),
            r matches Err(e) ==> e.kind == ErrorKind::ConfigSpecViolation,
    {
        match self.input_spec.matches(input) {
            Err(_) => Err(Error::of(ErrorKind::ConfigSpecViolation, "Input Does Not Match Spec")),
            Ok(()) => Ok(self.implementation.invocation(pkg_id, pkg_version, volumes)),
        }
    }

    /// What the end of the action's invocation means to the user: the
    /// output, or the text of the standard error of a failed run.
    pub fn outcome(&self, result: Result<Output, Failure>) -> (r: Result<Output, String>)
        ensures
            r is Ok <==> result is Ok,
            r matches Ok(o) ==> o == result->Ok_0,
            r matches Err(text) ==> text == result->Err_0.stderr,
    {
        match result {
            Ok(o) => Ok(o),
            Err(f) => Err(f.stderr),
        }
    }
}

/// How an action is carried out. There is one way today: a container
/// invocation.
pub enum ActionImplementation {
    Docker(DockerAction),
}

impl ActionImplementation {
    /// Prepares the creation of the package's container: takes an address
    /// from `ip_pool` and gives the arguments for the runtime. Fails, with kind
    /// `Network` and the pool untouched, exactly when no address is free.
    pub fn install(
        &self,
        pkg_id: &PackageId,
        pkg_version: &Version,
        volumes: &Volumes,
        ip_pool: &mut IpPool,
    ) -> (r: Result<(u32, Vec<String>), Error>)
        ensures
            r is Err <==> !old(ip_pool).has_free(),
            r matches Err(e) ==> e.kind == ErrorKind::Network && *final(ip_pool) == *old(ip_pool),
            r matches Ok(created) ==> old(ip_pool).leases(*final(ip_pool), created.0) && texts(
                created.1@,
            ) == create_args_of(self->Docker_0, pkg_id@, *pkg_version, volumes@, created.0),
    {
        match self {
            ActionImplementation::Docker(action) => action.create(
                pkg_id,
                pkg_version,
                volumes,
                ip_pool,
            ),
        }
    }

    /// The arguments that run the action.
    pub fn invocation(&self, pkg_id: &PackageId, pkg_version: &Version, volumes: &Volumes) -> (argv:
        Vec<String>)
        ensures
            texts(argv@) == run_args_of(self->Docker_0, pkg_id@, *pkg_version, volumes@),
    {
        match self {
            ActionImplementation::Docker(action) => action.invocation(pkg_id, pkg_version, volumes),
        }
    }

    /// Reads the end of the action's invocation, as `DockerAction::interpret`
    /// does.
    pub fn execute(&self, exit: Exit) -> (r: Result<Result<Output, Failure>, Error>)
        ensures
            interpreted(self->Docker_0, exit, r),
    {
        match self {
            ActionImplementation::Docker(action) => action.interpret(exit),
        }
    }
}

} // verus!
