//! One run of configuring, step by step. The run asks for one action at a
//! time and is told how it ended; what follows from that is decided here,
//! and nothing here writes to the record. The packages that are being
//! configured stand on a stack: at the bottom the one that was asked for, and
//! above each package the dependent that is configured anew because of it.

use vstd::prelude::*;
use crate::action::docker::{run_args_of, Failure};
use crate::config::{configuration_error_kind, ConfigurationError};
use crate::config::action::{declared_only, ConfigRes};
use crate::config::cascade::complete;
use crate::config::configure::{
    after_check, breakages_view, check_plan, checks_upto, checks_view, current_document, get,
    mark_rounds, marked, pointers_see_change, settle, settles, Chosen, Configuration,
    DependentCheck,
};
use crate::config::pointer::{PointerSources, SourcesView};
use crate::config::spec::{fields_violation, PackagePointerSpecVariant};
use crate::config::value::{clone_config, config_view, documents, Json, JsonView, Property};
use crate::db::{installed_at, AllPackageData, PackageDataEntry};
use crate::dependencies::DependencyErrorView;
use crate::error::{Error, ErrorKind};
use crate::id::{is_package_id, PackageId};
use crate::ordered_map::{
    has_key, lookup, names_in, position_by_keys, position_finds, upsert, OrderedMap,
};
use crate::text::{clone_strings, texts};

verus! {

/// One package that is being configured.
pub struct Frame {
    /// The package.
    pub id: PackageId,
    /// Is its configuration still to be read?
    pub reading: bool,
    /// The configuration that was supplied for it, where one was.
    pub supplied: Option<Vec<Property>>,
    /// The configuration it is given, once that is settled.
    pub config: Vec<Property>,
    /// The configuration it had, as a document.
    pub prev: Json,
    /// The checks that its dependents run against the new configuration.
    pub plan: Vec<DependentCheck>,
    /// How many of the checks have run.
    pub at: usize,
}

/// One run of configuring.
pub struct Session {
    /// The packages that are being configured, the innermost last.
    pub frames: Vec<Frame>,
    /// What the run has decided so far.
    pub run: Configuration,
    /// The configurations that were read in this run, by package.
    pub configs: OrderedMap<Vec<Property>>,
    /// Is the run dry: is no configuration to be written?
    pub dry_run: bool,
}

/// What the run asks for next.
#[derive(Debug)]
pub enum Request {
    /// Run the action that reads the configuration of `package`.
    Read { package: String, argv: Vec<String> },
    /// Run the check of `dependent` against `input`, the new configuration
    /// of `package`.
    Check { package: String, dependent: String, argv: Vec<String>, input: Vec<Property> },
    /// Run the action that writes `input`, the new configuration of
    /// `package`.
    Write { package: String, argv: Vec<String>, input: Vec<Property> },
    /// Nothing: the run is over.
    Done,
}

/// A request as a plain value.
pub enum RequestView {
    Read { package: Seq<char>, argv: Seq<Seq<char>> },
    Check {
        package: Seq<char>,
        dependent: Seq<char>,
        argv: Seq<Seq<char>>,
        input: Seq<(Seq<char>, JsonView)>,
    },
    Write { package: Seq<char>, argv: Seq<Seq<char>>, input: Seq<(Seq<char>, JsonView)> },
    Done,
}

impl View for Request {
    type V = RequestView;

    open spec fn view(&self) -> RequestView {
        match *self {
            Request::Read { package, argv } => RequestView::Read {
                package: package@,
                argv: texts(argv@),
            },
            Request::Check { package, dependent, argv, input } => RequestView::Check {
                package: package@,
                dependent: dependent@,
                argv: texts(argv@),
                input: config_view(input@),
            },
            Request::Write { package, argv, input } => RequestView::Write {
                package: package@,
                argv: texts(argv@),
                input: config_view(input@),
            },
            Request::Done => RequestView::Done,
        }
    }
}

/// The arguments that run the action that reads the configuration of
/// package `id`, where it is installed and has a configuration.
pub open spec fn read_args(db: Seq<(Seq<char>, PackageDataEntry)>, id: Seq<char>) -> Option<
    Seq<Seq<char>>,
> {
    match installed_at(db, id) {
        Some(installed) => match installed.manifest.config {
            Some(actions) => Some(
                run_args_of(
                    actions.get->Docker_0,
                    id,
                    installed.manifest.version,
                    installed.manifest.volumes@,
                ),
            ),
            None => None,
        },
        None => None,
    }
}

/// The arguments that run the action that writes the configuration of
/// package `id`, where it is installed and has a configuration.
pub open spec fn write_args(db: Seq<(Seq<char>, PackageDataEntry)>, id: Seq<char>) -> Option<
    Seq<Seq<char>>,
> {
    match installed_at(db, id) {
        Some(installed) => match installed.manifest.config {
            Some(actions) => Some(
                run_args_of(
                    actions.set->Docker_0,
                    id,
                    installed.manifest.version,
                    installed.manifest.volumes@,
                ),
            ),
            None => None,
        },
        None => None,
    }
}

/// What a run with these packages on its stack asks for: nothing where
/// the stack is empty; for a package whose configuration is still to be read,
/// that it be read; for one with checks left to run, the next check; and for
/// one whose checks have all run, that its configuration be written. A
/// package that is not installed or has no configuration is an error of kind
/// `NotFound`.
pub open spec fn asked(frames: Seq<Frame>, db: Seq<(Seq<char>, PackageDataEntry)>) -> Result<
    RequestView,
    ErrorKind,
> {
    if frames.len() == 0 {
        Ok(RequestView::Done)
    } else {
        let top = frames.last();
        if top.reading {
            match read_args(db, top.id@) {
                Some(argv) => Ok(RequestView::Read { package: top.id@, argv }),
                None => Err(ErrorKind::NotFound),
            }
        } else if top.at < top.plan@.len() {
            Ok(
                RequestView::Check {
                    package: top.id@,
                    dependent: top.plan@[top.at as int].dependent@,
                    argv: texts(top.plan@[top.at as int].argv@),
                    input: config_view(top.config@),
                },
            )
        } else {
            match write_args(db, top.id@) {
                Some(argv) => Ok(
                    RequestView::Write { package: top.id@, argv, input: config_view(top.config@) },
                ),
                None => Err(ErrorKind::NotFound),
            }
        }
    }
}

/// Is the run waiting to be told how reading a configuration ended?
pub open spec fn awaits_read(frames: Seq<Frame>) -> bool {
    frames.len() > 0 && frames.last().reading
}

/// Is the run waiting to be told how a check ended?
pub open spec fn awaits_check(frames: Seq<Frame>) -> bool {
    frames.len() > 0 && !frames.last().reading && frames.last().at < frames.last().plan@.len()
}

/// Is the run waiting to be told how writing a configuration ended?
pub open spec fn awaits_write(frames: Seq<Frame>) -> bool {
    frames.len() > 0 && !frames.last().reading && frames.last().at >= frames.last().plan@.len()
}

/// Recording a configuration reads the same as plain values.
pub proof fn documents_upsert(
    before: Seq<(Seq<char>, Vec<Property>)>,
    id: Seq<char>,
    config: Vec<Property>,
)
    ensures
        documents(upsert(before, id, config)) == upsert(documents(before), id, config_view(config@)),
{
    position_by_keys(before, documents(before), id);
    position_finds(before, id);
    assert(documents(upsert(before, id, config)) =~= upsert(
        documents(before),
        id,
        config_view(config@),
    ));
}

/// Is the run `after` the run `before` with nothing decided anew?
pub open spec fn undecided(before: Session, after: Session) -> bool {
    after.frames@ == before.frames@ && after.run == before.run
}

/// Has the package of the frame been settled, with all its checks run?
pub open spec fn finished(frame: Frame) -> bool {
    !frame.reading && frame.at >= frame.plan@.len()
}

/// The stack as it stands when the next request is asked for: in a dry
/// run every package on top that is finished leaves it unwritten; in any
/// other run the stack stays as it is.
pub open spec fn unwound(frames: Seq<Frame>, dry_run: bool) -> Seq<Frame>
    decreases frames.len(),
{
    if dry_run && frames.len() > 0 && finished(frames.last()) {
        unwound(frames.drop_last(), dry_run)
    } else {
        frames
    }
}

/// The frame of a package once its configuration is settled: the package
/// is given `chosen`, it had `current`, the checks in `planned` are to run,
/// and none has run yet.
pub open spec fn settled_frame(
    frame: Frame,
    id: PackageId,
    current: ConfigRes,
    chosen: Chosen,
    planned: Seq<(Seq<char>, Seq<Seq<char>>)>,
) -> bool {
    &&& frame.id == id
    &&& !frame.reading
    &&& frame.config == chosen.config
    &&& frame.prev@ == current_document(current.config)
    &&& checks_view(frame.plan@) == planned
    &&& frame.at == 0
}

/// `after` and `r` are what follows in the run `before` from the choice
/// `chosen` of a configuration for the innermost package, which had
/// `current`. A run that does not wait for it is told so by an error of kind
/// `Unknown`. A choice that changes nothing ends the configuring of that
/// package: it leaves the stack. Any other choice is recorded in the run, and
/// the checks of the package's dependents are planned, in the order of the
/// dependents; where that fails, the error is that of the planning, and
/// nothing is decided.
pub open spec fn settled_in(
    before: Session,
    after: Session,
    db: Seq<(Seq<char>, PackageDataEntry)>,
    current: ConfigRes,
    chosen: Chosen,
    r: Result<(), Error>,
) -> bool {
    if !awaits_read(before.frames@) {
        r matches Err(e) && e.kind == ErrorKind::Unknown && undecided(before, after)
    } else if !chosen.changed {
        r is Ok && after.frames@ == before.frames@.drop_last() && after.run == before.run
    } else {
        let top = before.frames@.last();
        match installed_at(db, top.id@) {
            None => r matches Err(e) && e.kind == ErrorKind::NotFound && undecided(before, after),
            Some(installed) => match checks_upto(
                db,
                top.id@,
                names_in(installed.dependents@),
                installed.dependents@.len() as int,
            ) {
                Err(()) => r matches Err(e) && e.kind == ErrorKind::Database && undecided(
                    before,
                    after,
                ),
                Ok(planned) => {
                    &&& r is Ok
                    &&& after.frames@.len() == before.frames@.len()
                    &&& after.frames@.drop_last() == before.frames@.drop_last()
                    &&& settled_frame(after.frames@.last(), top.id, current, chosen, planned)
                    &&& documents(after.run.overrides@) == upsert(
                        documents(before.run.overrides@),
                        top.id@,
                        config_view(chosen.config@),
                    )
                    &&& after.run.breakages == before.run.breakages
                },
            },
        }
    }
}

/// The pointers by which `dependent` looks into the installed package
/// `id`; none where it is not among the dependents.
pub open spec fn pointers_of(
    db: Seq<(Seq<char>, PackageDataEntry)>,
    id: Seq<char>,
    dependent: Seq<char>,
) -> Seq<PackagePointerSpecVariant> {
    match lookup(installed_at(db, id)->0.dependents@, dependent) {
        Some(pointers) => pointers@,
        None => Seq::empty(),
    }
}

/// `after` and `r` are what follows in the run `before` from the end
/// `outcome` of the check that the run waits for. A run that waits for none
/// is told so by an error of kind `Unknown`; a dependent whose name is not
/// that of a package is an error of kind `Database`, and a package that is
/// not installed one of kind `NotFound`; each leaves everything undecided.
/// Otherwise the check counts as run. A check that failed breaks the
/// dependent and, through the cascade, the packages behind it. A check that
/// passed breaks nothing, and where one of the dependent's pointers sees a
/// change, the dependent is put on the stack to be configured anew.
pub open spec fn checked_in(
    before: Session,
    after: Session,
    db: Seq<(Seq<char>, PackageDataEntry)>,
    outcome: Result<(), Failure>,
    r: Result<(), Error>,
) -> bool {
    if !awaits_check(before.frames@) {
        r matches Err(e) && e.kind == ErrorKind::Unknown && undecided(before, after)
    } else {
        let top = before.frames@.last();
        let n = before.frames@.len() as int;
        let dependent = top.plan@[top.at as int].dependent@;
        if !is_package_id(dependent) {
            r matches Err(e) && e.kind == ErrorKind::Database && undecided(before, after)
        } else if installed_at(db, top.id@) is None {
            r matches Err(e) && e.kind == ErrorKind::NotFound && undecided(before, after)
        } else {
            let again = outcome is Ok && pointers_see_change(
                pointers_of(db, top.id@, dependent),
                top.prev@,
                JsonView::Object(config_view(top.config@)),
                0,
            );
            &&& r is Ok
            &&& after.run.overrides == before.run.overrides
            &&& match outcome {
                Ok(()) => after.run.breakages@ == before.run.breakages@,
                Err(f) => breakages_view(after.run.breakages@) == mark_rounds(
                    db,
                    marked(
                        breakages_view(before.run.breakages@),
                        dependent,
                        top.id@,
                        DependencyErrorView::ConfigUnsatisfied { error: f.stderr@ },
                    ),
                    db.len(),
                ) && has_key(after.run.breakages@, dependent) && complete(
                    db,
                    breakages_view(after.run.breakages@),
                ),
            }
            &&& after.frames@.len() == if again {
                n + 1
            } else {
                n
            }
            &&& after.frames@.take(n - 1) == before.frames@.drop_last()
            &&& after.frames@[n - 1] == (Frame { at: (top.at + 1) as usize, ..top })
            &&& again ==> {
                let child = after.frames@[n];
                &&& child.id@ == dependent
                &&& child.reading
                &&& child.supplied is None
            }
        }
    }
}

/// `after` and `r` are what follows in the run `before` from the end
/// `outcome` of writing the configuration of the innermost package. A run
/// that does not wait for it, as a dry run never does, is told so by an
/// error of kind `Unknown`, and a
/// package that is not installed or has no configuration by one of kind
/// `NotFound`. A failed write is an error of kind `ConfigRulesViolation`
/// that carries what the action wrote to its standard error. Each of these
/// leaves everything undecided. After a successful write the package is
/// configured and leaves the stack, and the interfaces of its declared
/// dependencies that are now in use are handed back.
pub open spec fn written_in(
    before: Session,
    after: Session,
    db: Seq<(Seq<char>, PackageDataEntry)>,
    outcome: Result<OrderedMap<Vec<String>>, Failure>,
    r: Result<OrderedMap<Vec<String>>, Error>,
) -> bool {
    if before.dry_run || !awaits_write(before.frames@) {
        r matches Err(e) && e.kind == ErrorKind::Unknown && undecided(before, after)
    } else if write_args(db, before.frames@.last().id@) is None {
        r matches Err(e) && e.kind == ErrorKind::NotFound && undecided(before, after)
    } else {
        match outcome {
            Err(f) => r matches Err(e) && e.kind == ErrorKind::ConfigRulesViolation && e.message
                == f.stderr && undecided(before, after),
            Ok(used) => r matches Ok(kept) && kept@ == declared_only(
                used@,
                installed_at(db, before.frames@.last().id@)->0.manifest.dependencies.0@,
            ) && after.frames@ == before.frames@.drop_last() && after.run == before.run,
        }
    }
}

/// `after` and `r` are what follows in the run `before` from the end
/// `outcome` of reading the configuration of the innermost package. A run
/// that does not wait for it is told so by an error of kind `Unknown`, and a
/// package that is not installed or has no configuration by one of kind
/// `NotFound`; a failed read is an error of kind `ConfigGen` that carries
/// what the action wrote to its standard error. Otherwise the configuration
/// that was read is kept for the pointers of this run to read, a
/// configuration is chosen for the package, and the run goes on from that
/// choice; where none could be chosen, the error is of the kind of what
/// stood against it.
pub open spec fn read_in(
    before: Session,
    after: Session,
    db: Seq<(Seq<char>, PackageDataEntry)>,
    outcome: Result<ConfigRes, Failure>,
    r: Result<(), Error>,
) -> bool {
    if !awaits_read(before.frames@) {
        r matches Err(e) && e.kind == ErrorKind::Unknown && undecided(before, after)
    } else if read_args(db, before.frames@.last().id@) is None {
        r matches Err(e) && e.kind == ErrorKind::NotFound && undecided(before, after)
    } else {
        let top = before.frames@.last();
        match outcome {
            Err(f) => r matches Err(e) && e.kind == ErrorKind::ConfigGen && e.message == f.stderr
                && undecided(before, after),
            Ok(current) => {
                &&& documents(after.configs@) == match current.config {
                    Some(had) => upsert(documents(before.configs@), top.id@, config_view(had@)),
                    None => documents(before.configs@),
                }
                &&& exists|choice: Result<Chosen, ConfigurationError>| #[trigger]
                    settles(
                        current,
                        top.supplied,
                        SourcesView {
                            db,
                            overrides: before.run.overrides@,
                            configs: after.configs@,
                        },
                        choice,
                    ) && match choice {
                        Ok(chosen) => settled_in(before, after, db, current, chosen, r),
                        Err(error) => r matches Err(e) && e.kind == configuration_error_kind(error)
                            && undecided(before, after),
                    }
            },
        }
    }
}

/// A choice made from a copy of what was supplied is a choice made from
/// what was supplied.
proof fn settles_for_copy(
    current: ConfigRes,
    supplied: Option<Vec<Property>>,
    copy: Option<Vec<Property>>,
    sources: SourcesView,
    choice: Result<Chosen, ConfigurationError>,
)
    requires
        settles(current, copy, sources, choice),
        supplied is Some == copy is Some,
        supplied is Some ==> config_view(copy->0@) == config_view(supplied->0@),
    ensures
        settles(current, supplied, sources, choice),
{
}

/// A supplied configuration that does not match the schema is refused:
/// the run is told so by an error of kind `ConfigSpecViolation`, nothing is
/// decided, and what the run asks for next is still the read, not a write.
pub proof fn refused_configuration_decides_nothing(
    before: Session,
    after: Session,
    db: Seq<(Seq<char>, PackageDataEntry)>,
    current: ConfigRes,
    r: Result<(), Error>,
)
    requires
        awaits_read(before.frames@),
        read_args(db, before.frames@.last().id@) is Some,
        before.frames@.last().supplied matches Some(given) && fields_violation(
            current.spec.0@,
            config_view(given@),
            0,
        ) is Some,
        read_in(before, after, db, Ok(current), r),
        after.dry_run == before.dry_run,
    ensures
        r matches Err(e) && e.kind == ErrorKind::ConfigSpecViolation,
        undecided(before, after),
        asked(unwound(after.frames@, after.dry_run), db) is Ok,
        asked(unwound(after.frames@, after.dry_run), db)->Ok_0 is Read,
{
    let top = before.frames@.last();
    let choice = choose|choice: Result<Chosen, ConfigurationError>| #[trigger]
        settles(
            current,
            top.supplied,
            SourcesView { db, overrides: before.run.overrides@, configs: after.configs@ },
            choice,
        ) && match choice {
            Ok(chosen) => settled_in(before, after, db, current, chosen, r),
            Err(error) => r matches Err(e) && e.kind == configuration_error_kind(error)
                && undecided(before, after),
        };
    assert(choice is Err);
}

/// A frame for a package whose configuration is still to be read.
fn reading_frame(id: PackageId, supplied: Option<Vec<Property>>) -> (f: Frame)
    ensures
        f.id == id,
        f.reading,
        f.supplied == supplied,
        f.config@.len() == 0,
        f.prev is Null,
        f.plan@.len() == 0,
        f.at == 0,
{
    Frame {
        id,
        reading: true,
        supplied,
        config: Vec::new(),
        prev: Json::Null,
        plan: Vec::new(),
        at: 0,
    }
}

impl Session {
    /// A run that configures package `id`, with the configuration that was
    /// supplied for it, where one was: nothing is decided yet, and the
    /// configuration of `id` is to be read first. A dry run goes through the
    /// same steps, but never asks for a configuration to be written.
    pub fn begin(id: &PackageId, supplied: Option<Vec<Property>>, dry_run: bool) -> (s: Session)
        ensures
            s.frames@.len() == 1,
            s.frames@[0].id == *id,
            s.frames@[0].reading,
            s.frames@[0].supplied == supplied,
            s.run.overrides@.len() == 0,
            s.run.breakages@.len() == 0,
            s.configs@.len() == 0,
            s.dry_run == dry_run,
    {
        let mut frames: Vec<Frame> = Vec::new();
        frames.push(reading_frame(id.clone(), supplied));
        Session { frames, run: Configuration::new(), configs: OrderedMap::new(), dry_run }
    }

    /// What the run asks for next. In a dry run the packages that are
    /// finished leave the stack first, so that no write is ever asked for;
    /// nothing else of the run changes.
    pub fn request(&mut self, db: &AllPackageData) -> (r: Result<Request, Error>)
        ensures
            final(self).frames@ == unwound(old(self).frames@, old(self).dry_run),
            final(self).run == old(self).run,
            final(self).configs == old(self).configs,
            final(self).dry_run == old(self).dry_run,
            match asked(final(self).frames@, db.0@) {
                Ok(view) => r matches Ok(request) && request@ == view,
                Err(kind) => r matches Err(e) && e.kind == kind,
            },
            old(self).dry_run ==> !(r matches Ok(Request::Write { .. })),
    {
        if self.dry_run {
            while self.frames.len() > 0 && !self.frames[self.frames.len() - 1].reading
                && self.frames[self.frames.len() - 1].at >= self.frames[self.frames.len()
                - 1].plan.len()
                invariant
                    self.dry_run,
                    self.run == old(self).run,
                    self.configs == old(self).configs,
                    unwound(self.frames@, true) == unwound(old(self).frames@, true),
                decreases self.frames@.len(),
            {
                self.frames.pop();
            }
        }
        let n = self.frames.len();
        if n == 0 {
            return Ok(Request::Done);
        }
        let top = &self.frames[n - 1];
        if top.reading {
            match get(db, &top.id) {
                Ok(argv) => Ok(Request::Read { package: top.id.as_str().to_owned(), argv }),
                Err(e) => Err(e),
            }
        } else if top.at < top.plan.len() {
            let check = &top.plan[top.at];
            Ok(
                Request::Check {
                    package: top.id.as_str().to_owned(),
                    dependent: check.dependent.clone(),
                    argv: clone_strings(&check.argv),
                    input: clone_config(&top.config),
                },
            )
        } else {
            match crate::config::configure::set(db, &top.id) {
                Ok(argv) => Ok(
                    Request::Write {
                        package: top.id.as_str().to_owned(),
                        argv,
                        input: clone_config(&top.config),
                    },
                ),
                Err(e) => Err(e),
            }
        }
    }

    /// Goes on from the choice `chosen` of a configuration for the innermost
    /// package, which had `current`.
    pub fn settled(&mut self, db: &AllPackageData, current: &ConfigRes, chosen: Chosen) -> (r: Result<
        (),
        Error,
    >)
        ensures
            settled_in(*old(self), *final(self), db.0@, *current, chosen, r),
            final(self).configs == old(self).configs,
            final(self).dry_run == old(self).dry_run,
    {
        let n = self.frames.len();
        if n == 0 || !self.frames[n - 1].reading {
            return Err(Error::of(ErrorKind::Unknown, "No Configuration Is Awaited"));
        }
        if !chosen.changed {
            self.frames.pop();
            return Ok(());
        }
        let plan = match check_plan(db, &self.frames[n - 1].id) {
            Ok(plan) => plan,
            Err(e) => {
                return Err(e);
            },
        };
        let prev = match &current.config {
            Some(had) => {
                let copy = clone_config(had);
                proof {
                    Json::object_view(copy);
                }
                Json::Object(copy)
            },
            None => Json::Null,
        };
        let top = match self.frames.pop() {
            Some(top) => top,
            None => {
                return Err(Error::of(ErrorKind::Unknown, "No Configuration Is Awaited"));
            },
        };
        let Frame { id, reading: _, supplied: _, config: _, prev: _, plan: _, at: _ } = top;
        let Chosen { config, changed: _ } = chosen;
        let copy = clone_config(&config);
        proof {
            documents_upsert(self.run.overrides@, id@, copy);
        }
        self.run.record(&id, copy);
        self.frames.push(
            Frame { id, reading: false, supplied: None, config, prev, plan, at: 0 },
        );
        proof {
            assert(self.frames@.drop_last() =~= old(self).frames@.drop_last());
        }
        Ok(())
    }

    /// Goes on from the end `outcome` of reading the configuration of the
    /// innermost package: a configuration is chosen for it, generated with
    /// `rng` within `timeout` where there is none to start from, and the run
    /// goes on from that choice.
    pub fn read(
        &mut self,
        db: &AllPackageData,
        outcome: Result<ConfigRes, Failure>,
        rng: &mut rand::rngs::StdRng,
        timeout: &Option<u64>,
    ) -> (r: Result<(), Error>)
        ensures
            read_in(*old(self), *final(self), db.0@, outcome, r),
            final(self).dry_run == old(self).dry_run,
    {
        let n = self.frames.len();
        if n == 0 || !self.frames[n - 1].reading {
            return Err(Error::of(ErrorKind::Unknown, "No Configuration Is Awaited"));
        }
        let current = {
            let top = &self.frames[n - 1];
            let actions = match db.installed(top.id.as_str()) {
                Some(installed) => match &installed.manifest.config {
                    Some(actions) => actions,
                    None => {
                        return Err(Error::of(ErrorKind::NotFound, "Package Has No Config"));
                    },
                },
                None => {
                    return Err(Error::of(ErrorKind::NotFound, "Package Is Not Installed"));
                },
            };
            match actions.get(outcome) {
                Ok(current) => current,
                Err(e) => {
                    return Err(e);
                },
            }
        };
        let choice = {
            let top = &self.frames[n - 1];
            match &current.config {
                Some(had) => {
                    let copy = clone_config(had);
                    proof {
                        documents_upsert(self.configs@, top.id@, copy);
                    }
                    self.configs.insert(top.id.as_str().to_owned(), copy);
                },
                None => {},
            }
            let supplied = match &top.supplied {
                Some(given) => Some(clone_config(given)),
                None => None,
            };
            let sources = PointerSources {
                db,
                overrides: &self.run.overrides,
                configs: &self.configs,
            };
            let choice = settle(&current, supplied, &sources, rng, timeout);
            proof {
                settles_for_copy(current, top.supplied, supplied, sources@, choice);
            }
            choice
        };
        match choice {
            Ok(chosen) => self.settled(db, &current, chosen),
            Err(error) => {
                let kind = error.kind();
                match error {
                    ConfigurationError::NoMatch(e) => Err(Error::new(e.to_string(), kind)),
                    ConfigurationError::TimeoutError(_) => Err(Error::of(kind, "Timeout Error")),
                    ConfigurationError::SystemError(e) => Err(e),
                }
            },
        }
    }

    /// Goes on from the end `outcome` of the check that the run waits for.
    pub fn checked(&mut self, db: &AllPackageData, outcome: Result<(), Failure>) -> (r: Result<
        (),
        Error,
    >)
        ensures
            checked_in(*old(self), *final(self), db.0@, outcome, r),
            final(self).configs == old(self).configs,
            final(self).dry_run == old(self).dry_run,
    {
        let n = self.frames.len();
        if n == 0 || self.frames[n - 1].reading || self.frames[n - 1].at >= self.frames[n
            - 1].plan.len() {
            return Err(Error::of(ErrorKind::Unknown, "No Check Is Awaited"));
        }
        let child = match PackageId::new(self.frames[n - 1].plan[self.frames[n - 1].at].dependent.as_str()) {
            Ok(child) => child,
            Err(_) => {
                return Err(Error::of(ErrorKind::Database, "Dependent Is Not A Package"));
            },
        };
        let installed = match db.installed(self.frames[n - 1].id.as_str()) {
            Some(installed) => installed,
            None => {
                return Err(Error::of(ErrorKind::NotFound, "Package Is Not Installed"));
            },
        };
        let none: Vec<PackagePointerSpecVariant> = Vec::new();
        let pointers = match installed.dependents.get(child.as_str()) {
            Some(pointers) => pointers,
            None => &none,
        };
        let top = match self.frames.pop() {
            Some(top) => top,
            None => {
                return Err(Error::of(ErrorKind::Unknown, "No Check Is Awaited"));
            },
        };
        let next = Json::Object(clone_config(&top.config));
        proof {
            Json::object_view(next->Object_0);
        }
        let again = after_check(
            &mut self.run.breakages,
            db,
            &top.id,
            child.as_str(),
            outcome,
            pointers,
            &top.prev,
            &next,
        );
        let Frame { id, reading, supplied, config, prev, plan, at } = top;
        self.frames.push(Frame { id, reading, supplied, config, prev, plan, at: at + 1 });
        proof {
            assert(self.frames@.take(n as int - 1) =~= old(self).frames@.drop_last());
        }
        if again {
            self.frames.push(reading_frame(child, None));
            proof {
                assert(self.frames@.take(n as int - 1) =~= old(self).frames@.drop_last());
            }
        }
        Ok(())
    }

    /// Goes on from the end `outcome` of writing the configuration of the
    /// innermost package.
    pub fn written(
        &mut self,
        db: &AllPackageData,
        outcome: Result<OrderedMap<Vec<String>>, Failure>,
    ) -> (r: Result<OrderedMap<Vec<String>>, Error>)
        ensures
            written_in(*old(self), *final(self), db.0@, outcome, r),
            final(self).configs == old(self).configs,
            final(self).dry_run == old(self).dry_run,
    {
        let n = self.frames.len();
        if self.dry_run || n == 0 || self.frames[n - 1].reading || self.frames[n - 1].at
            < self.frames[n - 1].plan.len() {
            return Err(Error::of(ErrorKind::Unknown, "No Configuration Is Being Written"));
        }
        let kept = match db.installed(self.frames[n - 1].id.as_str()) {
            Some(installed) => match &installed.manifest.config {
                Some(actions) => match actions.set(&installed.manifest.dependencies.0, outcome) {
                    Ok(kept) => kept,
                    Err(e) => {
                        return Err(e);
                    },
                },
                None => {
                    return Err(Error::of(ErrorKind::NotFound, "Package Has No Config"));
                },
            },
            None => {
                return Err(Error::of(ErrorKind::NotFound, "Package Is Not Installed"));
            },
        };
        self.frames.pop();
        Ok(kept)
    }
}

} // verus!
