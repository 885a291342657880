//! The order of a materialization: every directory first, one after the
//! other, then all units side by side, then the outcome.
//!
//! A [`Pipeline`] performs nothing itself. It says what is to be done next,
//! takes the outcome of what was done, and keeps the first failure.

use crate::failure::{failure_of, Failure, FailureKind, FailureModel};
use vstd::prelude::*;

verus! {

/// What is to be done next.
#[derive(Clone, Debug, PartialEq, Eq)]
pub enum Action {
    /// Create this directory, with its missing ancestors; one that exists
    /// already counts as created.
    CreateDirectory(String),
    /// Run all units side by side and wait for every one of them.
    RunUnits,
    /// Nothing is left to do.
    Stop,
}

/// An action as a mathematical value.
pub enum ActionModel {
    CreateDirectory(Seq<char>),
    RunUnits,
    Stop,
}

impl View for Action {
    type V = ActionModel;

    open spec fn view(&self) -> ActionModel {
        match self {
            Action::CreateDirectory(path) => ActionModel::CreateDirectory(path@),
            Action::RunUnits => ActionModel::RunUnits,
            Action::Stop => ActionModel::Stop,
        }
    }
}

/// A pipeline as a mathematical value: the directories to create, how many
/// of them have been created, whether the units have been joined, and the
/// failure that ended the run, if one did.
pub struct PipelineModel {
    pub directories: Seq<Seq<char>>,
    pub directory_failure: FailureKind,
    pub created: nat,
    pub joined: bool,
    pub failure: Option<FailureModel>,
}

/// What came back from the caller.
pub enum Event {
    /// The directory that was asked for was created, or could not be, for
    /// the cause given.
    Directory(Option<Seq<char>>),
    /// All units have ended, and this is their first failure, if any.
    Joined(Option<FailureModel>),
}

impl PipelineModel {
    /// The pipeline before anything was done.
    pub open spec fn start(directories: Seq<Seq<char>>, directory_failure: FailureKind) -> Self {
        PipelineModel { directories, directory_failure, created: 0, joined: false, failure: None }
    }

    /// No more directories are created than there are, and the units are
    /// joined only after all of them.
    pub open spec fn wf(self) -> bool {
        &&& self.created <= self.directories.len()
        &&& self.joined ==> self.created == self.directories.len()
    }

    /// What is to be done next: nothing after a failure; else the next
    /// directory, as long as one is left; else the units, once.
    pub open spec fn next(self) -> ActionModel {
        if self.failure is Some {
            ActionModel::Stop
        } else if self.created < self.directories.len() {
            ActionModel::CreateDirectory(self.directories[self.created as int])
        } else if !self.joined {
            ActionModel::RunUnits
        } else {
            ActionModel::Stop
        }
    }

    /// The pipeline after a directory was reported as created (`None`) or as
    /// failed for a cause. A report that was not asked for changes nothing.
    pub open spec fn after_directory(self, cause: Option<Seq<char>>) -> Self {
        if self.next() is CreateDirectory {
            match cause {
                None => PipelineModel { created: self.created + 1, ..self },
                Some(cause) => PipelineModel {
                    failure: Some(
                        FailureModel {
                            kind: self.directory_failure,
                            path: self.directories[self.created as int],
                            cause,
                        },
                    ),
                    ..self
                },
            }
        } else {
            self
        }
    }

    /// The pipeline after the units were joined with the given first
    /// failure. A join that was not asked for changes nothing.
    pub open spec fn after_join(self, failure: Option<FailureModel>) -> Self {
        if self.next() is RunUnits {
            PipelineModel { joined: true, failure, ..self }
        } else {
            self
        }
    }

    /// The pipeline after one event.
    pub open spec fn after(self, event: Event) -> Self {
        match event {
            Event::Directory(cause) => self.after_directory(cause),
            Event::Joined(failure) => self.after_join(failure),
        }
    }

    /// The pipeline after a sequence of events.
    pub open spec fn after_all(self, events: Seq<Event>) -> Self
        decreases events.len(),
    {
        if events.len() == 0 {
            self
        } else {
            self.after_all(events.drop_last()).after(events.last())
        }
    }

    /// How the run ended: `None` while it is going on, and otherwise the
    /// failure that ended it, or none where it ended well.
    pub open spec fn outcome(self) -> Option<Option<FailureModel>> {
        if self.failure is Some {
            Some(self.failure)
        } else if self.joined {
            Some(None)
        } else {
            None
        }
    }
}

/// The cause that a reported outcome carries, if it is a failure.
pub open spec fn cause_of(outcome: Result<(), String>) -> Option<Seq<char>> {
    match outcome {
        Ok(_) => None,
        Err(cause) => Some(cause@),
    }
}

/// The outcome of a pipeline as it is handed out.
pub open spec fn outcome_of(outcome: Option<Result<(), Failure>>) -> Option<Option<FailureModel>> {
    match outcome {
        None => None,
        Some(outcome) => Some(failure_of(outcome)),
    }
}

/// The state of one run through the two phases.
pub struct Pipeline {
    directories: Vec<String>,
    directory_failure: FailureKind,
    created: usize,
    joined: bool,
    failure: Option<Failure>,
}

impl View for Pipeline {
    type V = PipelineModel;

    closed spec fn view(&self) -> PipelineModel {
        PipelineModel {
            directories: self.directories.deep_view(),
            directory_failure: self.directory_failure,
            created: self.created as nat,
            joined: self.joined,
            failure: match self.failure {
                Some(failure) => Some(failure@),
                None => None,
            },
        }
    }
}

impl Pipeline {
    #[verifier::type_invariant]
    spec fn inv(self) -> bool {
        self@.wf()
    }

    /// A pipeline that creates `directories`, in this order, before its
    /// units run. A directory that cannot be created is reported as a
    /// failure of kind `directory_failure`.
    pub fn new(directories: Vec<String>, directory_failure: FailureKind) -> (pipeline: Pipeline)
        ensures
            pipeline@ == PipelineModel::start(directories.deep_view(), directory_failure),
    {
        Pipeline { directories, directory_failure, created: 0, joined: false, failure: None }
    }

    /// What is to be done next.
    pub fn next(&self) -> (action: Action)
        ensures
            action@ == self@.next(),
            self@.wf(),
    {
        proof {
            use_type_invariant(self);
        }
        if self.failure.is_some() {
            Action::Stop
        } else if self.created < self.directories.len() {
            Action::CreateDirectory(self.directories[self.created].clone())
        } else if !self.joined {
            Action::RunUnits
        } else {
            Action::Stop
        }
    }

    /// Takes the outcome of creating the directory that was asked for: on
    /// success the next directory is due, on failure the run ends with that
    /// failure. Where no directory was asked for, nothing changes.
    pub fn directory_done(&mut self, outcome: Result<(), String>)
        ensures
            final(self)@ == old(self)@.after_directory(cause_of(outcome)),
            final(self)@.wf(),
    {
        proof {
            use_type_invariant(&*self);
        }
        if self.failure.is_none() && self.created < self.directories.len() {
            match outcome {
                Ok(_) => {
                    self.created = self.created + 1;
                },
                Err(cause) => {
                    self.failure = Some(
                        Failure {
                            kind: self.directory_failure,
                            path: self.directories[self.created].clone(),
                            cause,
                        },
                    );
                },
            }
        }
    }

    /// Takes the outcome of the joined units: the run ends, with their first
    /// failure or well. Where the units were not asked for, nothing changes.
    pub fn units_joined(&mut self, outcome: Result<(), Failure>)
        ensures
            final(self)@ == old(self)@.after_join(failure_of(outcome)),
            final(self)@.wf(),
    {
        proof {
            use_type_invariant(&*self);
        }
        if self.failure.is_none() && self.created >= self.directories.len() && !self.joined {
            self.joined = true;
            match outcome {
                Ok(_) => {},
                Err(failure) => {
                    self.failure = Some(failure);
                },
            }
        }
    }

    /// How the run ended: `None` while it is going on.
    pub fn into_outcome(self) -> (outcome: Option<Result<(), Failure>>)
        ensures
            outcome_of(outcome) == self@.outcome(),
    {
        match self.failure {
            Some(failure) => Some(Err(failure)),
            None => if self.joined {
                Some(Ok(()))
            } else {
                None
            },
        }
    }
}

/// The reports among `events` that a directory was created.
pub open spec fn created_reports(events: Seq<Event>) -> Seq<Event> {
    events.filter(|event: Event| event == Event::Directory(None))
}

/// Whatever is reported, no more directories count as created than there
/// are, nor more than were reported as created, and the units are joined only
/// after all of them.
pub proof fn lemma_run_is_well_formed(
    directories: Seq<Seq<char>>,
    directory_failure: FailureKind,
    events: Seq<Event>,
)
    ensures
        PipelineModel::start(directories, directory_failure).after_all(events).wf(),
        PipelineModel::start(directories, directory_failure).after_all(events).directories
            == directories,
        PipelineModel::start(directories, directory_failure).after_all(events).created
            <= created_reports(events).len(),
    decreases events.len(),
{
    if events.len() > 0 {
        lemma_run_is_well_formed(directories, directory_failure, events.drop_last());
        events.drop_last().lemma_filter_push(
            events.last(),
            |event: Event| event == Event::Directory(None),
        );
        assert(events.drop_last().push(events.last()) =~= events);
    }
}

/// No unit runs until every directory is there: where the units are due,
/// every directory was reported as created, and nothing has failed.
pub proof fn lemma_units_follow_directories(
    directories: Seq<Seq<char>>,
    directory_failure: FailureKind,
    events: Seq<Event>,
)
    requires
        PipelineModel::start(directories, directory_failure).after_all(events).next() is RunUnits,
    ensures
        PipelineModel::start(directories, directory_failure).after_all(events).created
            == directories.len(),
        PipelineModel::start(directories, directory_failure).after_all(events).failure is None,
        created_reports(events).len() >= directories.len(),
{
    lemma_run_is_well_formed(directories, directory_failure, events);
}

/// A failure ends the run: nothing more is asked for, whatever is reported
/// later changes nothing, and the outcome is that failure.
pub proof fn lemma_failure_is_final(pipeline: PipelineModel, events: Seq<Event>)
    requires
        pipeline.failure is Some,
    ensures
        pipeline.next() is Stop,
        pipeline.after_all(events) == pipeline,
        pipeline.after_all(events).outcome() == Some(pipeline.failure),
    decreases events.len(),
{
    if events.len() > 0 {
        lemma_failure_is_final(pipeline, events.drop_last());
    }
}

/// A directory that cannot be created ends the run at once, with a failure
/// that names that directory; the directories after it are never asked for.
pub proof fn lemma_directory_failure_aborts(pipeline: PipelineModel, cause: Seq<char>)
    requires
        pipeline.next() is CreateDirectory,
    ensures
        pipeline.after_directory(Some(cause)).next() is Stop,
        pipeline.after_directory(Some(cause)).outcome() == Some(
            Some(
                FailureModel {
                    kind: pipeline.directory_failure,
                    path: pipeline.next()->CreateDirectory_0,
                    cause,
                },
            ),
        ),
{
}

/// Where every directory is reported as created, whether it was made or was
/// there already, the run reaches its units without a failure, however often
/// it is repeated.
pub proof fn lemma_created_directories_reach_units(
    directories: Seq<Seq<char>>,
    directory_failure: FailureKind,
    count: nat,
)
    requires
        count <= directories.len(),
    ensures
        PipelineModel::start(directories, directory_failure).after_all(
            Seq::new(count, |i: int| Event::Directory(None)),
        ) == (PipelineModel {
            created: count,
            ..PipelineModel::start(directories, directory_failure)
        }),
        count == directories.len() ==> PipelineModel::start(directories, directory_failure).after_all(
            Seq::new(count, |i: int| Event::Directory(None)),
        ).next() is RunUnits,
    decreases count,
{
    let events = Seq::new(count, |i: int| Event::Directory(None));
    if count > 0 {
        let fewer = Seq::new((count - 1) as nat, |i: int| Event::Directory(None));
        lemma_created_directories_reach_units(directories, directory_failure, (count - 1) as nat);
        assert(events.drop_last() =~= fewer);
    }
}

/// The units are joined once, and their first failure is the outcome.
pub proof fn lemma_join_ends_the_run(pipeline: PipelineModel, failure: Option<FailureModel>)
    requires
        pipeline.next() is RunUnits,
    ensures
        pipeline.after_join(failure).outcome() == Some(failure),
        pipeline.after_join(failure).next() is Stop,
{
}

} // verus!
