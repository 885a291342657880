//! Failures of an operation, and the slot that keeps the first of them.

use vstd::prelude::*;
use vstd::string::StringExecFns;

verus! {

/// What went wrong.
#[derive(Clone, Copy, Debug, PartialEq, Eq, Structural, Hash)]
pub enum FailureKind {
    /// The archive or the source could not be accessed.
    Open,
    /// The archive is structurally invalid.
    Format,
    /// One archive entry could not be decompressed.
    EntryRead,
    /// A directory could not be created.
    DirectoryCreate,
    /// A file could not be written.
    Write,
    /// A file or directory could not be copied.
    Copy,
    /// A source directory could not be listed.
    SourceRead,
}

/// A single failure: its kind, the offending path and the underlying cause.
#[derive(Clone, Debug, PartialEq, Eq)]
pub struct Failure {
    pub kind: FailureKind,
    pub path: String,
    pub cause: String,
}

/// A failure as a mathematical value.
pub struct FailureModel {
    pub kind: FailureKind,
    pub path: Seq<char>,
    pub cause: Seq<char>,
}

impl View for Failure {
    type V = FailureModel;

    open spec fn view(&self) -> FailureModel {
        FailureModel { kind: self.kind, path: self.path@, cause: self.cause@ }
    }
}

/// The text that introduces a failure of the given kind in a message.
pub open spec fn message_prefix(kind: FailureKind) -> Seq<char> {
    match kind {
        FailureKind::Open => "Failed to open ZIP: "@,
        FailureKind::Format => "Invalid ZIP file: "@,
        FailureKind::EntryRead => "Failed to read ZIP entry: "@,
        FailureKind::DirectoryCreate => "Failed to create directory "@,
        FailureKind::Write => "Failed to write "@,
        FailureKind::Copy => "Failed to copy directory: "@,
        FailureKind::SourceRead => "Failed to list "@,
    }
}

/// Whether messages of this kind name the offending path.
pub open spec fn names_path(kind: FailureKind) -> bool {
    match kind {
        FailureKind::Open | FailureKind::Format | FailureKind::EntryRead => false,
        _ => true,
    }
}

/// The message of a failure: the prefix of its kind, then, for the kinds that
/// name a path, the path and `": "`, then the cause.
pub open spec fn message_of(kind: FailureKind, path: Seq<char>, cause: Seq<char>) -> Seq<char> {
    if names_path(kind) {
        message_prefix(kind) + path + ": "@ + cause
    } else {
        message_prefix(kind) + cause
    }
}

impl Failure {
    /// A failure of kind `kind` at `path`, caused by `cause`.
    pub fn new(kind: FailureKind, path: &str, cause: &str) -> (failure: Failure)
        ensures
            failure.kind == kind,
            failure.path@ == path@,
            failure.cause@ == cause@,
    {
        Failure { kind, path: path.to_owned(), cause: cause.to_owned() }
    }

    /// The failure as one line of text.
    pub fn message(&self) -> (text: String)
        ensures
            text@ == message_of(self.kind, self.path@, self.cause@),
    {
        let prefix: &str = match self.kind {
            FailureKind::Open => "Failed to open ZIP: ",
            FailureKind::Format => "Invalid ZIP file: ",
            FailureKind::EntryRead => "Failed to read ZIP entry: ",
            FailureKind::DirectoryCreate => "Failed to create directory ",
            FailureKind::Write => "Failed to write ",
            FailureKind::Copy => "Failed to copy directory: ",
            FailureKind::SourceRead => "Failed to list ",
        };
        let mut text: String = prefix.to_owned();
        match self.kind {
            FailureKind::Open | FailureKind::Format | FailureKind::EntryRead => {},
            _ => {
                text.append(self.path.as_str());
                text.append(": ");
            },
        }
        text.append(self.cause.as_str());
        text
    }
}

/// The slot that parallel workers share: it holds at most one failure, and
/// once it holds one it never takes another.
pub struct FailureSlot {
    held: Option<Failure>,
}

/// What a slot holding `held` holds after `failure` is offered to it.
pub open spec fn offer(held: Option<FailureModel>, failure: FailureModel) -> Option<FailureModel> {
    if held is Some {
        held
    } else {
        Some(failure)
    }
}

/// What a slot holding `held` holds after the failures of `offered` are
/// offered to it one after the other.
pub open spec fn offer_all(held: Option<FailureModel>, offered: Seq<FailureModel>) -> Option<
    FailureModel,
>
    decreases offered.len(),
{
    if offered.len() == 0 {
        held
    } else {
        offer(offer_all(held, offered.drop_last()), offered.last())
    }
}

impl FailureSlot {
    /// The failure that the slot holds, if any.
    pub closed spec fn view(&self) -> Option<FailureModel> {
        match self.held {
            Some(failure) => Some(failure@),
            None => None,
        }
    }

    /// An empty slot.
    pub fn new() -> (slot: FailureSlot)
        ensures
            slot@ is None,
    {
        FailureSlot { held: None }
    }

    /// Whether a failure has been recorded.
    pub fn is_set(&self) -> (set: bool)
        ensures
            set == (self@ is Some),
    {
        self.held.is_some()
    }

    /// Records `failure` if the slot is empty, and drops it otherwise.
    pub fn record(&mut self, failure: Failure)
        ensures
            final(self)@ == offer(old(self)@, failure@),
    {
        if self.held.is_none() {
            self.held = Some(failure);
        }
    }

    /// The outcome of the operation that the slot belongs to: the failure
    /// that it holds, or success where it holds none.
    pub fn into_result(self) -> (outcome: Result<(), Failure>)
        ensures
            failure_of(outcome) == self@,
    {
        match self.held {
            Some(failure) => Err(failure),
            None => Ok(()),
        }
    }
}

/// The failure that an outcome carries, if it is one.
pub open spec fn failure_of(outcome: Result<(), Failure>) -> Option<FailureModel> {
    match outcome {
        Ok(_) => None,
        Err(failure) => Some(failure@),
    }
}

/// `at` is the position of the first failure among `outcomes`.
pub open spec fn is_first_failure(outcomes: Seq<Result<(), Failure>>, at: int) -> bool {
    &&& 0 <= at < outcomes.len()
    &&& outcomes[at] is Err
    &&& forall|j: int| 0 <= j < at ==> (#[trigger] outcomes[j]) is Ok
}

/// `reduced` is what the outcomes of a batch amount to: success where every
/// unit succeeded, and otherwise the failure of the first unit, in the order
/// of the batch, that failed.
pub open spec fn reduces_to(outcomes: Seq<Result<(), Failure>>, reduced: Result<(), Failure>) -> bool {
    &&& reduced is Ok <==> forall|i: int|
        0 <= i < outcomes.len() ==> (#[trigger] outcomes[i]) is Ok
    &&& reduced is Err ==> exists|at: int|
        is_first_failure(outcomes, at) && failure_of(reduced) == failure_of(outcomes[at])
}

/// The outcome of a batch of units that ran side by side: success where all
/// succeeded, and otherwise the failure of the first unit, in the order of
/// the batch, that failed.
pub fn first_failure(outcomes: Vec<Result<(), Failure>>) -> (outcome: Result<(), Failure>)
    ensures
        reduces_to(outcomes@, outcome),
{
    let mut rest = outcomes;
    let mut found: Result<(), Failure> = Ok(());
    while rest.len() > 0
        invariant
            rest.len() <= outcomes.len(),
            rest@ == outcomes@.take(rest.len() as int),
            found is Ok ==> forall|i: int|
                rest.len() <= i < outcomes.len() ==> (#[trigger] outcomes[i]) is Ok,
            found is Err ==> exists|at: int|
                rest.len() <= at < outcomes.len() && (#[trigger] outcomes[at]) is Err
                    && failure_of(found) == failure_of(outcomes[at]) && forall|j: int|
                    rest.len() <= j < at ==> (#[trigger] outcomes[j]) is Ok,
        decreases rest.len(),
    {
        match rest.pop() {
            Some(Err(failure)) => {
                found = Err(failure);
            },
            _ => {},
        }
    }
    proof {
        if found is Err {
            let at = choose|at: int|
                0 <= at < outcomes.len() && (#[trigger] outcomes[at]) is Err && failure_of(found)
                    == failure_of(outcomes[at]) && forall|j: int|
                    0 <= j < at ==> (#[trigger] outcomes[j]) is Ok;
            assert(is_first_failure(outcomes@, at));
        }
    }
    found
}

/// Of several failures offered to an empty slot, the slot keeps exactly one:
/// the one that was offered first. It holds nothing only where nothing was
/// offered, and never a failure that was not offered.
pub proof fn lemma_first_offer_wins(offered: Seq<FailureModel>)
    ensures
        offered.len() == 0 ==> offer_all(None, offered) is None,
        offered.len() > 0 ==> offer_all(None, offered) == Some(offered[0]),
        offer_all(None, offered) is Some ==> offered.contains(offer_all(None, offered)->0),
    decreases offered.len(),
{
    if offered.len() > 0 {
        lemma_first_offer_wins(offered.drop_last());
    }
}

/// A slot that already holds a failure keeps it, whatever is offered later.
pub proof fn lemma_held_failure_stays(held: FailureModel, offered: Seq<FailureModel>)
    ensures
        offer_all(Some(held), offered) == Some(held),
    decreases offered.len(),
{
    if offered.len() > 0 {
        lemma_held_failure_stays(held, offered.drop_last());
    }
}

/// The failures among `outcomes`, in the order of the batch.
pub open spec fn failures_in(outcomes: Seq<Result<(), Failure>>) -> Seq<FailureModel> {
    outcomes.filter(|outcome: Result<(), Failure>| outcome is Err).map_values(
        |outcome: Result<(), Failure>| outcome->Err_0@,
    )
}

/// The failures of a batch begin with its first failure, and there are none
/// where every unit succeeded.
proof fn lemma_failures_begin_with_the_first(outcomes: Seq<Result<(), Failure>>)
    ensures
        (forall|i: int| 0 <= i < outcomes.len() ==> (#[trigger] outcomes[i]) is Ok)
            ==> failures_in(outcomes).len() == 0,
        forall|at: int| #[trigger]
            is_first_failure(outcomes, at) ==> failures_in(outcomes).len() > 0 && Some(
                failures_in(outcomes)[0],
            ) == failure_of(outcomes[at]),
    decreases outcomes.len(),
{
    if outcomes.len() > 0 {
        let rest = outcomes.drop_last();
        let last = outcomes.last();
        let failed = |outcome: Result<(), Failure>| outcome is Err;
        let model = |outcome: Result<(), Failure>| outcome->Err_0@;
        assert(rest.push(last) =~= outcomes);
        lemma_failures_begin_with_the_first(rest);
        rest.lemma_filter_push(last, failed);
        rest.filter(failed).lemma_push_map_commute(model, last);
        assert forall|at: int| #[trigger] is_first_failure(outcomes, at) implies failures_in(
            outcomes,
        ).len() > 0 && Some(failures_in(outcomes)[0]) == failure_of(outcomes[at]) by {
            if at < rest.len() {
                assert(is_first_failure(rest, at));
            }
        }
    }
}

/// To reduce the outcomes of a batch after the join is to share a slot
/// during it: the failure that the reduction gives is the one that an empty
/// slot holds after the failures of the batch were recorded in order.
pub proof fn lemma_reduction_is_recording(
    outcomes: Seq<Result<(), Failure>>,
    reduced: Result<(), Failure>,
)
    requires
        reduces_to(outcomes, reduced),
    ensures
        offer_all(None, failures_in(outcomes)) == failure_of(reduced),
{
    lemma_failures_begin_with_the_first(outcomes);
    lemma_first_offer_wins(failures_in(outcomes));
}

} // verus!
