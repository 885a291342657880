//! Planning an extraction: the directories to create, each once, and the
//! files to write once every directory is there.

use crate::archive::{
    decoded, entry_from, entry_models, is_first_unreadable, read_entries, readable, unreadable_as,
    ArchiveEntry, EntryModel, Member,
};
use crate::failure::{Failure, FailureKind};
use crate::pipeline::{lemma_units_follow_directories, Event, Pipeline, PipelineModel};
use crate::paths::{
    is_directory_marker, lemma_parent_is_above, lemma_trimmed_is_plain, parent, parent_of,
    trim_separators, trimmed,
};
use vstd::prelude::*;

verus! {

/// A file that is waiting to be written: where it goes, relative to the
/// destination, and what it holds.
#[derive(Clone, Debug, PartialEq, Eq)]
pub struct PendingWrite {
    pub relative_path: String,
    pub payload: Vec<u8>,
}

/// A pending write as a mathematical value.
pub struct WriteModel {
    pub relative_path: Seq<char>,
    pub payload: Seq<u8>,
}

impl View for PendingWrite {
    type V = WriteModel;

    open spec fn view(&self) -> WriteModel {
        WriteModel { relative_path: self.relative_path@, payload: self.payload@ }
    }
}

/// What an extraction has to do: create `directories`, in this order, and
/// then write `writes`, in any order. Paths are relative to the destination;
/// the empty path is the destination itself.
#[derive(Clone, Debug, PartialEq, Eq)]
pub struct ExtractionPlan {
    pub directories: Vec<String>,
    pub writes: Vec<PendingWrite>,
}

/// An extraction plan as a mathematical value.
pub struct PlanModel {
    pub directories: Seq<Seq<char>>,
    pub writes: Seq<WriteModel>,
}

impl View for ExtractionPlan {
    type V = PlanModel;

    open spec fn view(&self) -> PlanModel {
        PlanModel {
            directories: self.directories.deep_view(),
            writes: write_models(self.writes@),
        }
    }
}

/// The directories that the archive names itself, without their trailing
/// separators, in the order of the archive.
pub open spec fn explicit_directories(entries: Seq<EntryModel>) -> Seq<Seq<char>> {
    entries.filter(|entry: EntryModel| entry.is_directory).map_values(
        |entry: EntryModel| trimmed(entry.name),
    )
}

/// The directory that holds each file of the archive, in the order of the
/// archive.
pub open spec fn file_parents(entries: Seq<EntryModel>) -> Seq<Seq<char>> {
    entries.filter(|entry: EntryModel| !entry.is_directory).map_values(
        |entry: EntryModel| parent_of(entry.name),
    )
}

/// Every directory that the extraction needs: those that the archive names,
/// then those that hold its files.
pub open spec fn needed_directories(entries: Seq<EntryModel>) -> Seq<Seq<char>> {
    explicit_directories(entries) + file_parents(entries)
}

/// The files of the archive as pending writes, in the order of the archive.
pub open spec fn writes_of(entries: Seq<EntryModel>) -> Seq<WriteModel> {
    entries.filter(|entry: EntryModel| !entry.is_directory).map_values(
        |entry: EntryModel| WriteModel { relative_path: entry.name, payload: entry.content },
    )
}

/// `names` with every name kept where it first occurs and dropped where it
/// occurs again.
pub open spec fn distinct(names: Seq<Seq<char>>) -> Seq<Seq<char>>
    decreases names.len(),
{
    if names.len() == 0 {
        names
    } else {
        let before = distinct(names.drop_last());
        if before.contains(names.last()) {
            before
        } else {
            before.push(names.last())
        }
    }
}

/// The plan for extracting `entries`.
pub open spec fn plan_of(entries: Seq<EntryModel>) -> PlanModel {
    PlanModel { directories: distinct(needed_directories(entries)), writes: writes_of(entries) }
}

/// `distinct` keeps every name, and keeps none twice.
pub proof fn lemma_distinct(names: Seq<Seq<char>>)
    ensures
        distinct(names).no_duplicates(),
        forall|name: Seq<char>| distinct(names).contains(name) <==> names.contains(name),
    decreases names.len(),
{
    if names.len() > 0 {
        let rest = names.drop_last();
        let before = distinct(rest);
        lemma_distinct(rest);
        assert forall|name: Seq<char>| distinct(names).contains(name) <==> names.contains(
            name,
        ) by {
            if names.contains(name) {
                let i = choose|i: int| 0 <= i < names.len() && names[i] == name;
                if i < rest.len() {
                    assert(rest[i] == name);
                    assert(rest.contains(name));
                    let k = choose|k: int| 0 <= k < before.len() && before[k] == name;
                    assert(distinct(names)[k] == name);
                } else if !before.contains(name) {
                    assert(distinct(names)[before.len() as int] == name);
                }
            }
            if distinct(names).contains(name) {
                let k = choose|k: int| 0 <= k < distinct(names).len() && distinct(names)[k] == name;
                if k < before.len() {
                    assert(rest.contains(name));
                }
            }
        }
    }
}

/// Appends `name` to `names` unless it is there already.
fn insert_distinct(names: &mut Vec<String>, name: String)
    ensures
        final(names).deep_view() == if old(names).deep_view().contains(name@) {
            old(names).deep_view()
        } else {
            old(names).deep_view().push(name@)
        },
{
    let mut k: usize = 0;
    while k < names.len()
        invariant
            k <= names.len(),
            names == old(names),
            forall|j: int| 0 <= j < k ==> names.deep_view()[j] != name@,
        decreases names.len() - k,
    {
        assert(names.deep_view()[k as int] == names@[k as int]@);
        if names[k] == name {
            return ;
        }
        k += 1;
    }
    names.push(name);
}

/// The pending writes of `writes` as mathematical values.
pub open spec fn write_models(writes: Seq<PendingWrite>) -> Seq<WriteModel> {
    writes.map_values(|write: PendingWrite| write@)
}

/// What one more entry adds to the directories and the writes of a plan.
proof fn lemma_one_more_entry(entries: Seq<EntryModel>, entry: EntryModel)
    ensures
        explicit_directories(entries.push(entry)) == if entry.is_directory {
            explicit_directories(entries).push(trimmed(entry.name))
        } else {
            explicit_directories(entries)
        },
        file_parents(entries.push(entry)) == if entry.is_directory {
            file_parents(entries)
        } else {
            file_parents(entries).push(parent_of(entry.name))
        },
        writes_of(entries.push(entry)) == if entry.is_directory {
            writes_of(entries)
        } else {
            writes_of(entries).push(
                WriteModel { relative_path: entry.name, payload: entry.content },
            )
        },
{
    let is_dir = |entry: EntryModel| entry.is_directory;
    let is_file = |entry: EntryModel| !entry.is_directory;
    entries.lemma_filter_push(entry, is_dir);
    entries.lemma_filter_push(entry, is_file);
    entries.filter(is_dir).lemma_push_map_commute(|entry: EntryModel| trimmed(entry.name), entry);
    entries.filter(is_file).lemma_push_map_commute(
        |entry: EntryModel| parent_of(entry.name),
        entry,
    );
    entries.filter(is_file).lemma_push_map_commute(
        |entry: EntryModel| WriteModel { relative_path: entry.name, payload: entry.content },
        entry,
    );
}

/// What one more name adds to a list of distinct names.
proof fn lemma_distinct_push(names: Seq<Seq<char>>, name: Seq<char>)
    ensures
        distinct(names.push(name)) == if distinct(names).contains(name) {
            distinct(names)
        } else {
            distinct(names).push(name)
        },
{
    assert(names.push(name).drop_last() =~= names);
}

/// Plans the extraction of `entries`: the directories that the archive names
/// and those that hold its files, each once, in the order in which they first
/// occur; and one pending write for each file, with its content, in the
/// order of the archive.
pub fn plan_extraction(entries: Vec<ArchiveEntry>) -> (plan: ExtractionPlan)
    ensures
        plan@ == plan_of(entry_models(entries@)),
{
    let ghost models = entry_models(entries@);
    let mut directories: Vec<String> = Vec::new();
    let mut parents: Vec<String> = Vec::new();
    let mut writes: Vec<PendingWrite> = Vec::new();
    for entry in it: entries
        invariant
            it.seq() == entries@,
            models == entry_models(entries@),
            directories.deep_view() == distinct(explicit_directories(models.take(it.index()))),
            parents.deep_view() == file_parents(models.take(it.index())),
            write_models(writes@) == writes_of(models.take(it.index())),
    {
        let ghost seen = models.take(it.index());
        let ghost model = entry@;
        proof {
            models.lemma_take_succ_push(it.index());
            lemma_one_more_entry(seen, model);
            lemma_distinct_push(explicit_directories(seen), trimmed(model.name));
        }
        if entry.is_directory {
            insert_distinct(&mut directories, trim_separators(entry.name.as_str()));
        } else {
            parents.push(parent(entry.name.as_str()));
            writes.push(PendingWrite { relative_path: entry.name, payload: entry.content });
        }
    }
    assert(models.take(models.len() as int) =~= models);
    let ghost named = explicit_directories(models);
    let ghost above = file_parents(models);
    let mut k: usize = 0;
    while k < parents.len()
        invariant
            k <= parents.len(),
            parents.deep_view() == above,
            directories.deep_view() == distinct(named + above.take(k as int)),
        decreases parents.len() - k,
    {
        proof {
            above.lemma_take_succ_push(k as int);
            lemma_distinct_push(named + above.take(k as int), above[k as int]);
        }
        insert_distinct(&mut directories, parents[k].clone());
        k += 1;
    }
    assert(above.take(above.len() as int) =~= above);
    ExtractionPlan { directories, writes }
}

/// Plans the extraction of the archive held in `bytes`.
///
/// A plan is made exactly where the archive can be read in full, and it is
/// then the plan for the archive's entries; otherwise the failure is the one
/// that reading the archive gives.
pub fn plan_archive(bytes: Vec<u8>) -> (outcome: Result<ExtractionPlan, Failure>)
    ensures
        outcome is Ok <==> decoded(bytes@) is Some && forall|i: int|
            0 <= i < decoded(bytes@)->0.len() ==> readable(#[trigger] decoded(bytes@)->0[i]),
        outcome is Ok ==> outcome->Ok_0@ == plan_of(
            decoded(bytes@)->0.map_values(|member: Member| entry_from(member)),
        ),
        outcome is Err && decoded(bytes@) is None ==> outcome->Err_0.kind == FailureKind::Format
            && outcome->Err_0.path@.len() == 0,
        outcome is Err && decoded(bytes@) is Some ==> exists|at: int|
            #[trigger] is_first_unreadable(decoded(bytes@)->0, at) && unreadable_as(
                decoded(bytes@)->0[at],
                outcome->Err_0.kind,
                outcome->Err_0.path@,
            ),
{
    match read_entries(bytes) {
        Ok(entries) => Ok(plan_extraction(entries)),
        Err(failure) => Err(failure),
    }
}

/// Starts an extraction: the pipeline that creates the directories of
/// `plan`, and the pending writes that run once it asks for the units. A
/// directory that cannot be created is a directory failure.
pub fn start_extraction(plan: ExtractionPlan) -> (started: (Pipeline, Vec<PendingWrite>))
    ensures
        started.0@ == PipelineModel::start(plan@.directories, FailureKind::DirectoryCreate),
        started.1 == plan.writes,
{
    (Pipeline::new(plan.directories, FailureKind::DirectoryCreate), plan.writes)
}

/// No directory is created twice: the directories of a plan are distinct.
pub proof fn lemma_directories_are_distinct(entries: Seq<EntryModel>)
    ensures
        plan_of(entries).directories.no_duplicates(),
{
    lemma_distinct(needed_directories(entries));
}

/// Every directory that the archive names, and every directory that holds
/// one of its files, is among the directories of the plan.
pub proof fn lemma_directories_are_complete(entries: Seq<EntryModel>, at: int)
    requires
        0 <= at < entries.len(),
    ensures
        entries[at].is_directory ==> plan_of(entries).directories.contains(
            trimmed(entries[at].name),
        ),
        !entries[at].is_directory ==> plan_of(entries).directories.contains(
            parent_of(entries[at].name),
        ),
{
    let entry = entries[at];
    let needed = needed_directories(entries);
    lemma_distinct(needed);
    if entry.is_directory {
        let pred = |entry: EntryModel| entry.is_directory;
        let dirs = entries.filter(pred);
        entries.lemma_filter_contains(pred, at);
        let k = choose|k: int| 0 <= k < dirs.len() && dirs[k] == entry;
        assert(needed[k] == trimmed(entry.name));
        assert(needed.contains(trimmed(entry.name)));
    } else {
        let pred = |entry: EntryModel| !entry.is_directory;
        let files = entries.filter(pred);
        entries.lemma_filter_contains(pred, at);
        let k = choose|k: int| 0 <= k < files.len() && files[k] == entry;
        assert(needed[explicit_directories(entries).len() + k] == parent_of(entry.name));
        assert(needed.contains(parent_of(entry.name)));
    }
}

/// Every file of the archive is written: for each entry that is a file the
/// plan holds a pending write with the entry's name and content.
pub proof fn lemma_every_file_is_written(entries: Seq<EntryModel>, at: int)
    requires
        0 <= at < entries.len(),
        !entries[at].is_directory,
    ensures
        plan_of(entries).writes.contains(
            WriteModel { relative_path: entries[at].name, payload: entries[at].content },
        ),
{
    let pred = |entry: EntryModel| !entry.is_directory;
    let files = entries.filter(pred);
    entries.lemma_filter_contains(pred, at);
    let k = choose|k: int| 0 <= k < files.len() && files[k] == entries[at];
    assert(writes_of(entries)[k] == WriteModel {
        relative_path: entries[at].name,
        payload: entries[at].content,
    });
}

/// Nothing but the files of the archive is written: every pending write of
/// the plan has the name and the content of an entry that is a file, and
/// there are no more writes than entries.
pub proof fn lemma_every_write_is_a_file(entries: Seq<EntryModel>, at: int)
    requires
        0 <= at < plan_of(entries).writes.len(),
    ensures
        plan_of(entries).writes.len() <= entries.len(),
        exists|i: int|
            0 <= i < entries.len() && !(#[trigger] entries[i]).is_directory && plan_of(
                entries,
            ).writes[at] == (WriteModel {
                relative_path: entries[i].name,
                payload: entries[i].content,
            }),
{
    let pred = |entry: EntryModel| !entry.is_directory;
    let files = entries.filter(pred);
    entries.lemma_filter_len(pred);
    entries.lemma_filter_pred(pred, at);
    entries.lemma_filter_contains_rev(pred, files[at]);
}

/// The directory that holds a file is created before the file is written:
/// for every pending write of a plan, its parent is among the directories of
/// the plan.
pub proof fn lemma_directories_precede_writes(entries: Seq<EntryModel>, at: int)
    requires
        0 <= at < plan_of(entries).writes.len(),
    ensures
        plan_of(entries).directories.contains(parent_of(plan_of(entries).writes[at].relative_path)),
{
    let needed = needed_directories(entries);
    lemma_distinct(needed);
    let above = parent_of(plan_of(entries).writes[at].relative_path);
    assert(needed[explicit_directories(entries).len() + at] == above);
    assert(needed.contains(above));
}

/// No directory of a plan ends in a separator: a directory is named in one
/// way only.
pub proof fn lemma_directories_are_plain(entries: Seq<EntryModel>, at: int)
    requires
        0 <= at < plan_of(entries).directories.len(),
    ensures
        !is_directory_marker(plan_of(entries).directories[at]),
{
    let needed = needed_directories(entries);
    let named = explicit_directories(entries);
    let name = plan_of(entries).directories[at];
    lemma_distinct(needed);
    assert(needed.contains(name));
    let k = choose|k: int| 0 <= k < needed.len() && needed[k] == name;
    if k < named.len() {
        let entry = entries.filter(|entry: EntryModel| entry.is_directory)[k];
        lemma_trimmed_is_plain(entry.name);
    } else {
        let entry = entries.filter(|entry: EntryModel| !entry.is_directory)[k - named.len()];
        lemma_parent_is_above(entry.name);
    }
}

/// No file is written before the directory that holds it is there: where an
/// extraction asks for its units, every directory of the plan was reported
/// as created, and the parent of every pending write is among them.
pub proof fn lemma_no_write_before_its_directory(entries: Seq<EntryModel>, events: Seq<Event>)
    requires
        PipelineModel::start(plan_of(entries).directories, FailureKind::DirectoryCreate).after_all(
            events,
        ).next() is RunUnits,
    ensures
        PipelineModel::start(plan_of(entries).directories, FailureKind::DirectoryCreate).after_all(
            events,
        ).created == plan_of(entries).directories.len(),
        forall|at: int|
            0 <= at < plan_of(entries).writes.len() ==> plan_of(entries).directories.contains(
                parent_of(#[trigger] plan_of(entries).writes[at].relative_path),
            ),
{
    lemma_units_follow_directories(
        plan_of(entries).directories,
        FailureKind::DirectoryCreate,
        events,
    );
    assert forall|at: int| 0 <= at < plan_of(entries).writes.len() implies plan_of(
        entries,
    ).directories.contains(parent_of(#[trigger] plan_of(entries).writes[at].relative_path)) by {
        lemma_directories_precede_writes(entries, at);
    }
}

/// The files of `entries` have names that differ from each other.
pub open spec fn files_differ(entries: Seq<EntryModel>) -> bool {
    forall|i: int, j: int|
        0 <= i < j < entries.len() && !(#[trigger] entries[i]).is_directory && !(
        #[trigger] entries[j]).is_directory ==> entries[i].name != entries[j].name
}

/// Where the files of an archive have names that differ from each other, no
/// two pending writes go to the same path: every file is written once.
pub proof fn lemma_files_are_written_apart(entries: Seq<EntryModel>)
    requires
        files_differ(entries),
    ensures
        forall|a: int, b: int|
            0 <= a < b < plan_of(entries).writes.len() ==> (#[trigger] plan_of(
                entries,
            ).writes[a]).relative_path != (#[trigger] plan_of(entries).writes[b]).relative_path,
    decreases entries.len(),
{
    if entries.len() > 0 {
        let rest = entries.drop_last();
        let last = entries.last();
        assert(rest.push(last) =~= entries);
        assert(files_differ(rest));
        lemma_files_are_written_apart(rest);
        lemma_one_more_entry(rest, last);
        let before = plan_of(rest).writes;
        let after = plan_of(entries).writes;
        assert forall|a: int, b: int| 0 <= a < b < after.len() implies (#[trigger] after[a]).relative_path
            != (#[trigger] after[b]).relative_path by {
            if b >= before.len() {
                lemma_every_write_is_a_file(rest, a);
            }
        }
    }
}

} // verus!
