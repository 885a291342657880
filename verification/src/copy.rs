//! Planning the copy of a directory tree, one level at a time: the
//! subdirectories to create first, then one unit of work for each child.

use crate::failure::FailureKind;
use crate::pipeline::{Pipeline, PipelineModel};
use vstd::prelude::*;

verus! {

/// One child of a directory, as the listing of the directory shows it.
#[derive(Clone, Debug, PartialEq, Eq)]
pub struct Child {
    pub name: String,
    pub is_directory: bool,
}

/// A child as a mathematical value.
pub struct ChildModel {
    pub name: Seq<char>,
    pub is_directory: bool,
}

impl View for Child {
    type V = ChildModel;

    open spec fn view(&self) -> ChildModel {
        ChildModel { name: self.name@, is_directory: self.is_directory }
    }
}

/// What a unit of work does with its child.
#[derive(Clone, Copy, Debug, PartialEq, Eq, Structural)]
pub enum UnitKind {
    /// Copy the subdirectory of this name, level by level, in the same way.
    Descend,
    /// Copy the file of this name, byte for byte.
    CopyFile,
}

/// One unit of work of a level.
#[derive(Clone, Debug, PartialEq, Eq)]
pub struct CopyUnit {
    pub name: String,
    pub kind: UnitKind,
}

/// A unit as a mathematical value.
pub struct UnitModel {
    pub name: Seq<char>,
    pub kind: UnitKind,
}

impl View for CopyUnit {
    type V = UnitModel;

    open spec fn view(&self) -> UnitModel {
        UnitModel { name: self.name@, kind: self.kind }
    }
}

/// What copying one level has to do: create `subdirectories` under the
/// target, in this order, and then run `units`, in any order.
#[derive(Clone, Debug, PartialEq, Eq)]
pub struct LevelPlan {
    pub subdirectories: Vec<String>,
    pub units: Vec<CopyUnit>,
}

/// A level plan as a mathematical value.
pub struct LevelModel {
    pub subdirectories: Seq<Seq<char>>,
    pub units: Seq<UnitModel>,
}

/// The children of `children` as mathematical values.
pub open spec fn child_models(children: Seq<Child>) -> Seq<ChildModel> {
    children.map_values(|child: Child| child@)
}

/// The units of `units` as mathematical values.
pub open spec fn unit_models(units: Seq<CopyUnit>) -> Seq<UnitModel> {
    units.map_values(|unit: CopyUnit| unit@)
}

impl View for LevelPlan {
    type V = LevelModel;

    open spec fn view(&self) -> LevelModel {
        LevelModel {
            subdirectories: self.subdirectories.deep_view(),
            units: unit_models(self.units@),
        }
    }
}

/// The unit of work for one child.
pub open spec fn unit_of(child: ChildModel) -> UnitModel {
    UnitModel {
        name: child.name,
        kind: if child.is_directory {
            UnitKind::Descend
        } else {
            UnitKind::CopyFile
        },
    }
}

/// The names of the children that are directories, in the order of the
/// listing.
pub open spec fn subdirectories_of(children: Seq<ChildModel>) -> Seq<Seq<char>> {
    children.filter(|child: ChildModel| child.is_directory).map_values(
        |child: ChildModel| child.name,
    )
}

/// The plan for a level with the given children: every subdirectory is
/// created, and every child, and nothing else, is a unit.
pub open spec fn level_of(children: Seq<ChildModel>) -> LevelModel {
    LevelModel {
        subdirectories: subdirectories_of(children),
        units: children.map_values(|child: ChildModel| unit_of(child)),
    }
}

/// What one more child adds to the subdirectories of a level.
proof fn lemma_one_more_child(children: Seq<ChildModel>, child: ChildModel)
    ensures
        subdirectories_of(children.push(child)) == if child.is_directory {
            subdirectories_of(children).push(child.name)
        } else {
            subdirectories_of(children)
        },
{
    let is_dir = |child: ChildModel| child.is_directory;
    children.lemma_filter_push(child, is_dir);
    children.filter(is_dir).lemma_push_map_commute(|child: ChildModel| child.name, child);
}

/// Plans the copy of one level from the listing of its source directory.
pub fn plan_level(children: Vec<Child>) -> (plan: LevelPlan)
    ensures
        plan@ == level_of(child_models(children@)),
{
    let ghost models = child_models(children@);
    let mut subdirectories: Vec<String> = Vec::new();
    let mut units: Vec<CopyUnit> = Vec::new();
    for child in it: children
        invariant
            it.seq() == children@,
            models == child_models(children@),
            subdirectories.deep_view() == subdirectories_of(models.take(it.index())),
            units.len() == it.index(),
            forall|j: int| 0 <= j < it.index() ==> (#[trigger] units[j])@ == unit_of(models[j]),
    {
        proof {
            models.lemma_take_succ_push(it.index());
            lemma_one_more_child(models.take(it.index()), child@);
        }
        if child.is_directory {
            subdirectories.push(child.name.clone());
            units.push(CopyUnit { name: child.name, kind: UnitKind::Descend });
        } else {
            units.push(CopyUnit { name: child.name, kind: UnitKind::CopyFile });
        }
    }
    assert(models.take(models.len() as int) =~= models);
    assert(unit_models(units@) =~= models.map_values(|child: ChildModel| unit_of(child)));
    LevelPlan { subdirectories, units }
}

/// Starts the copy of one level: the pipeline that creates the
/// subdirectories of `plan`, and the units that run once it asks for them.
/// A subdirectory that cannot be created is a copy failure.
pub fn start_level(plan: LevelPlan) -> (started: (Pipeline, Vec<CopyUnit>))
    ensures
        started.0@ == PipelineModel::start(plan@.subdirectories, FailureKind::Copy),
        started.1 == plan.units,
{
    (Pipeline::new(plan.subdirectories, FailureKind::Copy), plan.units)
}

/// Every child is copied by exactly one unit, and there is no other unit:
/// the units stand in the order of the listing.
pub proof fn lemma_every_child_is_a_unit(children: Seq<ChildModel>)
    ensures
        level_of(children).units.len() == children.len(),
        forall|i: int|
            0 <= i < children.len() ==> (#[trigger] level_of(children).units[i]).name
                == children[i].name && (level_of(children).units[i].kind is Descend
                <==> children[i].is_directory),
{
}

/// Some child of `children` is a directory named `name`.
pub open spec fn has_directory(children: Seq<ChildModel>, name: Seq<char>) -> bool {
    exists|i: int|
        0 <= i < children.len() && (#[trigger] children[i]).is_directory && children[i].name == name
}

/// A unit descends only into a directory that was created before: the name
/// of every descending unit is among the subdirectories of the plan, and
/// every subdirectory is the name of a descending unit.
pub proof fn lemma_subdirectories_precede_descent(children: Seq<ChildModel>)
    ensures
        forall|i: int|
            0 <= i < level_of(children).units.len() && (#[trigger] level_of(
                children,
            ).units[i]).kind is Descend ==> level_of(children).subdirectories.contains(
                level_of(children).units[i].name,
            ),
        forall|k: int|
            0 <= k < level_of(children).subdirectories.len() ==> has_directory(
                children,
                #[trigger] level_of(children).subdirectories[k],
            ),
{
    let is_dir = |child: ChildModel| child.is_directory;
    let dirs = children.filter(is_dir);
    let plan = level_of(children);
    assert forall|i: int|
        0 <= i < plan.units.len() && (#[trigger] plan.units[i]).kind is Descend implies plan.subdirectories.contains(
        plan.units[i].name,
    ) by {
        children.lemma_filter_contains(is_dir, i);
        let k = choose|k: int| 0 <= k < dirs.len() && dirs[k] == children[i];
        assert(plan.subdirectories[k] == children[i].name);
    }
    assert forall|k: int| 0 <= k < plan.subdirectories.len() implies has_directory(
        children,
        #[trigger] plan.subdirectories[k],
    ) by {
        children.lemma_filter_pred(is_dir, k);
        children.lemma_filter_contains_rev(is_dir, dirs[k]);
    }
}

/// One step of replacing a directory tree.
#[derive(Clone, Copy, Debug, PartialEq, Eq, Structural)]
pub enum RootStep {
    /// Delete the target with everything in it.
    RemoveTarget,
    /// Create the target directory, with its missing ancestors.
    CreateTarget,
    /// Copy the source into the target, level by level.
    CopyTree,
}

/// The steps that replace a target by a copy of a source: a target that
/// exists is deleted first, so that nothing of it is left.
pub open spec fn replacement(target_exists: bool) -> Seq<RootStep> {
    if target_exists {
        seq![RootStep::RemoveTarget, RootStep::CreateTarget, RootStep::CopyTree]
    } else {
        seq![RootStep::CreateTarget, RootStep::CopyTree]
    }
}

/// The steps that replace the target by a copy of the source, in order.
pub fn replace_steps(target_exists: bool) -> (steps: Vec<RootStep>)
    ensures
        steps@ == replacement(target_exists),
{
    let mut steps: Vec<RootStep> = Vec::new();
    if target_exists {
        steps.push(RootStep::RemoveTarget);
    }
    steps.push(RootStep::CreateTarget);
    steps.push(RootStep::CopyTree);
    steps
}

} // verus!
