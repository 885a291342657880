use archive_tree::copy::{
    plan_level, replace_steps, start_level, Child, CopyUnit, LevelPlan, RootStep, UnitKind,
};
use archive_tree::failure::{first_failure, Failure, FailureKind};
use archive_tree::pipeline::Action;
use std::collections::BTreeMap;

fn child(name: &str, is_directory: bool) -> Child {
    Child { name: name.to_string(), is_directory }
}

fn unit(name: &str, kind: UnitKind) -> CopyUnit {
    CopyUnit { name: name.to_string(), kind }
}

#[test]
fn empty_level_has_nothing_to_do() {
    let plan = plan_level(Vec::new());
    assert_eq!(plan, LevelPlan { subdirectories: Vec::new(), units: Vec::new() });
}

#[test]
fn level_creates_subdirectories_and_has_one_unit_for_each_child() {
    let plan = plan_level(vec![
        child("readme.txt", false),
        child("mods", true),
        child("a.package", false),
        child("saves", true),
    ]);
    assert_eq!(plan.subdirectories, vec!["mods".to_string(), "saves".to_string()]);
    assert_eq!(
        plan.units,
        vec![
            unit("readme.txt", UnitKind::CopyFile),
            unit("mods", UnitKind::Descend),
            unit("a.package", UnitKind::CopyFile),
            unit("saves", UnitKind::Descend),
        ]
    );
}

#[test]
fn level_of_files_creates_no_directory() {
    let plan = plan_level(vec![child("a", false), child("b", false)]);
    assert!(plan.subdirectories.is_empty());
    assert_eq!(plan.units, vec![unit("a", UnitKind::CopyFile), unit("b", UnitKind::CopyFile)]);
}

#[test]
fn started_level_creates_subdirectories_before_its_units() {
    let plan = plan_level(vec![child("f", false), child("d", true)]);
    let (mut pipeline, units) = start_level(plan);
    assert_eq!(units, vec![unit("f", UnitKind::CopyFile), unit("d", UnitKind::Descend)]);
    assert_eq!(pipeline.next(), Action::CreateDirectory("d".to_string()));
    pipeline.directory_done(Ok(()));
    assert_eq!(pipeline.next(), Action::RunUnits);
    pipeline.units_joined(Err(Failure::new(FailureKind::Copy, "f", "unreadable")));
    assert_eq!(
        pipeline.into_outcome(),
        Some(Err(Failure::new(FailureKind::Copy, "f", "unreadable")))
    );
}

#[test]
fn replacing_an_existing_target_removes_it_first() {
    assert_eq!(
        replace_steps(true),
        vec![RootStep::RemoveTarget, RootStep::CreateTarget, RootStep::CopyTree]
    );
}

#[test]
fn replacing_a_missing_target_creates_it() {
    assert_eq!(replace_steps(false), vec![RootStep::CreateTarget, RootStep::CopyTree]);
}

/// A directory in memory.
#[derive(Clone, Debug, Default, PartialEq, Eq)]
struct Dir {
    dirs: BTreeMap<String, Dir>,
    files: BTreeMap<String, Vec<u8>>,
}

fn snapshot(dir: &Dir) -> Vec<Child> {
    let mut children: Vec<Child> = dir.files.keys().map(|name| child(name, false)).collect();
    children.extend(dir.dirs.keys().map(|name| child(name, true)));
    children
}

fn copy_level(src: &Dir, dst: &mut Dir) -> Result<(), Failure> {
    let (mut pipeline, units) = start_level(plan_level(snapshot(src)));
    loop {
        match pipeline.next() {
            Action::CreateDirectory(name) => {
                dst.dirs.entry(name).or_default();
                pipeline.directory_done(Ok(()));
            }
            Action::RunUnits => {
                let mut outcomes = Vec::new();
                for unit in &units {
                    outcomes.push(match unit.kind {
                        UnitKind::Descend => match dst.dirs.get_mut(&unit.name) {
                            Some(below) => copy_level(&src.dirs[&unit.name], below),
                            None => Err(Failure::new(FailureKind::Copy, &unit.name, "missing")),
                        },
                        UnitKind::CopyFile => {
                            dst.files.insert(unit.name.clone(), src.files[&unit.name].clone());
                            Ok(())
                        }
                    });
                }
                pipeline.units_joined(first_failure(outcomes));
            }
            Action::Stop => return pipeline.into_outcome().unwrap(),
        }
    }
}

fn replace(src: &Dir, target: &mut Option<Dir>) -> Result<(), Failure> {
    for step in replace_steps(target.is_some()) {
        match step {
            RootStep::RemoveTarget => *target = None,
            RootStep::CreateTarget => {
                target.get_or_insert_with(Dir::default);
            }
            RootStep::CopyTree => copy_level(src, target.as_mut().unwrap())?,
        }
    }
    Ok(())
}

fn source_tree() -> Dir {
    let mut deep = Dir::default();
    deep.files.insert("c.bin".to_string(), vec![1, 2, 3]);
    let mut sub = Dir::default();
    sub.files.insert("b.txt".to_string(), b"bee".to_vec());
    sub.dirs.insert("deep".to_string(), deep);
    sub.dirs.insert("hollow".to_string(), Dir::default());
    let mut root = Dir::default();
    root.files.insert("a.txt".to_string(), b"ay".to_vec());
    root.dirs.insert("sub".to_string(), sub);
    root
}

#[test]
fn copy_into_a_missing_target_gives_the_source() {
    let src = source_tree();
    let mut target = None;
    assert_eq!(replace(&src, &mut target), Ok(()));
    assert_eq!(target, Some(src));
}

#[test]
fn copy_over_a_target_leaves_nothing_of_it() {
    let src = source_tree();
    let mut old = Dir::default();
    old.files.insert("stale.txt".to_string(), b"old".to_vec());
    old.files.insert("a.txt".to_string(), b"older".to_vec());
    old.dirs.insert("sub".to_string(), {
        let mut sub = Dir::default();
        sub.files.insert("unrelated.bin".to_string(), vec![9]);
        sub
    });
    let mut target = Some(old);
    assert_eq!(replace(&src, &mut target), Ok(()));
    assert_eq!(target, Some(src));
}

#[test]
fn copy_of_an_empty_source_gives_an_empty_target() {
    let mut target = Some(source_tree());
    assert_eq!(replace(&Dir::default(), &mut target), Ok(()));
    assert_eq!(target, Some(Dir::default()));
}
