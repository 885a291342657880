use archive_tree::archive::ArchiveEntry;
use archive_tree::extract::{
    plan_archive, plan_extraction, start_extraction, ExtractionPlan, PendingWrite,
};
use archive_tree::failure::{Failure, FailureKind, FailureSlot};
use archive_tree::paths::parent;
use archive_tree::pipeline::Action;
use std::collections::{BTreeMap, BTreeSet};
use std::io::{Cursor, Write};
use zip::write::SimpleFileOptions;
use zip::ZipWriter;

fn zipped(entries: &[(&str, &[u8])]) -> Vec<u8> {
    let mut writer = ZipWriter::new(Cursor::new(Vec::new()));
    for (name, content) in entries {
        if name.ends_with('/') {
            writer.add_directory(*name, SimpleFileOptions::default()).unwrap();
        } else {
            writer.start_file(*name, SimpleFileOptions::default()).unwrap();
            writer.write_all(content).unwrap();
        }
    }
    writer.finish().unwrap().into_inner()
}

fn file(name: &str, content: &[u8]) -> ArchiveEntry {
    ArchiveEntry { name: name.to_string(), is_directory: false, content: content.to_vec() }
}

fn directory(name: &str) -> ArchiveEntry {
    ArchiveEntry { name: name.to_string(), is_directory: true, content: Vec::new() }
}

fn write(path: &str, payload: &[u8]) -> PendingWrite {
    PendingWrite { relative_path: path.to_string(), payload: payload.to_vec() }
}

fn names(list: &[&str]) -> Vec<String> {
    list.iter().map(|s| s.to_string()).collect()
}

/// A tree in memory that behaves as a disk does: a directory is created with
/// its ancestors, and a file can be written only into a directory that exists.
struct Tree {
    directories: BTreeSet<String>,
    files: BTreeMap<String, Vec<u8>>,
}

fn empty_tree() -> Tree {
    Tree { directories: BTreeSet::new(), files: BTreeMap::new() }
}

fn create_directory(tree: &mut Tree, path: &str) {
    let mut path = path.to_string();
    loop {
        tree.directories.insert(path.clone());
        if path.is_empty() {
            return;
        }
        path = parent(&path);
    }
}

fn write_file(tree: &mut Tree, record: &PendingWrite) -> Result<(), Failure> {
    if tree.directories.contains(&parent(&record.relative_path)) {
        tree.files.insert(record.relative_path.clone(), record.payload.clone());
        Ok(())
    } else {
        Err(Failure::new(FailureKind::Write, &record.relative_path, "no such directory"))
    }
}

fn run(plan: ExtractionPlan, tree: &mut Tree) -> Result<(), Failure> {
    let (mut pipeline, writes) = start_extraction(plan);
    loop {
        match pipeline.next() {
            Action::CreateDirectory(path) => {
                create_directory(tree, &path);
                pipeline.directory_done(Ok(()));
            }
            Action::RunUnits => {
                let mut slot = FailureSlot::new();
                for record in writes.iter().rev() {
                    if let Err(failure) = write_file(tree, record) {
                        slot.record(failure);
                    }
                }
                pipeline.units_joined(slot.into_result());
            }
            Action::Stop => return pipeline.into_outcome().unwrap(),
        }
    }
}

#[test]
fn plan_of_the_scenario_archive() {
    let plan = plan_extraction(vec![
        directory("a/"),
        file("a/data.bin", b"0123456789abcdef"),
        file("b.lnk", b""),
    ]);
    assert_eq!(
        plan,
        ExtractionPlan {
            directories: names(&["a", ""]),
            writes: vec![write("a/data.bin", b"0123456789abcdef"), write("b.lnk", b"")],
        }
    );
}

#[test]
fn scenario_archive_is_extracted_into_an_empty_tree() {
    let bytes = zipped(&[("a/", b""), ("a/data.bin", b"0123456789abcdef"), ("b.lnk", b"")]);
    let plan = plan_archive(bytes).unwrap();
    let mut tree = empty_tree();
    assert_eq!(run(plan, &mut tree), Ok(()));
    assert!(tree.directories.contains("a"));
    assert_eq!(tree.files.get("a/data.bin"), Some(&b"0123456789abcdef".to_vec()));
    assert_eq!(tree.files.get("b.lnk"), Some(&Vec::new()));
    assert_eq!(tree.files.len(), 2);
}

#[test]
fn plan_of_no_entries_is_empty() {
    assert_eq!(
        plan_extraction(Vec::new()),
        ExtractionPlan { directories: Vec::new(), writes: Vec::new() }
    );
}

#[test]
fn plan_names_each_directory_once() {
    let plan = plan_extraction(vec![
        file("a/b/one.txt", b"1"),
        directory("a/b/"),
        directory("a/"),
        file("a/b/two.txt", b"2"),
        directory("a/b//"),
        file("a/three.txt", b"3"),
        directory("c\\"),
        file("c\\four.txt", b"4"),
    ]);
    assert_eq!(plan.directories, names(&["a/b", "a", "c"]));
    assert_eq!(
        plan.writes,
        vec![
            write("a/b/one.txt", b"1"),
            write("a/b/two.txt", b"2"),
            write("a/three.txt", b"3"),
            write("c\\four.txt", b"4"),
        ]
    );
}

#[test]
fn plan_puts_named_directories_before_inferred_ones() {
    let plan = plan_extraction(vec![
        file("x/one.txt", b"1"),
        file("top.txt", b"t"),
        directory("y/"),
    ]);
    assert_eq!(plan.directories, names(&["y", "x", ""]));
}

#[test]
fn plan_goes_by_the_flag_of_each_entry() {
    let plan = plan_extraction(vec![directory("plain"), file("d/marker/", b"odd")]);
    assert_eq!(plan.directories, names(&["plain", "d/marker"]));
    assert_eq!(plan.writes, vec![write("d/marker/", b"odd")]);
}

#[test]
fn every_write_of_a_plan_finds_its_directory() {
    let plan = plan_extraction(vec![
        file("deep/er/est/file.bin", &[1, 2, 3]),
        file("deep/file.bin", &[4]),
        file("file.bin", &[]),
        directory("empty/"),
    ]);
    for record in &plan.writes {
        assert!(plan.directories.contains(&parent(&record.relative_path)));
    }
    let mut tree = empty_tree();
    assert_eq!(run(plan, &mut tree), Ok(()));
    assert_eq!(tree.files.len(), 3);
    assert_eq!(tree.files.get("deep/er/est/file.bin"), Some(&vec![1, 2, 3]));
    assert!(tree.directories.contains("empty"));
    assert!(tree.directories.contains("deep/er"));
}

#[test]
fn extracting_twice_into_the_same_tree_succeeds() {
    let entries = vec![directory("a/"), file("a/x", b"1"), file("y", b"2")];
    let mut tree = empty_tree();
    assert_eq!(run(plan_extraction(entries.clone()), &mut tree), Ok(()));
    assert_eq!(run(plan_extraction(entries), &mut tree), Ok(()));
    assert_eq!(tree.files.len(), 2);
}

#[test]
fn started_extraction_reports_a_directory_failure() {
    let plan = plan_extraction(vec![directory("a/"), file("b/x", b"1")]);
    let (mut pipeline, writes) = start_extraction(plan);
    assert_eq!(writes, vec![write("b/x", b"1")]);
    assert_eq!(pipeline.next(), Action::CreateDirectory("a".to_string()));
    pipeline.directory_done(Ok(()));
    assert_eq!(pipeline.next(), Action::CreateDirectory("b".to_string()));
    pipeline.directory_done(Err("read-only file system".to_string()));
    assert_eq!(pipeline.next(), Action::Stop);
    assert_eq!(
        pipeline.into_outcome(),
        Some(Err(Failure::new(FailureKind::DirectoryCreate, "b", "read-only file system")))
    );
}

#[test]
fn plan_archive_refuses_what_is_no_archive() {
    let failure = plan_archive(b"garbage".to_vec()).unwrap_err();
    assert_eq!(failure.kind, FailureKind::Format);
}

#[test]
fn plan_archive_reports_the_file_that_cannot_be_read() {
    let mut writer = ZipWriter::new(Cursor::new(Vec::new()));
    let stored =
        SimpleFileOptions::default().compression_method(zip::CompressionMethod::Stored);
    writer.start_file("dir/bad.bin", stored).unwrap();
    writer.write_all(b"0123456789abcdef").unwrap();
    let mut bytes = writer.finish().unwrap().into_inner();
    let at = bytes.windows(16).position(|w| w == b"0123456789abcdef").unwrap();
    bytes[at + 3] = b'X';
    let failure = plan_archive(bytes).unwrap_err();
    assert_eq!(failure.kind, FailureKind::EntryRead);
    assert_eq!(failure.path, "dir/bad.bin");
    assert!(failure.message().starts_with("Failed to read ZIP entry: "));
}
