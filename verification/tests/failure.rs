use archive_tree::failure::{first_failure, Failure, FailureKind, FailureSlot};

fn failure(kind: FailureKind, path: &str, cause: &str) -> Failure {
    Failure::new(kind, path, cause)
}

#[test]
fn new_failure_keeps_its_parts() {
    let f = Failure::new(FailureKind::Write, "a/b.txt", "disk full");
    assert_eq!(f.kind, FailureKind::Write);
    assert_eq!(f.path, "a/b.txt");
    assert_eq!(f.cause, "disk full");
}

#[test]
fn messages_of_archive_failures_give_the_cause() {
    assert_eq!(
        failure(FailureKind::Open, "x.zip", "No such file").message(),
        "Failed to open ZIP: No such file"
    );
    assert_eq!(
        failure(FailureKind::Format, "", "invalid Zip archive: bad header").message(),
        "Invalid ZIP file: invalid Zip archive: bad header"
    );
    assert_eq!(
        failure(FailureKind::EntryRead, "a/data.bin", "Invalid checksum").message(),
        "Failed to read ZIP entry: Invalid checksum"
    );
}

#[test]
fn messages_of_file_system_failures_name_the_path() {
    assert_eq!(
        failure(FailureKind::Write, "a/data.bin", "disk full").message(),
        "Failed to write a/data.bin: disk full"
    );
    assert_eq!(
        failure(FailureKind::DirectoryCreate, "a", "denied").message(),
        "Failed to create directory a: denied"
    );
    assert_eq!(
        failure(FailureKind::Copy, "src/x", "denied").message(),
        "Failed to copy directory: src/x: denied"
    );
    assert_eq!(
        failure(FailureKind::SourceRead, "src", "gone").message(),
        "Failed to list src: gone"
    );
}

#[test]
fn empty_slot_is_success() {
    let slot = FailureSlot::new();
    assert!(!slot.is_set());
    assert_eq!(slot.into_result(), Ok(()));
}

#[test]
fn slot_keeps_the_first_failure() {
    let mut slot = FailureSlot::new();
    slot.record(failure(FailureKind::Write, "one", "first"));
    assert!(slot.is_set());
    slot.record(failure(FailureKind::Write, "two", "second"));
    slot.record(failure(FailureKind::Copy, "three", "third"));
    assert_eq!(slot.into_result(), Err(failure(FailureKind::Write, "one", "first")));
}

#[test]
fn two_simultaneous_failures_give_one_of_them() {
    let a = failure(FailureKind::Write, "a", "cause a");
    let b = failure(FailureKind::Write, "b", "cause b");
    let mut one_way = FailureSlot::new();
    one_way.record(a.clone());
    one_way.record(b.clone());
    let mut other_way = FailureSlot::new();
    other_way.record(b.clone());
    other_way.record(a.clone());
    assert_eq!(one_way.into_result(), Err(a));
    assert_eq!(other_way.into_result(), Err(b));
}

#[test]
fn first_failure_of_no_units_is_success() {
    assert_eq!(first_failure(Vec::new()), Ok(()));
}

#[test]
fn first_failure_of_successes_is_success() {
    assert_eq!(first_failure(vec![Ok(()), Ok(()), Ok(())]), Ok(()));
}

#[test]
fn first_failure_is_the_first_in_order() {
    let outcomes = vec![
        Ok(()),
        Err(failure(FailureKind::Copy, "b", "second unit")),
        Ok(()),
        Err(failure(FailureKind::Copy, "d", "fourth unit")),
    ];
    assert_eq!(first_failure(outcomes), Err(failure(FailureKind::Copy, "b", "second unit")));
}

#[test]
fn first_failure_of_a_single_failure_is_that_failure() {
    let outcomes = vec![Err(failure(FailureKind::Write, "only", "broken"))];
    assert_eq!(first_failure(outcomes), Err(failure(FailureKind::Write, "only", "broken")));
}
