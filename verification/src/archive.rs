//! Reading a compressed archive that is held in memory: its entries, one
//! after the other, in the order of the archive.

use crate::failure::{Failure, FailureKind};
use crate::paths::{directory_marker, is_directory_marker};
use vstd::prelude::*;

verus! {

/// `zip::ZipArchive`, the decoder's handle on an opened archive. Nothing is
/// known of what is inside it but what [`members`] names.
#[verifier::external_type_specification]
#[verifier::external_body]
#[verifier::reject_recursive_types(R)]
pub struct ExZipArchive<R>(zip::ZipArchive<R>);

/// `std::io::Cursor`, the reader over bytes in memory that the decoder reads
/// from.
#[verifier::external_type_specification]
#[verifier::external_body]
#[verifier::reject_recursive_types(T)]
pub struct ExCursor<T>(std::io::Cursor<T>);

/// `zip::result::ZipError`, the decoder's error. It is only carried from the
/// call that gave it to [`error_text`].
#[verifier::external_type_specification]
#[verifier::external_body]
pub struct ExZipError(zip::result::ZipError);

/// What the decoder gives for one member of an archive: its name, unless the
/// member cannot be reached, and its decompressed content, unless it cannot
/// be read in full.
pub struct Member {
    pub name: Option<Seq<char>>,
    pub content: Option<Seq<u8>>,
}

/// The members of an opened archive, in the order of its directory.
pub uninterp spec fn members(archive: zip::ZipArchive<std::io::Cursor<Vec<u8>>>) -> Seq<Member>;

/// The members that the decoder finds in `bytes`, or `None` where it does
/// not accept `bytes` as an archive.
pub uninterp spec fn decoded(bytes: Seq<u8>) -> Option<Seq<Member>>;

/// Calls `zip::ZipArchive::new` on a cursor over `bytes`. Whether the
/// decoder accepts the bytes, and which members it then finds, depends on the
/// bytes alone: that outcome is named [`decoded`].
#[verifier::external_body]
fn open_archive(bytes: Vec<u8>) -> (opened: Result<
    zip::ZipArchive<std::io::Cursor<Vec<u8>>>,
    zip::result::ZipError,
>)
    ensures
        match opened {
            Ok(archive) => decoded(bytes@) == Some(members(archive)),
            Err(_) => decoded(bytes@) is None,
        },
{
    zip::ZipArchive::new(std::io::Cursor::new(bytes))
}

/// Calls `zip::ZipArchive::len`: the number of members.
#[verifier::external_body]
fn member_count(archive: &zip::ZipArchive<std::io::Cursor<Vec<u8>>>) -> (count: usize)
    ensures
        count == members(*archive).len(),
{
    archive.len()
}

/// Calls `zip::ZipArchive::by_index` and, on the member that it gives,
/// `zip::read::ZipFile::name`. The call fails exactly where the member has no
/// name in [`members`], and leaves the members as they were.
#[verifier::external_body]
fn member_name(archive: &mut zip::ZipArchive<std::io::Cursor<Vec<u8>>>, index: usize) -> (named:
    Result<String, zip::result::ZipError>)
    requires
        index < members(*old(archive)).len(),
    ensures
        members(*final(archive)) == members(*old(archive)),
        match named {
            Ok(name) => members(*old(archive))[index as int].name == Some(name@),
            Err(_) => members(*old(archive))[index as int].name is None,
        },
{
    let file = archive.by_index(index)?;
    Ok(file.name().to_string())
}

/// Calls `zip::ZipArchive::by_index` and reads the member that it gives to
/// its end with `std::io::copy`. The call fails exactly where the member has
/// no content in [`members`], and leaves the members as they were.
#[verifier::external_body]
fn member_content(archive: &mut zip::ZipArchive<std::io::Cursor<Vec<u8>>>, index: usize) -> (read:
    Result<Vec<u8>, zip::result::ZipError>)
    requires
        index < members(*old(archive)).len(),
    ensures
        members(*final(archive)) == members(*old(archive)),
        match read {
            Ok(content) => members(*old(archive))[index as int].content == Some(content@),
            Err(_) => members(*old(archive))[index as int].content is None,
        },
{
    let mut file = archive.by_index(index)?;
    let mut content: Vec<u8> = Vec::new();
    std::io::copy(&mut file, &mut content)?;
    Ok(content)
}

/// Calls `to_string` on a `zip::result::ZipError`, or, where the error only
/// carries an i/o error, on that: the decoder's own words for what went
/// wrong. Nothing is claimed of them.
#[verifier::external_body]
fn error_text(error: &zip::result::ZipError) -> (text: String) {
    match error {
        zip::result::ZipError::Io(inner) => inner.to_string(),
        other => other.to_string(),
    }
}

/// One entry of an archive: its name, whether the name denotes a directory,
/// and, for a file, its decompressed content.
#[derive(Clone, Debug, PartialEq, Eq)]
pub struct ArchiveEntry {
    pub name: String,
    pub is_directory: bool,
    pub content: Vec<u8>,
}

/// An archive entry as a mathematical value.
pub struct EntryModel {
    pub name: Seq<char>,
    pub is_directory: bool,
    pub content: Seq<u8>,
}

impl View for ArchiveEntry {
    type V = EntryModel;

    open spec fn view(&self) -> EntryModel {
        EntryModel { name: self.name@, is_directory: self.is_directory, content: self.content@ }
    }
}

/// The entries of `entries` as mathematical values.
pub open spec fn entry_models(entries: Seq<ArchiveEntry>) -> Seq<EntryModel> {
    entries.map_values(|entry: ArchiveEntry| entry@)
}

/// A member that can be turned into an entry: it has a name, and either the
/// name denotes a directory or its content can be read.
pub open spec fn readable(member: Member) -> bool {
    member.name is Some && (is_directory_marker(member.name->0) || member.content is Some)
}

/// The entry that a readable member becomes. A directory has no content.
pub open spec fn entry_from(member: Member) -> EntryModel {
    if is_directory_marker(member.name->0) {
        EntryModel { name: member.name->0, is_directory: true, content: Seq::<u8>::empty() }
    } else {
        EntryModel { name: member.name->0, is_directory: false, content: member.content->0 }
    }
}

/// `at` is the position of the first member that is not readable.
pub open spec fn is_first_unreadable(all: Seq<Member>, at: int) -> bool {
    &&& 0 <= at < all.len()
    &&& !readable(all[at])
    &&& forall|j: int| 0 <= j < at ==> readable(#[trigger] all[j])
}

/// The failure that an unreadable member gives: a format failure where the
/// member cannot be reached, and otherwise a read failure that names it.
pub open spec fn unreadable_as(member: Member, kind: FailureKind, path: Seq<char>) -> bool {
    match member.name {
        None => kind == FailureKind::Format && path.len() == 0,
        Some(name) => kind == FailureKind::EntryRead && path == name,
    }
}

/// A failure of `kind` at `path`, with the decoder's words as its cause.
fn decoder_failure(kind: FailureKind, path: String, error: &zip::result::ZipError) -> (failure:
    Failure)
    ensures
        failure.kind == kind,
        failure.path == path,
{
    Failure { kind, path, cause: error_text(error) }
}

/// Reads the archive held in `bytes`: every entry, in the order of the
/// archive, files with their content in full.
///
/// It succeeds exactly where the decoder accepts the bytes and every member
/// is readable. Where the decoder does not accept the bytes, or cannot reach
/// a member, the failure is a format failure; where it cannot read a file's
/// content, a read failure that names the file. The failure is that of the
/// first member that is not readable.
pub fn read_entries(bytes: Vec<u8>) -> (outcome: Result<Vec<ArchiveEntry>, Failure>)
    ensures
        outcome is Ok <==> decoded(bytes@) is Some && forall|i: int|
            0 <= i < decoded(bytes@)->0.len() ==> readable(#[trigger] decoded(bytes@)->0[i]),
        outcome is Ok ==> entry_models(outcome->Ok_0@) == decoded(bytes@)->0.map_values(
            |member: Member| entry_from(member),
        ),
        outcome is Err && decoded(bytes@) is None ==> outcome->Err_0.kind == FailureKind::Format
            && outcome->Err_0.path@.len() == 0,
        outcome is Err && decoded(bytes@) is Some ==> exists|at: int|
            #[trigger] is_first_unreadable(decoded(bytes@)->0, at) && unreadable_as(
                decoded(bytes@)->0[at],
                outcome->Err_0.kind,
                outcome->Err_0.path@,
            ),
{
    let mut archive = match open_archive(bytes) {
        Ok(archive) => archive,
        Err(error) => {
            return Err(decoder_failure(FailureKind::Format, String::new(), &error));
        },
    };
    let ghost all = members(archive);
    let count = member_count(&archive);
    let mut entries: Vec<ArchiveEntry> = Vec::new();
    let mut index: usize = 0;
    while index < count
        invariant
            members(archive) == all,
            decoded(bytes@) == Some(all),
            count == all.len(),
            index <= count,
            entries.len() == index,
            forall|j: int| 0 <= j < index ==> readable(#[trigger] all[j]),
            forall|j: int| 0 <= j < index ==> (#[trigger] entries[j])@ == entry_from(all[j]),
        decreases count - index,
    {
        let name = match member_name(&mut archive, index) {
            Ok(name) => name,
            Err(error) => {
                assert(is_first_unreadable(decoded(bytes@)->0, index as int));
                return Err(decoder_failure(FailureKind::Format, String::new(), &error));
            },
        };
        if directory_marker(name.as_str()) {
            entries.push(ArchiveEntry { name, is_directory: true, content: Vec::new() });
        } else {
            match member_content(&mut archive, index) {
                Ok(content) => {
                    entries.push(ArchiveEntry { name, is_directory: false, content });
                },
                Err(error) => {
                    assert(is_first_unreadable(decoded(bytes@)->0, index as int));
                    return Err(decoder_failure(FailureKind::EntryRead, name, &error));
                },
            }
        }
        index += 1;
    }
    Ok(entries)
}

/// Reads the names of the archive held in `bytes`: the name of every entry,
/// directory markers included, in the order of the archive. No content is
/// decompressed.
///
/// It succeeds exactly where the decoder accepts the bytes and can reach
/// every member; any failure is a format failure.
pub fn read_names(bytes: Vec<u8>) -> (outcome: Result<Vec<String>, Failure>)
    ensures
        outcome is Ok <==> decoded(bytes@) is Some && forall|i: int|
            0 <= i < decoded(bytes@)->0.len() ==> (#[trigger] decoded(bytes@)->0[i]).name is Some,
        outcome is Ok ==> outcome->Ok_0.deep_view() == decoded(bytes@)->0.map_values(
            |member: Member| member.name->0,
        ),
        outcome is Err ==> outcome->Err_0.kind == FailureKind::Format && outcome->Err_0.path@.len()
            == 0,
{
    let mut archive = match open_archive(bytes) {
        Ok(archive) => archive,
        Err(error) => {
            return Err(decoder_failure(FailureKind::Format, String::new(), &error));
        },
    };
    let ghost all = members(archive);
    let count = member_count(&archive);
    let mut names: Vec<String> = Vec::new();
    let mut index: usize = 0;
    while index < count
        invariant
            members(archive) == all,
            decoded(bytes@) == Some(all),
            count == all.len(),
            index <= count,
            names.len() == index,
            forall|j: int| 0 <= j < index ==> (#[trigger] all[j]).name == Some(names[j]@),
        decreases count - index,
    {
        match member_name(&mut archive, index) {
            Ok(name) => {
                names.push(name);
            },
            Err(error) => {
                return Err(decoder_failure(FailureKind::Format, String::new(), &error));
            },
        }
        index += 1;
    }
    Ok(names)
}

} // verus!
