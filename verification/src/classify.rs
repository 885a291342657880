//! Classifying the contents of an archive by the names of its entries,
//! without extracting anything.

use crate::archive::{decoded, read_names, Member};
use crate::failure::{Failure, FailureKind};
use crate::paths::{directory_marker, is_directory_marker};
use crate::text::{
    any_infix, any_suffix, chars_of, contains_any, ends_with, ends_with_any, has_suffix,
    lowercase, lowercase_chars,
};
use vstd::prelude::*;

verus! {

/// The extension of the primary payload.
pub open spec fn primary_extension() -> Seq<char> {
    ".package"@
}

/// The extension of the script payload.
pub open spec fn script_extension() -> Seq<char> {
    ".ts4script"@
}

/// The extensions of files that are there to lead elsewhere: shortcuts,
/// links and web pages.
pub open spec fn suspicious_extensions() -> Seq<Seq<char>> {
    seq![".url"@, ".lnk"@, ".html"@, ".htm"@, ".webloc"@]
}

/// The words that mark a file as a distraction wherever they occur in its
/// name.
pub open spec fn suspicious_terms() -> Seq<Seq<char>> {
    seq!["readme"@, "patreon"@, "support"@, "donate"@, "link"@, "discord"@]
}

/// A lowercase name that is a primary payload.
pub open spec fn is_primary(lower: Seq<char>) -> bool {
    has_suffix(lower, primary_extension())
}

/// A lowercase name that is a script payload.
pub open spec fn is_script(lower: Seq<char>) -> bool {
    has_suffix(lower, script_extension())
}

/// A lowercase name that is suspicious: it ends in a suspicious extension or
/// holds a suspicious term.
pub open spec fn is_suspicious(lower: Seq<char>) -> bool {
    any_suffix(lower, suspicious_extensions()) || any_infix(lower, suspicious_terms())
}

/// What the name of one file says of it. The three answers are independent
/// of each other.
#[derive(Clone, Copy, Debug, PartialEq, Eq, Structural)]
pub struct NameClass {
    pub primary: bool,
    pub script: bool,
    pub suspicious: bool,
}

/// The class of a file by its lowercase name.
pub open spec fn class_of(lower: Seq<char>) -> NameClass {
    NameClass {
        primary: is_primary(lower),
        script: is_script(lower),
        suspicious: is_suspicious(lower),
    }
}

/// Appends the characters of `pattern` to `table`.
fn add_pattern(table: &mut Vec<Vec<char>>, pattern: &str)
    ensures
        final(table).deep_view() == old(table).deep_view().push(pattern@),
{
    let ghost before = table.deep_view();
    let ghost held = table@;
    let chars = chars_of(pattern);
    assert(chars.deep_view() =~= pattern@);
    table.push(chars);
    assert forall|i: int| 0 <= i < before.len() implies table.deep_view()[i] == before[i] by {
    }
}

/// The patterns that names are tested against.
pub struct Classifier {
    primary: Vec<char>,
    script: Vec<char>,
    extensions: Vec<Vec<char>>,
    terms: Vec<Vec<char>>,
}

/// The patterns of a classifier as mathematical values: the extension of
/// each payload, and the extensions and the terms that are suspicious.
pub struct PatternsModel {
    pub primary: Seq<char>,
    pub script: Seq<char>,
    pub extensions: Seq<Seq<char>>,
    pub terms: Seq<Seq<char>>,
}

/// The fixed patterns.
pub open spec fn fixed_patterns() -> PatternsModel {
    PatternsModel {
        primary: primary_extension(),
        script: script_extension(),
        extensions: suspicious_extensions(),
        terms: suspicious_terms(),
    }
}

impl View for Classifier {
    type V = PatternsModel;

    closed spec fn view(&self) -> PatternsModel {
        PatternsModel {
            primary: self.primary@,
            script: self.script@,
            extensions: self.extensions.deep_view(),
            terms: self.terms.deep_view(),
        }
    }
}

impl Classifier {
    /// A classifier holds the fixed patterns and no others.
    #[verifier::type_invariant]
    spec fn wf(&self) -> bool {
        self@ == fixed_patterns()
    }

    /// The classifier for the fixed patterns: it holds the two payload
    /// extensions, the five suspicious extensions and the six suspicious
    /// terms, each table in its fixed order.
    pub fn new() -> (classifier: Classifier)
        ensures
            classifier@ == fixed_patterns(),
    {
        let mut extensions: Vec<Vec<char>> = Vec::new();
        add_pattern(&mut extensions, ".url");
        add_pattern(&mut extensions, ".lnk");
        add_pattern(&mut extensions, ".html");
        add_pattern(&mut extensions, ".htm");
        add_pattern(&mut extensions, ".webloc");
        let mut terms: Vec<Vec<char>> = Vec::new();
        add_pattern(&mut terms, "readme");
        add_pattern(&mut terms, "patreon");
        add_pattern(&mut terms, "support");
        add_pattern(&mut terms, "donate");
        add_pattern(&mut terms, "link");
        add_pattern(&mut terms, "discord");
        assert(extensions.deep_view() =~= suspicious_extensions());
        assert(terms.deep_view() =~= suspicious_terms());
        Classifier {
            primary: chars_of(".package"),
            script: chars_of(".ts4script"),
            extensions,
            terms,
        }
    }

    /// The class of the file whose lowercase name is `lower`.
    pub fn classify_lowered(&self, lower: &Vec<char>) -> (class: NameClass)
        ensures
            class == class_of(lower@),
    {
        proof {
            use_type_invariant(self);
        }
        let by_extension = ends_with_any(lower, &self.extensions);
        let suspicious = by_extension || contains_any(lower, &self.terms);
        NameClass {
            primary: ends_with(lower, &self.primary),
            script: ends_with(lower, &self.script),
            suspicious,
        }
    }

    /// The class of the file named `name`, whatever the case of its letters.
    pub fn classify(&self, name: &str) -> (class: NameClass)
        ensures
            class == class_of(lowercase(name@)),
    {
        let lower = lowercase_chars(name);
        self.classify_lowered(&lower)
    }
}

/// What the names of an archive say of its contents.
#[derive(Clone, Debug, PartialEq, Eq)]
pub struct ZipAnalysis {
    /// Whether some file is a primary payload.
    pub has_package_files: bool,
    /// Whether some file is a script payload.
    pub has_ts_script: bool,
    /// The names of all files, in the order of the archive.
    pub file_list: Vec<String>,
    /// The names of the suspicious files, in the order of the archive.
    pub suspicious_files: Vec<String>,
    /// The number of entries of the archive, directory markers included.
    pub total_files: usize,
}

/// An analysis as a mathematical value.
pub struct AnalysisModel {
    pub has_package_files: bool,
    pub has_ts_script: bool,
    pub file_list: Seq<Seq<char>>,
    pub suspicious_files: Seq<Seq<char>>,
    pub total_files: nat,
}

impl View for ZipAnalysis {
    type V = AnalysisModel;

    open spec fn view(&self) -> AnalysisModel {
        AnalysisModel {
            has_package_files: self.has_package_files,
            has_ts_script: self.has_ts_script,
            file_list: self.file_list.deep_view(),
            suspicious_files: self.suspicious_files.deep_view(),
            total_files: self.total_files as nat,
        }
    }
}

/// The names of `names` that denote files.
pub open spec fn files_among(names: Seq<Seq<char>>) -> Seq<Seq<char>> {
    names.filter(|name: Seq<char>| !is_directory_marker(name))
}

/// The names of `files` that are suspicious in lowercase.
pub open spec fn suspicious_among(files: Seq<Seq<char>>) -> Seq<Seq<char>> {
    files.filter(|name: Seq<char>| is_suspicious(lowercase(name)))
}

/// The analysis of an archive whose entries are named `names`: directory
/// markers are counted in the total and otherwise passed over; every other
/// name is listed, and tested in lowercase.
pub open spec fn analysis_of(names: Seq<Seq<char>>) -> AnalysisModel {
    let files = files_among(names);
    AnalysisModel {
        has_package_files: exists|i: int|
            0 <= i < files.len() && is_primary(lowercase(#[trigger] files[i])),
        has_ts_script: exists|i: int|
            0 <= i < files.len() && is_script(lowercase(#[trigger] files[i])),
        file_list: files,
        suspicious_files: suspicious_among(files),
        total_files: names.len(),
    }
}

/// What one more name adds to the files and to the suspicious files.
proof fn lemma_one_more_name(names: Seq<Seq<char>>, name: Seq<char>)
    ensures
        files_among(names.push(name)) == if is_directory_marker(name) {
            files_among(names)
        } else {
            files_among(names).push(name)
        },
        suspicious_among(names.push(name)) == if is_suspicious(lowercase(name)) {
            suspicious_among(names).push(name)
        } else {
            suspicious_among(names)
        },
{
    names.lemma_filter_push(name, |name: Seq<char>| !is_directory_marker(name));
    names.lemma_filter_push(name, |name: Seq<char>| is_suspicious(lowercase(name)));
}

/// Analyzes an archive whose entries are named `names`, in the order of the
/// archive.
pub fn analyze_names(names: Vec<String>) -> (analysis: ZipAnalysis)
    ensures
        analysis@ == analysis_of(names.deep_view()),
{
    let classifier = Classifier::new();
    let ghost all = names.deep_view();
    let total_files = names.len();
    let mut has_package_files = false;
    let mut has_ts_script = false;
    let mut file_list: Vec<String> = Vec::new();
    let mut suspicious_files: Vec<String> = Vec::new();
    for name in it: names
        invariant
            it.seq() == names@,
            all == names.deep_view(),
            file_list.deep_view() == files_among(all.take(it.index())),
            suspicious_files.deep_view() == suspicious_among(file_list.deep_view()),
            has_package_files == exists|i: int|
                0 <= i < file_list.len() && is_primary(
                    lowercase(#[trigger] file_list.deep_view()[i]),
                ),
            has_ts_script == exists|i: int|
                0 <= i < file_list.len() && is_script(
                    lowercase(#[trigger] file_list.deep_view()[i]),
                ),
    {
        let ghost files = file_list.deep_view();
        proof {
            all.lemma_take_succ_push(it.index());
            lemma_one_more_name(all.take(it.index()), name@);
            lemma_one_more_name(files, name@);
        }
        if !directory_marker(name.as_str()) {
            let class = classifier.classify(name.as_str());
            if class.primary {
                has_package_files = true;
            }
            if class.script {
                has_ts_script = true;
            }
            if class.suspicious {
                suspicious_files.push(name.clone());
            }
            file_list.push(name);
            proof {
                let grown = file_list.deep_view();
                assert(grown =~= files.push(name@));
                assert(grown[files.len() as int] == name@);
                assert forall|i: int| 0 <= i < files.len() implies grown[i] == files[i] by {}
            }
        }
    }
    assert(all.take(all.len() as int) =~= all);
    ZipAnalysis { has_package_files, has_ts_script, file_list, suspicious_files, total_files }
}

/// Analyzes the archive held in `bytes` by the names of its entries. No
/// content is decompressed and nothing is written.
///
/// It succeeds exactly where the decoder accepts the bytes and can reach
/// every member; any failure is a format failure.
pub fn analyze_archive(bytes: Vec<u8>) -> (outcome: Result<ZipAnalysis, Failure>)
    ensures
        outcome is Ok <==> decoded(bytes@) is Some && forall|i: int|
            0 <= i < decoded(bytes@)->0.len() ==> (#[trigger] decoded(bytes@)->0[i]).name is Some,
        outcome is Ok ==> outcome->Ok_0@ == analysis_of(
            decoded(bytes@)->0.map_values(|member: Member| member.name->0),
        ),
        outcome is Err ==> outcome->Err_0.kind == FailureKind::Format && outcome->Err_0.path@.len()
            == 0,
{
    match read_names(bytes) {
        Ok(names) => Ok(analyze_names(names)),
        Err(failure) => Err(failure),
    }
}

/// No directory marker is listed, as a file or as a suspicious file.
pub proof fn lemma_markers_are_passed_over(names: Seq<Seq<char>>)
    ensures
        forall|i: int|
            0 <= i < analysis_of(names).file_list.len() ==> !is_directory_marker(
                #[trigger] analysis_of(names).file_list[i],
            ),
        forall|i: int|
            0 <= i < analysis_of(names).suspicious_files.len() ==> !is_directory_marker(
                #[trigger] analysis_of(names).suspicious_files[i],
            ),
{
    let is_file = |name: Seq<char>| !is_directory_marker(name);
    let is_odd = |name: Seq<char>| is_suspicious(lowercase(name));
    let files = names.filter(is_file);
    let odd = files.filter(is_odd);
    assert forall|i: int| 0 <= i < files.len() implies !is_directory_marker(
        #[trigger] files[i],
    ) by {
        names.lemma_filter_pred(is_file, i);
    }
    assert forall|i: int| 0 <= i < odd.len() implies !is_directory_marker(#[trigger] odd[i]) by {
        files.lemma_filter_contains_rev(is_odd, odd[i]);
        let k = choose|k: int| 0 <= k < files.len() && files[k] == odd[i];
        names.lemma_filter_pred(is_file, k);
    }
}

/// Every suspicious file is a listed file whose lowercase name is
/// suspicious, and no more files are listed than the archive has entries.
pub proof fn lemma_suspicious_files_are_listed(names: Seq<Seq<char>>)
    ensures
        analysis_of(names).file_list.len() <= analysis_of(names).total_files,
        analysis_of(names).suspicious_files.len() <= analysis_of(names).file_list.len(),
        forall|i: int|
            0 <= i < analysis_of(names).suspicious_files.len() ==> is_suspicious(
                lowercase(#[trigger] analysis_of(names).suspicious_files[i]),
            ) && analysis_of(names).file_list.contains(analysis_of(names).suspicious_files[i]),
{
    let is_file = |name: Seq<char>| !is_directory_marker(name);
    let is_odd = |name: Seq<char>| is_suspicious(lowercase(name));
    let files = names.filter(is_file);
    let odd = files.filter(is_odd);
    names.lemma_filter_len(is_file);
    files.lemma_filter_len(is_odd);
    assert forall|i: int| 0 <= i < odd.len() implies is_suspicious(lowercase(#[trigger] odd[i]))
        && files.contains(odd[i]) by {
        files.lemma_filter_pred(is_odd, i);
        files.lemma_filter_contains_rev(is_odd, odd[i]);
    }
}

} // verus!
