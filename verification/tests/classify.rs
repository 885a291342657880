use archive_tree::classify::{analyze_archive, analyze_names, Classifier, NameClass, ZipAnalysis};
use archive_tree::failure::FailureKind;
use std::io::{Cursor, Write};
use zip::write::SimpleFileOptions;
use zip::ZipWriter;

fn names(list: &[&str]) -> Vec<String> {
    list.iter().map(|s| s.to_string()).collect()
}

fn zipped(entries: &[(&str, &[u8])]) -> Vec<u8> {
    let mut writer = ZipWriter::new(Cursor::new(Vec::new()));
    for (name, content) in entries {
        if name.ends_with('/') {
            writer.add_directory(*name, SimpleFileOptions::default()).unwrap();
        } else {
            writer.start_file(*name, SimpleFileOptions::default()).unwrap();
            writer.write_all(content).unwrap();
        }
    }
    writer.finish().unwrap().into_inner()
}

fn class(primary: bool, script: bool, suspicious: bool) -> NameClass {
    NameClass { primary, script, suspicious }
}

#[test]
fn payload_extensions_are_recognized_in_any_case() {
    let classifier = Classifier::new();
    assert_eq!(classifier.classify("hair.package"), class(true, false, false));
    assert_eq!(classifier.classify("Mods/Hair.PACKAGE"), class(true, false, false));
    assert_eq!(classifier.classify("tool.ts4script"), class(false, true, false));
    assert_eq!(classifier.classify("Tool.Ts4Script"), class(false, true, false));
    assert_eq!(classifier.classify("hair.package.bak"), class(false, false, false));
    assert_eq!(classifier.classify("package"), class(false, false, false));
}

#[test]
fn suspicious_extensions_are_recognized() {
    let classifier = Classifier::new();
    for name in ["visit.url", "b.lnk", "page.html", "page.HTM", "site.webloc"] {
        assert_eq!(classifier.classify(name), class(false, false, true));
    }
    assert_eq!(classifier.classify("url"), class(false, false, false));
    assert_eq!(classifier.classify("data.bin"), class(false, false, false));
}

#[test]
fn suspicious_terms_are_recognized_anywhere_in_the_name() {
    let classifier = Classifier::new();
    for name in [
        "README.txt",
        "docs/ReadMe_first.md",
        "my patreon.txt",
        "SUPPORT me.png",
        "donate.jpg",
        "links/info.txt",
        "join-discord.png",
    ] {
        assert_eq!(classifier.classify(name), class(false, false, true));
    }
}

#[test]
fn a_name_can_be_payload_and_suspicious_at_once() {
    let classifier = Classifier::new();
    assert_eq!(classifier.classify("patreon_hair.package"), class(true, false, true));
    assert_eq!(classifier.classify("discord/tool.ts4script"), class(false, true, true));
}

#[test]
fn classify_lowered_tests_the_name_as_it_is() {
    let classifier = Classifier::new();
    let lowered: Vec<char> = "readme.package".chars().collect();
    assert_eq!(classifier.classify_lowered(&lowered), class(true, false, true));
    let upper: Vec<char> = "README.PACKAGE".chars().collect();
    assert_eq!(classifier.classify_lowered(&upper), class(false, false, false));
}

#[test]
fn readme_without_payload_is_suspicious() {
    let analysis = analyze_names(names(&["README.txt"]));
    assert_eq!(
        analysis,
        ZipAnalysis {
            has_package_files: false,
            has_ts_script: false,
            file_list: names(&["README.txt"]),
            suspicious_files: names(&["README.txt"]),
            total_files: 1,
        }
    );
}

#[test]
fn directory_markers_are_counted_and_not_listed() {
    let analysis = analyze_names(names(&["readme/", "links\\", "a/", "a/x.package", "support/"]));
    assert_eq!(
        analysis,
        ZipAnalysis {
            has_package_files: true,
            has_ts_script: false,
            file_list: names(&["a/x.package"]),
            suspicious_files: Vec::new(),
            total_files: 5,
        }
    );
}

#[test]
fn analysis_of_no_names_is_empty() {
    assert_eq!(
        analyze_names(Vec::new()),
        ZipAnalysis {
            has_package_files: false,
            has_ts_script: false,
            file_list: Vec::new(),
            suspicious_files: Vec::new(),
            total_files: 0,
        }
    );
}

#[test]
fn analysis_lists_files_and_suspicious_files_in_order() {
    let analysis = analyze_names(names(&[
        "Mods/",
        "Mods/Hair.package",
        "Mods/Visit.URL",
        "Mods/tool.ts4script",
        "Readme.txt",
        "Mods/plain.txt",
    ]));
    assert_eq!(
        analysis,
        ZipAnalysis {
            has_package_files: true,
            has_ts_script: true,
            file_list: names(&[
                "Mods/Hair.package",
                "Mods/Visit.URL",
                "Mods/tool.ts4script",
                "Readme.txt",
                "Mods/plain.txt",
            ]),
            suspicious_files: names(&["Mods/Visit.URL", "Readme.txt"]),
            total_files: 6,
        }
    );
}

#[test]
fn scenario_archive_is_classified() {
    let bytes = zipped(&[("a/", b""), ("a/data.bin", b"0123456789abcdef"), ("b.lnk", b"")]);
    assert_eq!(
        analyze_archive(bytes),
        Ok(ZipAnalysis {
            has_package_files: false,
            has_ts_script: false,
            file_list: names(&["a/data.bin", "b.lnk"]),
            suspicious_files: names(&["b.lnk"]),
            total_files: 3,
        })
    );
}

#[test]
fn analysis_of_what_is_no_archive_is_a_format_failure() {
    let failure = analyze_archive(b"PK but not really".to_vec()).unwrap_err();
    assert_eq!(failure.kind, FailureKind::Format);
    assert_eq!(failure.path, "");
    assert!(failure.message().starts_with("Invalid ZIP file: "));
}
