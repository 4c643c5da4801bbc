use appscreener_pattern_sync::config::{Manifest, ManifestEntry, PatternSettings};
use appscreener_pattern_sync::dto::PatternType;
use appscreener_pattern_sync::local::{
    file_stem, is_xml_file, load_local_patterns, load_pattern_files, pattern_files, DirectoryEntry,
    LoadError, PatternFile,
};
use appscreener_pattern_sync::xml::xml_sha256;

fn manifest(patterns: Vec<ManifestEntry>) -> Manifest {
    Manifest::new(
        1,
        PatternSettings {
            pattern_type: Some(PatternType::Dataflow),
            severity: Some(3),
            confidence: Some(1),
            ..PatternSettings::default()
        },
        patterns,
    )
}

fn file(name: &str, content: &str) -> PatternFile {
    PatternFile {
        path: format!("patterns/{name}"),
        file_name: name.to_owned(),
        name_is_utf8: true,
        content: Ok(content.to_owned()),
    }
}

#[test]
fn recognises_xml_files_and_stems() {
    assert!(is_xml_file("P003-source.xml"));
    assert!(is_xml_file("UPPER.XML"));
    assert!(!is_xml_file(".xml"));
    assert!(!is_xml_file("patterns.yaml"));
    assert!(!is_xml_file("x.xml.bak"));
    assert!(!is_xml_file("xml"));
    assert_eq!(file_stem("P003-source.xml"), "P003-source");
    assert_eq!(file_stem("a.b.xml"), "a.b");
    assert_eq!(file_stem(".hidden"), ".hidden");
}

#[test]
fn loads_patterns_with_names_and_hashes() {
    let m = manifest(vec![ManifestEntry {
        key: "second.xml".to_owned(),
        settings: PatternSettings {
            name: Some("Renamed".to_owned()),
            ..PatternSettings::default()
        },
    }]);
    let files = vec![
        file("first.xml", "\u{feff}<condition/>\r\n"),
        file("second.xml", "<a/>"),
    ];
    let patterns = load_pattern_files(&m, &files).unwrap();
    assert_eq!(patterns.len(), 2);
    assert_eq!(patterns[0].name, "first");
    assert_eq!(patterns[0].xml, "<condition/>");
    assert_eq!(patterns[0].xml_hash, xml_sha256("<condition/>"));
    assert_eq!(patterns[0].source_path, "patterns/first.xml");
    assert_eq!(patterns[1].name, "Renamed");
    assert_eq!(patterns[1].settings.severity, Some(3));
}

#[test]
fn rejects_names_equal_ignoring_case() {
    let m = manifest(vec![]);
    let files = vec![file("Alpha.xml", "<a/>"), file("alpha.xml", "<a/>")];
    let error = load_pattern_files(&m, &files).unwrap_err();
    assert!(matches!(error, LoadError::DuplicateName { .. }));
    assert_eq!(
        error.message(),
        "duplicate local pattern name, ignoring case: \"alpha\""
    );
}

#[test]
fn reports_file_problems_in_order() {
    let m = manifest(vec![]);

    let error = load_pattern_files(&m, &vec![file("empty.xml", " \r\n ")]).unwrap_err();
    assert_eq!(error.message(), "pattern file is empty: patterns/empty.xml");

    let error = load_pattern_files(&m, &vec![file("bad.xml", "<a>")]).unwrap_err();
    assert_eq!(error.message(), "invalid XML fragment: patterns/bad.xml");
    assert!(error.cause().is_some());

    let mut unreadable = file("u.xml", "");
    unreadable.content = Err("stream did not contain valid UTF-8".to_owned());
    let error = load_pattern_files(&m, &vec![unreadable]).unwrap_err();
    assert_eq!(error.message(), "failed to read pattern as UTF-8: patterns/u.xml");
    assert_eq!(
        error.cause().as_deref(),
        Some("stream did not contain valid UTF-8")
    );

    let mut non_utf8 = file("\u{fffd}.xml", "<a/>");
    non_utf8.name_is_utf8 = false;
    let error = load_pattern_files(&m, &vec![non_utf8]).unwrap_err();
    assert!(matches!(error, LoadError::NonUtf8Name { .. }));
}

#[test]
fn rejects_unused_manifest_entries() {
    let m = manifest(vec![ManifestEntry {
        key: "ghost".to_owned(),
        settings: PatternSettings::default(),
    }]);
    let error = load_pattern_files(&m, &vec![file("real.xml", "<a/>")]).unwrap_err();
    assert_eq!(
        error.message(),
        "manifest entries without matching XML files: ghost"
    );
}

fn listed(name: &str, is_file: bool, content: &str) -> DirectoryEntry {
    DirectoryEntry {
        file_name: name.to_owned(),
        name_is_utf8: true,
        is_file,
        content: Ok(content.to_owned()),
    }
}

#[test]
fn takes_xml_files_of_the_listing_in_name_order() {
    let entries = vec![
        listed("b.xml", true, "<b/>"),
        listed("patterns.yaml", true, "version: 1"),
        listed("A.XML", true, "<a/>"),
        listed("dir.xml", false, ""),
        listed("c.xml.bak", true, "<c/>"),
        listed("a.xml", true, "<a2/>"),
    ];
    let files = pattern_files("/rules/p", &entries);
    let names: Vec<&str> = files.iter().map(|f| f.file_name.as_str()).collect();
    assert_eq!(names, vec!["A.XML", "a.xml", "b.xml"]);
    assert_eq!(files[2].path, "/rules/p/b.xml");

    let patterns = load_local_patterns("/rules/p", &manifest(vec![]), &vec![
        listed("zeta.xml", true, "<z/>"),
        listed("alpha.xml", true, "<a/>"),
    ])
    .unwrap();
    let names: Vec<&str> = patterns.iter().map(|p| p.name.as_str()).collect();
    assert_eq!(names, vec!["alpha", "zeta"]);
    assert_eq!(patterns[1].source_path, "/rules/p/zeta.xml");
    assert_eq!(patterns[0].settings.severity, Some(3));
}

#[test]
fn listing_without_patterns_loads_nothing() {
    let entries = vec![listed("notes.txt", true, "x")];
    assert!(load_local_patterns("p", &manifest(vec![]), &entries)
        .unwrap()
        .is_empty());
}
