use file_conversion::llm_export_engine::{
    choose_flat_name, ExportDecision, LLMExportEngine, SourceFacts,
};
use file_conversion::path_resolver::PathProbe;
use file_conversion::report_model::{ProcessingStatus, ReportModel};

fn converted(name: &str, relative: &str, hash: Option<&str>) -> ReportModel {
    let mut r = ReportModel::new(
        name.to_string(),
        relative.to_string(),
        "txt".to_string(),
        5,
        "m".to_string(),
        "c".to_string(),
    );
    r.status = ProcessingStatus::Converted;
    r.sha512 = hash.map(|h| h.to_string());
    r
}

fn present(relative: &str) -> SourceFacts {
    SourceFacts {
        probe: PathProbe::Canonical(format!("/stage/{}", relative)),
        exists: true,
        fresh_hash: None,
    }
}

#[test]
fn flat_name_is_the_own_name_when_free() {
    let taken: Vec<String> = vec!["other.txt".to_string()];
    assert_eq!(choose_flat_name(&taken, "/stage/a/notes.txt"), "notes.txt");
    assert_eq!(choose_flat_name(&Vec::new(), "/stage/a/README"), "README");
}

#[test]
fn flat_name_takes_the_first_free_counter() {
    let taken: Vec<String> = vec!["notes.txt".to_string()];
    assert_eq!(choose_flat_name(&taken, "/stage/b/notes.txt"), "notes_1.txt");
    let more: Vec<String> = vec![
        "notes_2.txt".to_string(),
        "notes.txt".to_string(),
        "notes_1.txt".to_string(),
        "notes_4.txt".to_string(),
    ];
    assert_eq!(choose_flat_name(&more, "/stage/b/notes.txt"), "notes_3.txt");
}

#[test]
fn flat_name_without_extension_gets_a_bare_counter() {
    let taken: Vec<String> = vec!["README".to_string(), "README_1".to_string()];
    assert_eq!(choose_flat_name(&taken, "/stage/b/README"), "README_2");
}

#[test]
fn flat_name_counts_past_nine() {
    let mut taken: Vec<String> = vec!["a.md".to_string()];
    for k in 1..=11 {
        taken.push(format!("a_{}.md", k));
    }
    assert_eq!(choose_flat_name(&taken, "/x/a.md"), "a_12.md");
}

#[test]
fn same_content_under_two_names_is_exported_once() {
    let mut engine = LLMExportEngine::new(Vec::new());
    let first = converted("a.txt", "a.txt", Some("h1"));
    let second = converted("b.txt", "sub/b.txt", Some("h1"));

    let d1 = engine.decide(&first, "/stage", "/out", &present("a.txt"));
    let destination = match &d1 {
        ExportDecision::Copy { source, destination, file_name, hash } => {
            assert_eq!(source, "/stage/a.txt");
            assert_eq!(destination, "/out/a.txt");
            assert_eq!(file_name, "a.txt");
            assert_eq!(hash, "h1");
            destination.clone()
        }
        other => panic!("{:?}", other),
    };
    engine.commit(&d1, true);
    assert_eq!(engine.copied_count(), 1);
    assert_eq!(engine.skipped_count(), 0);

    let d2 = engine.decide(&second, "/stage", "/out", &present("sub/b.txt"));
    match &d2 {
        ExportDecision::Duplicate { hash, existing } => {
            assert_eq!(hash, "h1");
            assert_eq!(existing, &destination);
        }
        other => panic!("{:?}", other),
    }
    engine.commit(&d2, true);
    assert_eq!(engine.copied_count(), 1);
    assert_eq!(engine.skipped_count(), 1);
    assert_eq!(engine.destination_for("h1"), Some("/out/a.txt".to_string()));
    assert_eq!(engine.destination_for("h2"), None);
}

#[test]
fn different_content_under_one_name_gets_a_counter() {
    let mut engine = LLMExportEngine::new(Vec::new());
    let first = converted("notes.txt", "a/notes.txt", Some("h1"));
    let second = converted("notes.txt", "b/notes.txt", Some("h2"));
    let d1 = engine.decide(&first, "/stage", "/out", &present("a/notes.txt"));
    engine.commit(&d1, true);
    let d2 = engine.decide(&second, "/stage", "/out", &present("b/notes.txt"));
    match &d2 {
        ExportDecision::Copy { destination, file_name, .. } => {
            assert_eq!(file_name, "notes_1.txt");
            assert_eq!(destination, "/out/notes_1.txt");
        }
        other => panic!("{:?}", other),
    }
    engine.commit(&d2, true);
    assert_eq!(engine.copied_count(), 2);
    assert_eq!(engine.skipped_count(), 0);
}

#[test]
fn names_already_in_the_output_directory_are_not_reused() {
    let engine = LLMExportEngine::new(vec!["a.txt".to_string()]);
    let entry = converted("a.txt", "a.txt", Some("h"));
    match engine.decide(&entry, "/stage", "/out", &present("a.txt")) {
        ExportDecision::Copy { file_name, .. } => assert_eq!(file_name, "a_1.txt"),
        other => panic!("{:?}", other),
    }
}

#[test]
fn artifact_name_is_used_as_it_is() {
    let engine = LLMExportEngine::new(vec!["report__converted.pdf".to_string()]);
    let mut entry = converted("report.docx", "report__converted.pdf", Some("h"));
    entry.converted_file_name = Some("report__converted.pdf".to_string());
    match engine.decide(&entry, "/stage", "/out", &present("report__converted.pdf")) {
        ExportDecision::Copy { destination, file_name, .. } => {
            assert_eq!(file_name, "report__converted.pdf");
            assert_eq!(destination, "/out/report__converted.pdf");
        }
        other => panic!("{:?}", other),
    }
}

#[test]
fn only_converted_records_are_considered() {
    let engine = LLMExportEngine::new(Vec::new());
    for status in [ProcessingStatus::Pending, ProcessingStatus::Skipped, ProcessingStatus::Failed] {
        let mut entry = converted("a.txt", "a.txt", Some("h"));
        entry.status = status;
        let d = engine.decide(&entry, "/stage", "/out", &present("a.txt"));
        assert!(matches!(d, ExportDecision::NotConverted), "{:?}", d);
    }
}

#[test]
fn unresolved_and_missing_sources_are_skipped() {
    let engine = LLMExportEngine::new(Vec::new());
    let entry = converted("a.txt", "a.txt", Some("h"));
    let outside =
        SourceFacts { probe: PathProbe::Canonical("/etc/a.txt".to_string()), exists: true, fresh_hash: None };
    assert!(matches!(
        engine.decide(&entry, "/stage", "/out", &outside),
        ExportDecision::InvalidPath
    ));
    let gone = SourceFacts { probe: PathProbe::Missing(vec![]), exists: false, fresh_hash: None };
    assert!(matches!(
        engine.decide(&entry, "/stage", "/out", &gone),
        ExportDecision::MissingSource
    ));
}

#[test]
fn a_record_converted_without_artifact_is_exported_under_its_own_name() {
    let engine = LLMExportEngine::new(Vec::new());
    let entry = converted("a.docx", "sub/a.docx", Some("h"));
    match engine.decide(&entry, "/stage", "/out", &present("sub/a.docx")) {
        ExportDecision::Copy { source, destination, .. } => {
            assert_eq!(source, "/stage/sub/a.docx");
            assert_eq!(destination, "/out/a.docx");
        }
        other => panic!("{:?}", other),
    }
}

#[test]
fn a_record_without_hash_uses_the_fresh_one() {
    let mut engine = LLMExportEngine::new(Vec::new());
    let entry = converted("a.txt", "a.txt", None);
    let none = present("a.txt");
    assert!(matches!(
        engine.decide(&entry, "/stage", "/out", &none),
        ExportDecision::HashUnavailable
    ));
    let fresh = SourceFacts {
        probe: PathProbe::Canonical("/stage/a.txt".to_string()),
        exists: true,
        fresh_hash: Some("fresh".to_string()),
    };
    let d = engine.decide(&entry, "/stage", "/out", &fresh);
    match &d {
        ExportDecision::Copy { hash, .. } => assert_eq!(hash, "fresh"),
        other => panic!("{:?}", other),
    }
    engine.commit(&d, true);
    assert_eq!(engine.destination_for("fresh"), Some("/out/a.txt".to_string()));
}

#[test]
fn a_failed_copy_leaves_no_trace() {
    let mut engine = LLMExportEngine::new(Vec::new());
    let first = converted("a.txt", "a.txt", Some("h1"));
    let second = converted("b.txt", "b.txt", Some("h1"));
    let d1 = engine.decide(&first, "/stage", "/out", &present("a.txt"));
    engine.commit(&d1, false);
    assert_eq!(engine.copied_count(), 0);
    assert_eq!(engine.destination_for("h1"), None);
    let d2 = engine.decide(&second, "/stage", "/out", &present("b.txt"));
    assert!(matches!(d2, ExportDecision::Copy { .. }), "{:?}", d2);
    engine.commit(&d2, true);
    assert_eq!(engine.copied_count(), 1);
    assert_eq!(engine.skipped_count(), 0);
    assert_eq!(engine.destination_for("h1"), Some("/out/b.txt".to_string()));
}

#[test]
fn a_whole_catalogue_is_planned_in_order() {
    let mut engine = LLMExportEngine::new(Vec::new());
    let mut failed = converted("bad.docx", "bad.docx", None);
    failed.status = ProcessingStatus::Failed;
    let files = vec![
        converted("a.txt", "a.txt", Some("h1")),
        failed,
        converted("b.txt", "x/b.txt", Some("h1")),
        converted("a.txt", "y/a.txt", Some("h2")),
        converted("c.md", "c.md", Some("h3")),
    ];
    let facts = vec![
        present("a.txt"),
        present("bad.docx"),
        present("x/b.txt"),
        present("y/a.txt"),
        present("c.md"),
    ];
    let decisions = engine.copy_llm_readable_files(&files, "/stage", "/out", &facts);
    assert_eq!(decisions.len(), 5);
    assert!(matches!(&decisions[0], ExportDecision::Copy { file_name, .. } if file_name == "a.txt"));
    assert!(matches!(&decisions[1], ExportDecision::NotConverted));
    assert!(matches!(&decisions[2], ExportDecision::Duplicate { existing, .. } if existing == "/out/a.txt"));
    assert!(matches!(&decisions[3], ExportDecision::Copy { file_name, .. } if file_name == "a_1.txt"));
    assert!(matches!(&decisions[4], ExportDecision::Copy { file_name, .. } if file_name == "c.md"));
    assert_eq!(engine.copied_count(), 3);
    assert_eq!(engine.skipped_count(), 1);
}

#[test]
fn records_without_facts_are_not_planned() {
    let mut engine = LLMExportEngine::new(Vec::new());
    let files = vec![converted("a.txt", "a.txt", Some("h1")), converted("b.txt", "b.txt", Some("h2"))];
    let facts = vec![present("a.txt")];
    let decisions = engine.copy_llm_readable_files(&files, "/stage", "/out", &facts);
    assert_eq!(decisions.len(), 1);
    assert_eq!(engine.copied_count(), 1);
}
