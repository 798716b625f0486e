use file_conversion::ept_logger::EPTLogger;
use file_conversion::file_conversion_adapter::{
    blank, completed, holds_forbidden_character, processing_failed, start_file_conversion,
    validate_path_for_opening,
};
use file_conversion::file_scanner::{FileMetadata, FileScanner, ScannedFile, Timestamp};
use file_conversion::process_controller::ProcessingResult;
use file_conversion::report_model::{ProcessingStatus, ReportModel};
use file_conversion::report_writer::{ReportCell, ReportWriter};

fn file(path: &str, size: u64, modified: Option<i64>, created: Option<i64>) -> ScannedFile {
    ScannedFile {
        path: path.to_string(),
        canonical: path.to_string(),
        is_file: true,
        metadata: Some(FileMetadata {
            size,
            modified: modified.map(|s| Timestamp { seconds: s, nanoseconds: 0 }),
            created: created.map(|s| Timestamp { seconds: s, nanoseconds: 0 }),
        }),
    }
}

fn looks_like_a_time(text: &str) -> bool {
    let b = text.as_bytes();
    b.len() == 19 && b[4] == b'-' && b[7] == b'-' && b[10] == b' ' && b[13] == b':' && b[16] == b':'
}

#[test]
fn system_files_are_recognised() {
    for name in ["~$report.docx", "._notes", ".DS_Store", ".DSx", "desktop.ini", "thumbs.db"] {
        assert!(FileScanner::should_skip_file(name), "{}", name);
    }
    for name in ["notes.txt", "Thumbs.db", "Desktop.ini", "a~$b", "x._y", "thumbs.db.bak", ".D", ""] {
        assert!(!FileScanner::should_skip_file(name), "{}", name);
    }
}

#[test]
fn catalogue_entry_for_given_time_texts() {
    let e = FileScanner::catalogue_entry(
        "/stage",
        "/stage/docs/Report.DOCX",
        2048,
        Some("2024-01-02 03:04:05".to_string()),
        None,
    );
    assert_eq!(e.original_file_name, "Report.DOCX");
    assert_eq!(e.original_relative_path, "docs/Report.DOCX");
    assert_eq!(e.file_name, "Report.DOCX");
    assert_eq!(e.relative_path, "docs/Report.DOCX");
    assert_eq!(e.file_type, "DOCX");
    assert_eq!(e.file_size_bytes, 2048);
    assert_eq!(e.file_size_human, "2.00 KB");
    assert_eq!(e.last_modified, "2024-01-02 03:04:05");
    assert_eq!(e.created_time, "2024-01-02 03:04:05");
    assert_eq!(e.status, ProcessingStatus::Pending);
}

#[test]
fn catalogue_entry_falls_back_where_nothing_is_known() {
    let e = FileScanner::catalogue_entry("/stage", "/other/README", 0, None, None);
    assert_eq!(e.original_relative_path, "/other/README");
    assert_eq!(e.file_type, "unknown");
    assert_eq!(e.last_modified, "unknown");
    assert_eq!(e.created_time, "unknown");
    assert_eq!(e.file_size_human, "0 B");
    let c = FileScanner::catalogue_entry("/stage", "/stage/a.txt", 1, None, Some("C".to_string()));
    assert_eq!(c.last_modified, "unknown");
    assert_eq!(c.created_time, "C");
}

#[test]
fn scan_catalogues_regular_files_in_walk_order() {
    let walk = vec![
        ScannedFile {
            path: "/stage".to_string(),
            canonical: "/stage".to_string(),
            is_file: false,
            metadata: None,
        },
        file("/stage/b.txt", 10, Some(1_700_000_000), Some(1_600_000_000)),
        file("/stage/.DS_Store", 1, Some(1), Some(1)),
        ScannedFile {
            path: "/stage/unreadable.txt".to_string(),
            canonical: "/stage/unreadable.txt".to_string(),
            is_file: true,
            metadata: None,
        },
        file("/stage/sub/a.docx", 1536, Some(1_700_000_000), None),
        file("/stage/sub/~$a.docx", 5, None, None),
        file("/stage/z", 0, None, None),
    ];
    let entries = FileScanner::scan("/stage", &walk, &Vec::new());
    let names: Vec<&str> = entries.iter().map(|e| e.original_relative_path.as_str()).collect();
    assert_eq!(names, vec!["b.txt", "sub/a.docx", "z"]);
    assert_eq!(entries[0].file_type, "txt");
    assert!(looks_like_a_time(&entries[0].last_modified), "{}", entries[0].last_modified);
    assert!(looks_like_a_time(&entries[0].created_time));
    assert_ne!(entries[0].last_modified, entries[0].created_time);
    assert_eq!(entries[1].file_size_human, "1.50 KB");
    assert_eq!(entries[1].created_time, entries[1].last_modified);
    assert_eq!(entries[2].file_type, "unknown");
    assert_eq!(entries[2].last_modified, "unknown");
    assert_eq!(entries[2].created_time, "unknown");
    assert!(entries.iter().all(|e| e.status == ProcessingStatus::Pending));
}

#[test]
fn consumed_archives_are_left_out_of_the_catalogue() {
    let walk = vec![
        file("/stage/a.txt", 1, None, None),
        ScannedFile {
            path: "/stage/link/nested.zip".to_string(),
            canonical: "/stage/nested.zip".to_string(),
            is_file: true,
            metadata: Some(FileMetadata { size: 9, modified: None, created: None }),
        },
        file("/stage/broken.zip", 2, None, None),
        file("/stage/nested.zip", 9, None, None),
    ];
    let consumed = vec!["/stage/nested.zip".to_string()];
    let entries = FileScanner::scan("/stage", &walk, &consumed);
    let names: Vec<&str> = entries.iter().map(|e| e.original_relative_path.as_str()).collect();
    assert_eq!(names, vec!["a.txt", "broken.zip"]);
}

#[test]
fn scan_of_nothing_is_empty() {
    assert!(FileScanner::scan("/stage", &Vec::new(), &Vec::new()).is_empty());
}

#[test]
fn report_has_fixed_headings_and_one_row_per_record() {
    let mut a = ReportModel::new(
        "report.docx".to_string(),
        "docs/report.docx".to_string(),
        "docx".to_string(),
        1536,
        "M".to_string(),
        "C".to_string(),
    );
    a.file_name = "report__converted.pdf".to_string();
    a.converted_file_name = Some("report__converted.pdf".to_string());
    a.sha512 = Some("abc".to_string());
    a.status = ProcessingStatus::Converted;
    let mut b = ReportModel::new(
        "image.png".to_string(),
        "image.png".to_string(),
        "png".to_string(),
        7,
        "M2".to_string(),
        "C2".to_string(),
    );
    b.status = ProcessingStatus::Skipped;
    b.skip_reason = Some("not consumable and not convertible".to_string());

    let table = ReportWriter::new().generate_report(&vec![a, b]);
    assert_eq!(
        table.headers,
        vec![
            "File Name",
            "Converted File Name",
            "SHA512",
            "Processed",
            "Skip Reason",
            "Relative Path",
            "File Type",
            "File Size (Bytes)",
            "File Size (Human)",
            "Last Modified",
            "Created Time",
        ]
    );
    assert_eq!(table.column_widths, vec![30, 30, 64, 15, 15, 40, 15, 15, 15, 15, 15]);
    assert_eq!(table.rows.len(), 2);
    let show = |row: &Vec<ReportCell>| -> Vec<String> {
        row.iter()
            .map(|c| match c {
                ReportCell::Text(t) => format!("t:{}", t),
                ReportCell::Number(n) => format!("n:{}", n),
            })
            .collect()
    };
    assert_eq!(
        show(&table.rows[0]),
        vec![
            "t:report.docx",
            "t:report__converted.pdf",
            "t:abc",
            "t:Yes",
            "t:",
            "t:docs/report.docx",
            "t:docx",
            "n:1536",
            "t:1.50 KB",
            "t:M",
            "t:C",
        ]
    );
    assert_eq!(
        show(&table.rows[1]),
        vec![
            "t:image.png",
            "t:",
            "t:",
            "t:No",
            "t:not consumable and not convertible",
            "t:image.png",
            "t:png",
            "n:7",
            "t:7 B",
            "t:M2",
            "t:C2",
        ]
    );
    assert!(ReportWriter::new().generate_report(&Vec::new()).rows.is_empty());
}

#[test]
fn logger_keeps_entries_in_order() {
    let mut logger = EPTLogger::new();
    assert!(logger.get_logs().is_empty());
    let first = logger.info("started");
    assert_eq!(first.level, "INFO");
    assert_eq!(first.message, "started");
    assert!(first.timestamp.ends_with(" UTC"), "{}", first.timestamp);
    assert_eq!(first.timestamp.len(), 27);
    logger.warning("careful");
    logger.error("broken");
    let at = logger.log_at("INFO", "fixed", "2024-01-02 03:04:05.678 UTC");
    assert_eq!(at.timestamp, "2024-01-02 03:04:05.678 UTC");
    let logs = logger.get_logs();
    let shown: Vec<(&str, &str)> =
        logs.iter().map(|e| (e.level.as_str(), e.message.as_str())).collect();
    assert_eq!(
        shown,
        vec![("INFO", "started"), ("WARNING", "careful"), ("ERROR", "broken"), ("INFO", "fixed")]
    );
    assert_eq!(logs[3].timestamp, "2024-01-02 03:04:05.678 UTC");
}

#[test]
fn blank_input_is_refused_before_a_run() {
    assert_eq!(start_file_conversion("", true).unwrap_err(), "Input path must not be empty.");
    assert_eq!(start_file_conversion("  \t\n", true).unwrap_err(), "Input path must not be empty.");
    assert_eq!(start_file_conversion("\u{3000}\u{a0}", false).unwrap_err(), "Input path must not be empty.");
    assert_eq!(
        start_file_conversion("/no/such", false).unwrap_err(),
        "Path does not exist: /no/such"
    );
    assert!(start_file_conversion(" /in/box ", true).is_ok());
}

#[test]
fn blank_agrees_with_trimming() {
    let samples = [
        "", " ", "\t", "\n", "\r", "\u{b}", "\u{c}", "\u{85}", "\u{a0}", "\u{1680}", "\u{2000}",
        "\u{200a}", "\u{200b}", "\u{2028}", "\u{2029}", "\u{202f}", "\u{205f}", "\u{3000}",
        "\u{feff}", "a", " a ", "\u{1f}", "\u{8}", "\u{e}", "\u{2001}\u{2005}",
    ];
    for s in samples {
        assert_eq!(blank(s), s.trim().is_empty(), "{:?}", s);
    }
}

#[test]
fn a_completed_run_is_handed_back_with_its_paths() {
    let result = ProcessingResult {
        entries: Vec::new(),
        staging_path: "/in/box__T".to_string(),
        llm_output_path: "/in/box__T_LLM".to_string(),
        report_path: "/in/box__T_LLM/box__T_LLM_file-report.xlsx".to_string(),
    };
    let handed = completed(&result);
    assert_eq!(handed.status, "completed");
    assert_eq!(handed.staging_path, Some("/in/box__T".to_string()));
    assert_eq!(handed.llm_output_path, Some("/in/box__T_LLM".to_string()));
    assert_eq!(handed.report_path, Some("/in/box__T_LLM/box__T_LLM_file-report.xlsx".to_string()));
}

#[test]
fn a_failed_run_reports_its_causes_as_one_chain() {
    let causes = vec![
        "Failed to prepare workspace".to_string(),
        "Failed to expand zip file: /in/a.zip".to_string(),
        "Failed to read ZIP archive".to_string(),
    ];
    assert_eq!(
        processing_failed(&causes),
        "Processing failed: Failed to prepare workspace -> Failed to expand zip file: /in/a.zip -> Failed to read ZIP archive"
    );
    assert_eq!(processing_failed(&vec!["only".to_string()]), "Processing failed: only");
    assert_eq!(processing_failed(&Vec::new()), "Processing failed: ");
}

#[test]
fn a_path_is_validated_before_it_is_opened() {
    let ok = validate_path_for_opening("out", true, &Ok("/home/u/out".to_string()));
    assert_eq!(ok.unwrap(), "/home/u/out");
    let missing = validate_path_for_opening("out", false, &Ok("/home/u/out".to_string()));
    assert_eq!(missing.unwrap_err(), "Path does not exist: out");
    let unresolved = validate_path_for_opening("out", true, &Err("too many links".to_string()));
    assert_eq!(unresolved.unwrap_err(), "Failed to resolve path: too many links");
    for bad in ["/home/u/a\nb", "/home/u/a\rb", "/home/u/a\0b"] {
        let r = validate_path_for_opening("x", true, &Ok(bad.to_string()));
        assert_eq!(r.unwrap_err(), "Path contains invalid characters");
        assert!(holds_forbidden_character(bad));
    }
    assert!(!holds_forbidden_character("/home/u/a b\tc"));
}

#[test]
fn a_moment_that_cannot_be_represented_is_shown_as_unknown() {
    let far = ScannedFile {
        path: "/stage/far.txt".to_string(),
        canonical: "/stage/far.txt".to_string(),
        is_file: true,
        metadata: Some(FileMetadata {
            size: 1,
            modified: Some(Timestamp { seconds: i64::MAX, nanoseconds: 0 }),
            created: Some(Timestamp { seconds: 1_700_000_000, nanoseconds: 0 }),
        }),
    };
    let odd = ScannedFile {
        path: "/stage/odd.txt".to_string(),
        canonical: "/stage/odd.txt".to_string(),
        is_file: true,
        metadata: Some(FileMetadata {
            size: 1,
            modified: Some(Timestamp { seconds: 0, nanoseconds: 0 }),
            created: Some(Timestamp { seconds: 0, nanoseconds: 2_000_000_000 }),
        }),
    };
    let entries = FileScanner::scan("/stage", &vec![far, odd], &Vec::new());
    assert_eq!(entries.len(), 2);
    assert_eq!(entries[0].last_modified, "unknown");
    assert!(looks_like_a_time(&entries[0].created_time), "{}", entries[0].created_time);
    assert!(looks_like_a_time(&entries[1].last_modified), "{}", entries[1].last_modified);
    assert_eq!(entries[1].created_time, entries[1].last_modified);
}
