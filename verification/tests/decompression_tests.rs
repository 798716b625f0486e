use file_conversion::decompression_engine::{
    archive_kind, stamped_name, ArchiveAction, ArchiveKind, DecompressionEngine, ExtractAction,
    WalkedEntry, ZipReader,
};
use file_conversion::errors::ErrorKind;
use file_conversion::path_resolver::PathProbe;
use file_conversion::paths::{base_name, is_within, own_name, path_has_parent};
use std::io::Write;

fn zip_of(entries: &[(&str, &[u8])]) -> Vec<u8> {
    let mut writer = zip::ZipWriter::new(std::io::Cursor::new(Vec::new()));
    for (name, data) in entries {
        let options = zip::write::SimpleFileOptions::default();
        if name.ends_with('/') {
            writer.add_directory(name.to_string(), options).unwrap();
        } else {
            writer.start_file(name.to_string(), options).unwrap();
            writer.write_all(data).unwrap();
        }
    }
    writer.finish().unwrap().into_inner()
}

fn gzip_of(data: &[u8]) -> Vec<u8> {
    let mut encoder = flate2::write::GzEncoder::new(Vec::new(), flate2::Compression::default());
    encoder.write_all(data).unwrap();
    encoder.finish().unwrap()
}

fn walked(path: &str, is_file: bool) -> WalkedEntry {
    WalkedEntry { path: path.to_string(), is_file, canonical: path.to_string() }
}

#[test]
fn archive_kind_goes_by_extension_whatever_its_case() {
    assert_eq!(archive_kind("/a/data.zip"), Some(ArchiveKind::Zip));
    assert_eq!(archive_kind("DATA.ZIP"), Some(ArchiveKind::Zip));
    assert_eq!(archive_kind("logs.tar.gz"), Some(ArchiveKind::Gzip));
    assert_eq!(archive_kind("logs.Gz"), Some(ArchiveKind::Gzip));
    assert_eq!(archive_kind("report.docx"), None);
    assert_eq!(archive_kind("zip"), None);
    assert_eq!(archive_kind(".zip"), None);
    assert!(DecompressionEngine::is_compressed_file("x.zip"));
    assert!(!DecompressionEngine::is_compressed_file("x.7z"));
}

#[test]
fn expansion_folder_is_a_stamped_sibling() {
    let folder = DecompressionEngine::expansion_folder("/in/bundle.zip", "20240102_030405").unwrap();
    assert_eq!(folder, "/in/bundle__20240102_030405");
    let relative = DecompressionEngine::expansion_folder("bundle.v2.zip", "S").unwrap();
    assert_eq!(relative, "bundle.v2__S");
    let dots = DecompressionEngine::expansion_folder("/in/..", "S").unwrap();
    assert_eq!(dots, "/in/extracted__S");
}

#[test]
fn expansion_folder_needs_a_parent() {
    let err = DecompressionEngine::expansion_folder("/", "S").unwrap_err();
    assert_eq!(err.kind, ErrorKind::IOFailure);
    assert!(DecompressionEngine::expansion_folder("", "S").is_err());
}

#[test]
fn expand_zip_to_folder_stamps_with_the_present_moment() {
    let engine = DecompressionEngine::new();
    let folder = engine.expand_zip_to_folder("/in/bundle.zip").unwrap();
    assert!(folder.starts_with("/in/bundle__"), "{}", folder);
    let stamp = &folder["/in/bundle__".len()..];
    assert_eq!(stamp.len(), 15, "{}", stamp);
    assert_eq!(stamp.as_bytes()[8], b'_');
    assert!(stamp.chars().enumerate().all(|(i, c)| i == 8 || c.is_ascii_digit()));
    assert!(engine.expand_zip_to_folder("/").is_err());
}

#[test]
fn base_and_stamped_names() {
    assert_eq!(base_name("/a/b/report.final.docx", "x"), "report.final");
    assert_eq!(base_name("/a/b/", "fallback"), "fallback");
    assert_eq!(base_name("/a/..", "fallback"), "fallback");
    assert_eq!(own_name("/a/my.folder", "x"), "my.folder");
    assert_eq!(own_name("/a/", "x"), "x");
    assert_eq!(stamped_name("data", "20240101_000000"), "data__20240101_000000");
    assert!(path_has_parent("/a"));
    assert!(path_has_parent("a"));
    assert!(!path_has_parent("/"));
    assert!(!path_has_parent("///"));
    assert!(!path_has_parent(""));
}

#[test]
fn zip_reader_yields_entries_in_directory_order() {
    let bytes = zip_of(&[("docs/", b""), ("docs/report.docx", b"report"), ("notes.txt", b"hello")]);
    let mut reader = ZipReader::open(bytes).unwrap();
    assert_eq!(reader.len(), 3);
    let first = reader.next_entry().unwrap().unwrap();
    assert_eq!(first.name, "docs/");
    assert_eq!(first.contents, b"");
    let second = reader.next_entry().unwrap().unwrap();
    assert_eq!(second.name, "docs/report.docx");
    assert_eq!(second.contents, b"report");
    let third = reader.next_entry().unwrap().unwrap();
    assert_eq!(third.name, "notes.txt");
    assert_eq!(third.contents, b"hello");
    assert!(reader.next_entry().unwrap().is_none());
    assert!(reader.next_entry().unwrap().is_none());
}

#[test]
fn zip_reader_keeps_hostile_names_as_stored() {
    let bytes = zip_of(&[("../../etc/passwd", b"root"), ("/abs/file", b"x")]);
    let mut reader = ZipReader::open(bytes).unwrap();
    assert_eq!(reader.next_entry().unwrap().unwrap().name, "../../etc/passwd");
    assert_eq!(reader.next_entry().unwrap().unwrap().name, "/abs/file");
}

#[test]
fn bytes_that_are_no_archive_are_a_format_error() {
    let err = ZipReader::open(b"this is not a zip archive".to_vec()).err().unwrap();
    assert_eq!(err.kind, ErrorKind::ArchiveFormatError);
    assert!(!err.is_fatal_for_stage() || err.kind == ErrorKind::ArchiveFormatError);
    assert!(ZipReader::open(Vec::new()).is_err());
}

#[test]
fn empty_archive_has_no_entries() {
    let mut reader = ZipReader::open(zip_of(&[])).unwrap();
    assert_eq!(reader.len(), 0);
    assert!(reader.next_entry().unwrap().is_none());
}

#[test]
fn gunzip_decodes_what_gzip_encoded() {
    let data = b"line one\nline two\n".repeat(100);
    let decoded = DecompressionEngine::gunzip(&gzip_of(&data)).unwrap();
    assert_eq!(decoded, data);
    assert_eq!(DecompressionEngine::gunzip(&gzip_of(b"")).unwrap(), b"");
}

#[test]
fn gunzip_rejects_what_is_not_gzip() {
    let err = DecompressionEngine::gunzip(b"plain text, not gzip").unwrap_err();
    assert_eq!(err.kind, ErrorKind::ArchiveFormatError);
    let mut truncated = gzip_of(&b"some longer content to compress".repeat(50));
    truncated.truncate(truncated.len() / 2);
    assert!(DecompressionEngine::gunzip(&truncated).is_err());
}

#[test]
fn decompress_gz_names_a_stamped_sibling_without_extension() {
    let engine = DecompressionEngine::new();
    let out = engine.decompress_gz("/logs/server.log.gz", &gzip_of(b"entries")).unwrap();
    assert_eq!(out.contents, b"entries");
    assert!(out.output_path.starts_with("/logs/server.log__"), "{}", out.output_path);
    assert_eq!(archive_kind(&out.output_path), None);
    assert_eq!(
        DecompressionEngine::gzip_target("/logs/server.log.gz", "T").unwrap(),
        "/logs/server.log__T"
    );
    let err = engine.decompress_gz("/logs/bad.gz", b"nope").unwrap_err();
    assert_eq!(err.kind, ErrorKind::ArchiveFormatError);
}

#[test]
fn entries_that_would_escape_are_written_inside() {
    let out = "/stage/bundle__T";
    for name in ["../../etc/passwd", "..\\..\\evil.txt", "/etc/shadow", "a/../../b.txt"] {
        let action = DecompressionEngine::plan_entry(out, name, &PathProbe::Missing(vec![]));
        match action {
            ExtractAction::WriteFile { path, parent } => {
                assert!(is_within(&path, out), "{} -> {}", name, path);
                assert!(is_within(&parent, out), "{} -> {}", name, parent);
            }
            other => panic!("{} -> {:?}", name, other),
        }
    }
    let action =
        DecompressionEngine::plan_entry(out, "../../etc/passwd", &PathProbe::Missing(vec![]));
    match action {
        ExtractAction::WriteFile { path, parent } => {
            assert_eq!(path, "/stage/bundle__T/etc/passwd");
            assert_eq!(parent, "/stage/bundle__T/etc");
        }
        other => panic!("{:?}", other),
    }
}

#[test]
fn entries_that_resolve_outside_are_skipped() {
    let out = "/stage/bundle__T";
    let probe = PathProbe::Canonical("/stage".to_string());
    assert!(matches!(DecompressionEngine::plan_entry(out, "..", &probe), ExtractAction::Skip));
    let link = PathProbe::Canonical("/etc/passwd".to_string());
    assert!(matches!(DecompressionEngine::plan_entry(out, "link", &link), ExtractAction::Skip));
    let dots = PathProbe::Missing(vec![]);
    assert!(matches!(DecompressionEngine::plan_entry(out, "a/..", &dots), ExtractAction::Skip));
}

#[test]
fn directory_entries_create_directories() {
    let out = "/stage/bundle__T";
    let action = DecompressionEngine::plan_entry(out, "docs/sub/", &PathProbe::Missing(vec![]));
    match action {
        ExtractAction::CreateDirectory { path } => assert_eq!(path, "/stage/bundle__T/docs/sub/"),
        other => panic!("{:?}", other),
    }
    let existing = PathProbe::Canonical("/stage/bundle__T/docs".to_string());
    match DecompressionEngine::plan_entry(out, "docs/", &existing) {
        ExtractAction::CreateDirectory { path } => assert_eq!(path, "/stage/bundle__T/docs"),
        other => panic!("{:?}", other),
    }
}

#[test]
fn an_archive_is_expanded_once_per_canonical_path() {
    let mut engine = DecompressionEngine::new();
    assert_eq!(engine.visit("/s/a.zip", true, "/s/a.zip"), ArchiveAction::ExpandZip);
    assert_eq!(engine.visit("/s/a.zip", true, "/s/a.zip"), ArchiveAction::AlreadyVisited);
    assert_eq!(engine.visit("/s/link-to-a.zip", true, "/s/a.zip"), ArchiveAction::AlreadyVisited);
    assert_eq!(engine.visit("/s/b.gz", true, "/s/b.gz"), ArchiveAction::DecompressGzip);
    assert_eq!(engine.visit("/s/b.gz", true, "/s/b.gz"), ArchiveAction::AlreadyVisited);
    assert_eq!(engine.visit("/s/c.txt", true, "/s/c.txt"), ArchiveAction::NotAnArchive);
    assert_eq!(engine.visit("/s/dir.zip", false, "/s/dir.zip"), ArchiveAction::NotAnArchive);
    assert_eq!(engine.visit("/s/dir.zip", true, "/s/dir.zip"), ArchiveAction::ExpandZip);
}

#[test]
fn a_walk_yields_each_archive_once_in_walk_order() {
    let mut engine = DecompressionEngine::new();
    let walk = vec![
        walked("/s", false),
        walked("/s/a.zip", true),
        walked("/s/notes.txt", true),
        WalkedEntry { path: "/s/copy.zip".to_string(), is_file: true, canonical: "/s/a.zip".to_string() },
        walked("/s/logs.gz", true),
        walked("/s/a.zip", true),
    ];
    let tasks = engine.decompress_walk(&walk);
    assert_eq!(tasks.len(), 2);
    assert_eq!(tasks[0].path, "/s/a.zip");
    assert_eq!(tasks[0].kind, ArchiveKind::Zip);
    assert_eq!(tasks[1].path, "/s/logs.gz");
    assert_eq!(tasks[1].kind, ArchiveKind::Gzip);
    let again = engine.decompress_walk(&walk);
    assert!(again.is_empty());
}

#[test]
fn self_referential_archives_are_not_expanded_again() {
    let mut engine = DecompressionEngine::new();
    let top = vec![walked("/s/loop.zip", true)];
    let first = engine.recursive_decompress(&top);
    assert_eq!(first.len(), 1);
    let inside = vec![
        WalkedEntry {
            path: "/s/loop__T/loop.zip".to_string(),
            is_file: true,
            canonical: "/s/loop.zip".to_string(),
        },
        walked("/s/loop__T/other.zip", true),
    ];
    let second = engine.decompress_walk(&inside);
    assert_eq!(second.len(), 1);
    assert_eq!(second[0].path, "/s/loop__T/other.zip");
    let back = vec![
        WalkedEntry {
            path: "/s/loop__T/other__T/loop.zip".to_string(),
            is_file: true,
            canonical: "/s/loop.zip".to_string(),
        },
        WalkedEntry {
            path: "/s/loop__T/other__T/other.zip".to_string(),
            is_file: true,
            canonical: "/s/loop__T/other.zip".to_string(),
        },
    ];
    assert!(engine.decompress_walk(&back).is_empty());
}

#[test]
fn a_new_run_forgets_what_an_earlier_run_visited() {
    let mut engine = DecompressionEngine::new();
    let walk = vec![walked("/s/a.zip", true)];
    assert_eq!(engine.recursive_decompress(&walk).len(), 1);
    assert_eq!(engine.decompress_walk(&walk).len(), 0);
    assert_eq!(engine.recursive_decompress(&walk).len(), 1);
}

#[test]
fn only_visited_archives_are_consumed_and_each_once() {
    let mut engine = DecompressionEngine::new();
    assert!(!engine.mark_expanded("/s/a.zip"));
    assert!(engine.consumed_archives().is_empty());
    engine.visit("/s/a.zip", true, "/s/a.zip");
    engine.visit("/s/b.zip", true, "/s/b.zip");
    assert!(!engine.was_consumed("/s/a.zip"));
    assert!(engine.mark_expanded("/s/a.zip"));
    assert!(engine.mark_expanded("/s/a.zip"));
    assert!(engine.was_consumed("/s/a.zip"));
    assert!(!engine.was_consumed("/s/b.zip"));
    assert_eq!(engine.consumed_archives(), vec!["/s/a.zip".to_string()]);
    engine.recursive_decompress(&Vec::new());
    assert!(engine.consumed_archives().is_empty());
}

#[test]
fn nested_archive_is_consumed_by_expansion() {
    let nested = zip_of(&[("data.xlsx", b"cells")]);
    let outer = zip_of(&[("report.docx", b"words"), ("nested.zip", &nested)]);
    let mut engine = DecompressionEngine::new();
    let mut files: Vec<(String, Vec<u8>)> = Vec::new();
    let mut pending: Vec<(String, Vec<u8>)> = vec![("/in/input.zip".to_string(), outer)];
    let mut expanded = Vec::new();
    while let Some((path, bytes)) = pending.pop() {
        if engine.visit(&path, true, &path) != ArchiveAction::ExpandZip {
            continue;
        }
        expanded.push(path.clone());
        let out = DecompressionEngine::expansion_folder(&path, "T").unwrap();
        let mut reader = ZipReader::open(bytes).unwrap();
        while let Some(entry) = reader.next_entry().unwrap() {
            match DecompressionEngine::plan_entry(&out, &entry.name, &PathProbe::Missing(vec![])) {
                ExtractAction::WriteFile { path, .. } => {
                    if archive_kind(&path).is_some() {
                        pending.push((path, entry.contents));
                    } else {
                        files.push((path, entry.contents));
                    }
                }
                _ => {}
            }
        }
    }
    assert_eq!(expanded, vec!["/in/input.zip", "/in/input__T/nested.zip"]);
    files.sort();
    assert_eq!(
        files,
        vec![
            ("/in/input__T/nested__T/data.xlsx".to_string(), b"cells".to_vec()),
            ("/in/input__T/report.docx".to_string(), b"words".to_vec()),
        ]
    );
}
