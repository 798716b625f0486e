use file_conversion::conversion_engine::{ConversionEngine, ConversionPlan};
use file_conversion::decompression_engine::{
    ArchiveKind, DecompressionEngine, ExtractAction, WalkedEntry, ZipReader,
};
use file_conversion::file_scanner::{FileMetadata, FileScanner, ScannedFile};
use file_conversion::hashing_service::HashingService;
use file_conversion::llm_export_engine::{ExportDecision, LLMExportEngine, SourceFacts};
use file_conversion::path_resolver::{candidate_path, PathProbe};
use file_conversion::process_controller::{
    ConversionOutcome, FileObservation, FoundFile, InputKind, PipelineStage, ProcessController,
    WorkspacePlan,
};
use file_conversion::report_model::ProcessingStatus;
use std::collections::BTreeMap;
use std::io::Write;

struct Disk {
    files: BTreeMap<String, Vec<u8>>,
}

impl Disk {
    fn probe(&self, root: &str, relative: &str) -> PathProbe {
        let candidate = candidate_path(root, relative);
        let clean = candidate.replace("//", "/");
        if self.files.contains_key(&clean) {
            PathProbe::Canonical(clean)
        } else {
            PathProbe::Missing(vec![root.to_string()])
        }
    }

    fn below(&self, root: &str) -> Vec<String> {
        let prefix = format!("{}/", root);
        self.files.keys().filter(|p| p.starts_with(&prefix)).cloned().collect()
    }

    fn expand(&mut self, archive: &str, output_dir: &str) {
        let bytes = self.files.get(archive).unwrap().clone();
        let mut reader = ZipReader::open(bytes).unwrap();
        while let Some(entry) = reader.next_entry().unwrap() {
            let probe = self.probe(output_dir, &entry.name);
            if let ExtractAction::WriteFile { path, .. } =
                DecompressionEngine::plan_entry(output_dir, &entry.name, &probe)
            {
                self.files.insert(path, entry.contents);
            }
        }
    }
}

fn zip_of(entries: &[(&str, &[u8])]) -> Vec<u8> {
    let mut writer = zip::ZipWriter::new(std::io::Cursor::new(Vec::new()));
    for (name, data) in entries {
        writer.start_file(name.to_string(), zip::write::SimpleFileOptions::default()).unwrap();
        writer.write_all(data).unwrap();
    }
    writer.finish().unwrap().into_inner()
}

#[test]
fn zip_with_a_nested_zip_yields_two_converted_records() {
    let nested = zip_of(&[("data.xlsx", b"cells")]);
    let outer = zip_of(&[("report.docx", b"words"), ("nested.zip", &nested)]);
    let mut disk = Disk { files: BTreeMap::new() };
    disk.files.insert("/in/input.zip".to_string(), outer);

    let mut controller = ProcessController::new();
    controller.start_processing();
    let staging = match ProcessController::workspace_plan("/in/input.zip", InputKind::File, "T").unwrap() {
        WorkspacePlan::ExpandZip { archive, staging_path } => {
            disk.expand(&archive, &staging_path);
            staging_path
        }
        other => panic!("{:?}", other),
    };
    assert_eq!(staging, "/in/input__T");
    assert_eq!(controller.advance(true), PipelineStage::Decompressing);

    let mut engine = DecompressionEngine::new();
    let walk: Vec<WalkedEntry> = disk
        .below(&staging)
        .into_iter()
        .map(|p| WalkedEntry { path: p.clone(), is_file: true, canonical: p })
        .collect();
    let mut tasks = engine.recursive_decompress(&walk);
    while let Some(task) = tasks.pop() {
        assert_eq!(task.kind, ArchiveKind::Zip);
        let out = DecompressionEngine::expansion_folder(&task.path, "T").unwrap();
        disk.expand(&task.path, &out);
        assert!(engine.mark_expanded(&task.canonical));
        let inner: Vec<WalkedEntry> = disk
            .below(&out)
            .into_iter()
            .map(|p| WalkedEntry { path: p.clone(), is_file: true, canonical: p })
            .collect();
        tasks.extend(engine.decompress_walk(&inner));
    }
    assert_eq!(controller.advance(true), PipelineStage::Cataloging);

    let scanned: Vec<ScannedFile> = disk
        .below(&staging)
        .into_iter()
        .map(|p| ScannedFile {
            canonical: p.clone(),
            metadata: Some(FileMetadata {
                size: disk.files[&p].len() as u64,
                modified: None,
                created: None,
            }),
            path: p,
            is_file: true,
        })
        .collect();
    assert_eq!(scanned.len(), 3);
    controller.scan_files(FileScanner::scan(&staging, &scanned, &engine.consumed_archives()));
    assert_eq!(controller.entry_count(), 2);
    let names: Vec<String> =
        (0..2).map(|i| controller.entry(i).unwrap().original_relative_path).collect();
    assert_eq!(names, vec!["nested__T/data.xlsx", "report.docx"]);
    assert_eq!(controller.advance(true), PipelineStage::Processing);

    let converter = ConversionEngine::new();
    let hasher = HashingService::new();
    let mut observations = Vec::new();
    for i in 0..controller.entry_count() {
        let entry = controller.entry(i).unwrap();
        let probe = disk.probe(&staging, &entry.original_relative_path);
        let path = match &probe {
            PathProbe::Canonical(p) => p.clone(),
            other => panic!("{:?}", matches!(other, PathProbe::Missing(_))),
        };
        let hash = hasher.hash_file_sha512(&disk.files[&path]);
        assert!(converter.is_convertible_file(&path));
        let artifact_path = match converter.convert_file(&path).unwrap() {
            ConversionPlan::Workbook { output_path } => output_path,
            ConversionPlan::Document { output_path, .. } => output_path,
            other => panic!("{:?}", other),
        };
        let artifact = format!("converted from {}", path).into_bytes();
        let artifact_hash = Some(hasher.hash_file_sha512(&artifact));
        disk.files.insert(artifact_path.clone(), artifact);
        observations.push(FileObservation {
            probe,
            found: Some(FoundFile {
                hash: Ok(hash),
                conversion: Some(ConversionOutcome::Produced { artifact_path, artifact_hash }),
            }),
        });
    }
    controller.process_file_entries(&staging, &observations);
    assert_eq!(controller.advance(true), PipelineStage::Exporting);

    let first = controller.entry(0).unwrap();
    let second = controller.entry(1).unwrap();
    assert_eq!(first.status, ProcessingStatus::Converted);
    assert_eq!(first.file_name, "data__converted.md");
    assert_eq!(first.relative_path, "nested__T/data__converted.md");
    assert_eq!(first.original_file_name, "data.xlsx");
    assert_eq!(second.status, ProcessingStatus::Converted);
    assert_eq!(second.file_name, "report__converted.pdf");
    assert_eq!(second.original_file_name, "report.docx");

    let layout = ProcessController::output_layout(&staging).unwrap();
    assert_eq!(layout.llm_output_path, "/in/input__T_LLM");
    let mut exporter = LLMExportEngine::new(Vec::new());
    let mut exported = Vec::new();
    for i in 0..controller.entry_count() {
        let entry = controller.entry(i).unwrap();
        let probe = disk.probe(&staging, &entry.relative_path);
        let facts = SourceFacts { probe, exists: true, fresh_hash: None };
        let decision = exporter.decide(&entry, &staging, &layout.llm_output_path, &facts);
        if let ExportDecision::Copy { destination, .. } = &decision {
            exported.push(destination.clone());
        }
        exporter.commit(&decision, true);
    }
    assert_eq!(
        exported,
        vec!["/in/input__T_LLM/data__converted.md", "/in/input__T_LLM/report__converted.pdf"]
    );
    assert_eq!(exporter.copied_count(), 2);
    assert_eq!(exporter.skipped_count(), 0);
    assert_eq!(controller.advance(true), PipelineStage::ReportGenerated);
    assert_eq!(controller.advance(true), PipelineStage::Done);
    let result = controller.finalize_output(&staging).unwrap();
    assert_eq!(result.entries.len(), 2);
    assert!(result.entries.iter().all(|e| e.original_file_name != "nested.zip"));
}
