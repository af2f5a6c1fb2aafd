use ggpk_explorer::bundles::index::{BundleInfo, FileInfo, Index};
use ggpk_explorer::export::{
    file_bytes, file_kind, locate, ExportError, ExportOutcome, ExportRun, ExportStatus, FileKind,
};
use ggpk_explorer::text::decimal;
use std::collections::HashMap;

fn file(hash: u64, bundle: u32, offset: u32, size: u32) -> FileInfo {
    FileInfo {
        path_hash: hash,
        bundle_index: bundle,
        file_offset: offset,
        file_size: size,
        path: String::new(),
    }
}

fn index() -> Index {
    let mut files = HashMap::new();
    files.insert(1, file(1, 0, 0, 4));
    files.insert(2, file(2, 1, 4, 4));
    files.insert(3, file(3, 2, 0, 0));
    Index {
        bundles: vec![
            BundleInfo { name: "First".to_string(), uncompressed_size: 8 },
            BundleInfo { name: "Second".to_string(), uncompressed_size: 8 },
        ],
        files,
    }
}

#[test]
fn numbers_are_written_in_decimal() {
    assert_eq!(decimal(0), "0");
    assert_eq!(decimal(7), "7");
    assert_eq!(decimal(10), "10");
    assert_eq!(decimal(1234567890), "1234567890");
    assert_eq!(decimal(u64::MAX), "18446744073709551615");
}

#[test]
fn a_file_is_found_with_its_bundle() {
    let index = index();
    let (f, b) = locate(&index, 2).unwrap();
    assert_eq!(f.file_offset, 4);
    assert_eq!(b.name, "Second");
    assert_eq!(locate(&index, 9).err(), Some(ExportError::HashNotFound));
    assert_eq!(locate(&index, 3).err(), Some(ExportError::BundleNotFound));
}

#[test]
fn a_file_behind_the_end_of_its_bundle_is_out_of_bounds() {
    let payload = [0u8, 1, 2, 3, 4, 5, 6, 7];
    assert_eq!(file_bytes(&file(1, 0, 4, 4), &payload), Ok(&payload[4..8]));
    assert_eq!(
        file_bytes(&file(1, 0, 4, 5), &payload),
        Err(ExportError::OutOfBounds { start: 4, end: 9, len: 8 })
    );
    assert_eq!(
        file_bytes(&file(1, 0, u32::MAX, u32::MAX), &payload),
        Err(ExportError::OutOfBounds { start: 0xFFFF_FFFF, end: 0x1_FFFF_FFFE, len: 8 })
    );
}

#[test]
fn export_errors_say_what_went_wrong() {
    assert_eq!(ExportError::HashNotFound.message(), "File hash not found in bundle index");
    assert_eq!(ExportError::BundleNotFound.message(), "Bundle info not found");
    assert_eq!(
        ExportError::OutOfBounds { start: 4, end: 9, len: 8 }.message(),
        "File range 4..9 out of bundle bounds 8"
    );
}

#[test]
fn files_are_told_apart_by_the_end_of_their_path() {
    assert_eq!(file_kind("art/a.dds.header"), FileKind::Header);
    assert_eq!(file_kind("art/a.dds"), FileKind::Texture);
    assert_eq!(file_kind("audio/a.ogg"), FileKind::Audio);
    assert_eq!(file_kind("data/mods.dat"), FileKind::Table);
    assert_eq!(file_kind("data/mods.datc64"), FileKind::Table);
    assert_eq!(file_kind("data/mods.datl"), FileKind::Table);
    assert_eq!(file_kind("data/mods.datl64"), FileKind::Table);
    assert_eq!(file_kind("data/mods.dat64"), FileKind::Other);
    assert_eq!(file_kind("metadata/tree.psg"), FileKind::Psg);
    assert_eq!(file_kind("metadata/readme.txt"), FileKind::Other);
    assert_eq!(file_kind("art/a.DDS"), FileKind::Other);
    assert_eq!(file_kind(""), FileKind::Other);
}

#[test]
fn a_run_counts_what_was_exported_and_what_was_not() {
    let mut run = ExportRun::new(4);
    assert_eq!(
        run.record(ExportOutcome::Exported("art/a.dds".to_string())),
        ExportStatus::Progress { current: 1, total: 4, filename: "art/a.dds".to_string() }
    );
    assert_eq!(
        run.record(ExportOutcome::Failed("Bundle info not found".to_string())),
        ExportStatus::Progress {
            current: 2,
            total: 4,
            filename: "Error: Export failed: Bundle info not found".to_string()
        }
    );
    assert_eq!(
        run.record(ExportOutcome::Panicked(Some("index out of range".to_string()))),
        ExportStatus::Progress {
            current: 3,
            total: 4,
            filename: "PANIC: index out of range".to_string()
        }
    );
    assert_eq!(
        run.record(ExportOutcome::Panicked(None)),
        ExportStatus::Progress {
            current: 4,
            total: 4,
            filename: "PANIC: Unknown error".to_string()
        }
    );
    assert_eq!(run.success_count, 1);
    assert_eq!(run.error_count, 3);
    assert_eq!(
        run.errors,
        vec![
            "Export failed: Bundle info not found",
            "PANIC: index out of range",
            "PANIC: Unknown error"
        ]
    );
    assert_eq!(
        run.finish(),
        ExportStatus::Complete {
            count: 1,
            errors: 3,
            message: "Exported 1 files. 3 errors occurred.".to_string()
        }
    );
}

#[test]
fn a_run_without_errors_says_so() {
    let mut run = ExportRun::new(12);
    for i in 0..12 {
        let status = run.record(ExportOutcome::Exported(format!("f{}", i)));
        assert_eq!(
            status,
            ExportStatus::Progress { current: i + 1, total: 12, filename: format!("f{}", i) }
        );
    }
    assert_eq!(
        run.finish(),
        ExportStatus::Complete {
            count: 12,
            errors: 0,
            message: "Successfully exported 12 files.".to_string()
        }
    );
    assert_eq!(
        ExportRun::new(0).finish(),
        ExportStatus::Complete {
            count: 0,
            errors: 0,
            message: "Successfully exported 0 files.".to_string()
        }
    );
}
