use std::io::Cursor;
use std::io::Write;

use ctb_core::archive::check_entry;
use ctb_core::archive::detect_archive_kind;
use ctb_core::archive::sanitize_rel_path;
use ctb_core::archive::ArchiveKind;
use ctb_core::archive::EntryKind;
use ctb_core::archive::ExtractLimits;
use ctb_core::errors::Error;
use ctb_core::extraction::safe_extract_zip_bytes;

fn zip_with(entries: &[(&str, &[u8])]) -> Vec<u8> {
    let mut zw = zip::ZipWriter::new(Cursor::new(Vec::new()));
    for (name, data) in entries {
        zw.start_file(*name, zip::write::SimpleFileOptions::default()).unwrap();
        zw.write_all(data).unwrap();
    }
    zw.finish().unwrap().into_inner()
}

#[test]
fn detects_archive_kinds_case_insensitively() {
    assert_eq!(detect_archive_kind("a.ZIP"), Some(ArchiveKind::Zip));
    assert_eq!(detect_archive_kind("a.tar"), Some(ArchiveKind::Tar));
    assert_eq!(detect_archive_kind("a.tar.gz"), Some(ArchiveKind::TarGz));
    assert_eq!(detect_archive_kind("a.tgz"), Some(ArchiveKind::TarGz));
    assert_eq!(detect_archive_kind("a.rar"), None);
}

#[test]
fn sanitize_rejects_traversal_and_absolutes() {
    assert!(matches!(sanitize_rel_path("../evil.txt"), Err(Error::Security(_))));
    assert!(matches!(sanitize_rel_path("/abs/path"), Err(Error::Security(_))));
    assert!(matches!(sanitize_rel_path("a/../b"), Err(Error::Security(_))));
    assert!(matches!(sanitize_rel_path("././."), Err(Error::Security(_))));
    assert_eq!(sanitize_rel_path("a/./b//c").unwrap(), "a/b/c");
}

#[test]
fn zip_blocks_path_traversal() {
    let bytes = zip_with(&[("../evil.txt", b"x")]);
    let err = safe_extract_zip_bytes(bytes, &ExtractLimits::new_default()).err().unwrap();
    assert!(matches!(err, Error::Security(_)));
}

#[test]
fn enforces_per_file_size_limit() {
    let bytes = zip_with(&[("big.txt", b"hello")]);
    let limits = ExtractLimits { max_files: 10, max_total_bytes: 100, max_file_bytes: 4 };
    let err = safe_extract_zip_bytes(bytes, &limits).err().unwrap();
    assert!(matches!(err, Error::Security(_)));
}

#[test]
fn enforces_total_size_limit() {
    let bytes = zip_with(&[("a.txt", b"hello"), ("b.txt", b"world")]);
    let limits = ExtractLimits { max_files: 10, max_total_bytes: 9, max_file_bytes: 10 };
    let err = safe_extract_zip_bytes(bytes, &limits).err().unwrap();
    assert!(matches!(err, Error::Security(_)));
}

#[test]
fn extracts_clean_entries_with_contents() {
    let bytes = zip_with(&[("dir/file.txt", b"hello")]);
    let out = safe_extract_zip_bytes(bytes, &ExtractLimits::new_default()).unwrap();
    assert_eq!(out.report.total_bytes, 5);
    assert_eq!(out.report.extracted_files, vec!["dir/file.txt"]);
    let files: Vec<_> = out.entries.iter().filter(|e| !e.is_dir).collect();
    assert_eq!(files.len(), 1);
    assert_eq!(files[0].rel, "dir/file.txt");
    assert_eq!(files[0].data, b"hello");
}

#[test]
fn entry_checker_rejects_links_and_counts_limits() {
    let limits = ExtractLimits { max_files: 1, max_total_bytes: 100, max_file_bytes: 50 };
    assert!(check_entry("x", EntryKind::Other, 0, 0, 0, &limits).is_err());
    assert!(check_entry("x", EntryKind::File, 10, 0, 0, &limits).is_ok());
    // A second file breaches the file-count ceiling.
    assert!(check_entry("y", EntryKind::File, 10, 1, 10, &limits).is_err());
    // Directories do not count toward the file ceiling.
    assert!(check_entry("d", EntryKind::Dir, 0, 1, 10, &limits).is_ok());
}
