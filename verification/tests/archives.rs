//! Listings of archives.

use files_recovery::archive::{
    build_archive_preview_from_bytes, list_cfb_entries, list_compound_members, list_tar_entries,
    list_tar_members, list_zip_entries, list_zip_members, salvage_zip_local_headers,
};
use files_recovery::model::{ArchivePreviewEntryStatus, ArtifactKind, RssError};
use std::io::{Cursor, Write};

fn zip_bytes() -> Vec<u8> {
    let mut writer = zip::ZipWriter::new(Cursor::new(Vec::new()));
    let stored = zip::write::SimpleFileOptions::default()
        .compression_method(zip::CompressionMethod::Stored);
    writer.add_directory("docs/", stored).expect("a folder can be added");
    writer.start_file("docs/a.txt", stored).expect("a file can be added");
    writer.write_all(b"hello").expect("memory can be written");
    writer.start_file("b.txt", stored).expect("a file can be added");
    writer.write_all(b"good morning").expect("memory can be written");
    writer.finish().expect("the archive can be closed").into_inner()
}

fn tar_bytes() -> Vec<u8> {
    let mut builder = tar::Builder::new(Vec::new());
    let mut header = tar::Header::new_gnu();
    header.set_size(5);
    header.set_cksum();
    builder.append_data(&mut header, "docs/a.txt", &b"hello"[..]).expect("a file can be added");
    let mut folder = tar::Header::new_gnu();
    folder.set_entry_type(tar::EntryType::Directory);
    folder.set_size(0);
    folder.set_cksum();
    builder.append_data(&mut folder, "empty/", &b""[..]).expect("a folder can be added");
    builder.into_inner().expect("the archive can be closed")
}

fn compound_bytes() -> Vec<u8> {
    let mut file = cfb::CompoundFile::create(Cursor::new(Vec::new())).expect("memory is enough");
    file.create_storage("/data").expect("a storage can be added");
    let mut stream = file.create_stream("/data/part").expect("a stream can be added");
    stream.write_all(b"content").expect("memory can be written");
    drop(stream);
    file.flush().expect("memory can be written");
    file.into_inner().into_inner()
}

fn message(error: RssError) -> String {
    let RssError::Message(text) = error;
    text
}

#[test]
fn zip_members_come_with_names_kinds_and_sizes() {
    let listing = list_zip_entries(&zip_bytes(), 10).expect("the directory can be read");
    let paths: Vec<&str> = listing.entries.iter().map(|e| e.path.as_str()).collect();
    assert_eq!(paths, vec!["docs/", "docs/a.txt", "b.txt"]);
    assert_eq!(listing.entries[0].kind.as_deref(), Some("directory"));
    assert_eq!(listing.entries[1].kind.as_deref(), Some("file"));
    assert_eq!(listing.entries[2].size, Some(12));
    assert_eq!(listing.entries[2].compressed_size, Some(12));
    assert_eq!(listing.entries[2].status, ArchivePreviewEntryStatus::Intact);
    assert_eq!(listing.total_entries, Some(3));
    assert!(!listing.truncated);
}

#[test]
fn listings_show_no_more_members_than_asked_for() {
    let listing = list_zip_entries(&zip_bytes(), 2).expect("the directory can be read");
    assert_eq!(listing.entries.len(), 2);
    assert_eq!(listing.total_entries, Some(3));
    assert!(listing.truncated);
    assert!(list_tar_entries(&tar_bytes(), 1).expect("the headers can be read").truncated);
    assert!(list_cfb_entries(&compound_bytes(), 1).expect("the directory can be read").truncated);
}

#[test]
fn zip_without_directory_is_salvaged_from_local_headers() {
    let bytes = zip_bytes();
    let directory = bytes.windows(4).position(|w| w == b"PK\x01\x02").expect("a directory");
    let cut = &bytes[..directory];
    assert!(list_zip_entries(cut, 10).is_none());
    let salvaged = salvage_zip_local_headers(cut, 10).expect("local headers are there");
    let paths: Vec<&str> = salvaged.entries.iter().map(|e| e.path.as_str()).collect();
    assert_eq!(paths, vec!["docs/", "docs/a.txt", "b.txt"]);
    assert!(salvaged.total_entries.is_none());
    let mut warnings = Vec::new();
    let listing = build_archive_preview_from_bytes(
        "a.zip",
        ArtifactKind::Zip,
        cut.len() as u64,
        cut,
        10,
        &mut warnings,
    )
    .expect("local headers are there");
    assert_eq!(listing.entries.len(), 3);
    assert_eq!(
        warnings,
        vec!["ZIP central directory could not be parsed cleanly; using local-header salvage."
            .to_string()]
    );
}

#[test]
fn zip_without_anything_is_refused() {
    let error = salvage_zip_local_headers(b"no archive at all, whatever the name says", 10);
    assert_eq!(
        message(error.expect_err("nothing is there")),
        "No salvageable ZIP local headers were found"
    );
}

#[test]
fn zip_members_that_cannot_be_opened_break_the_listing() {
    let member = Some(("a".to_string(), false, 1, 1));
    assert!(list_zip_members(2, vec![member.clone(), None]).is_none());
    let listing = list_zip_members(2, vec![member]).expect("the member was opened");
    assert!(listing.truncated);
    assert_eq!(listing.total_entries, Some(2));
}

#[test]
fn tar_members_come_in_order() {
    let listing = list_tar_entries(&tar_bytes(), 10).expect("the headers can be read");
    assert_eq!(listing.entries[0].path, "docs/a.txt");
    assert_eq!(listing.entries[0].size, Some(5));
    assert_eq!(listing.entries[0].kind.as_deref(), Some("file"));
    assert_eq!(listing.entries[1].kind.as_deref(), Some("directory"));
    assert_eq!(listing.total_entries, Some(2));
}

#[test]
fn tar_names_that_are_no_text_are_numbered() {
    let members = vec![Some((vec![0xff, 0xfe], false, 3)), Some((Vec::new(), false, 0))];
    let listing = list_tar_members(&members, 10).expect("all headers were read");
    assert_eq!(listing.entries[0].path, "entry-1");
    assert_eq!(listing.entries[1].path, "entry-2");
    assert_eq!(
        message(list_tar_members(&vec![None], 10).expect_err("a header is broken")),
        "Failed to inspect TAR entry"
    );
}

#[test]
fn compound_members_leave_the_root_out() {
    let listing = list_cfb_entries(&compound_bytes(), 10).expect("the directory can be read");
    assert_eq!(listing.entries.len(), 2);
    assert_eq!(listing.entries[0].path, "/data");
    assert_eq!(listing.entries[0].kind.as_deref(), Some("storage"));
    assert_eq!(listing.entries[0].size, None);
    assert_eq!(listing.entries[1].path, "/data\\part");
    assert_eq!(listing.entries[1].kind.as_deref(), Some("stream"));
    assert_eq!(listing.entries[1].size, Some(7));
    assert!(list_compound_members(&Vec::new(), 10).entries.is_empty());
    assert_eq!(
        message(list_cfb_entries(b"nothing", 10).expect_err("no compound file")),
        "Compound-file directory could not be parsed"
    );
}

#[test]
fn other_families_are_summed_up_or_refused() {
    let mut warnings = Vec::new();
    let listing =
        build_archive_preview_from_bytes("a.7z", ArtifactKind::SevenZip, 9, b"", 5, &mut warnings)
            .expect("a container is summed up");
    assert_eq!(listing.entries[0].path, "a.7z");
    assert_eq!(listing.entries[0].size, Some(9));
    assert_eq!(listing.entries[0].status, ArchivePreviewEntryStatus::Unsupported);
    let error =
        build_archive_preview_from_bytes("a.txt", ArtifactKind::Txt, 9, b"", 5, &mut warnings);
    assert_eq!(
        message(error.expect_err("no archive")),
        "Archive preview is not available for txt"
    );
    assert!(warnings.is_empty());
}
