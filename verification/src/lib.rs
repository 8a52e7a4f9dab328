//! Finding and recovering deleted files.
//!
//! A scan (`scan_course`) reads the metadata of a volume (`ntfs_*`, `fat`), carves what metadata
//! no longer names (`carver`, `sizes`), and orders and filters what both gave (`scan_run`,
//! `results`). Raw evidence refines the paths (`evidence`, `evidence_run`, `i30`, `usn`). What was
//! found is browsed beside the files that are still there (`browse_*`, `catalog*`, `entries`),
//! shown (`preview*`, `archive`, `signature`), recovered (`recovery`) and reported (`report`).
//! `bridge*` holds the state behind a user interface. The `*_laws` modules prove what the
//! operations promise, told of the bytes, fields, names and paths that go in and come out.
//!
//! The library does no input or output: functions that need some tell what is to be read, and
//! take what came back.

pub mod archive;
pub mod bridge;
pub mod bridge_browse;
pub mod bridge_jobs;
pub mod bridge_scans;
pub mod browse_cache;
pub mod browse_laws;
pub mod browse_listing;
pub mod browse_paths;
pub mod bytes;
pub mod carve_laws;
pub mod carver;
pub mod cases;
pub mod catalog;
pub mod catalog_rows;
pub mod catalog_status;
pub mod choice_laws;
pub mod clock;
pub mod codec;
pub mod course_laws;
pub mod digests;
pub mod entries;
pub mod entry_laws;
pub mod evidence;
pub mod evidence_run;
pub mod fat;
pub mod filter_laws;
pub mod i30;
pub mod job_laws;
pub mod jobs;
pub mod kind_laws;
pub mod kinds;
pub mod listing_laws;
pub mod member_laws;
pub mod model;
pub mod model_laws;
pub mod ntfs_browse;
pub mod ntfs_inspect;
pub mod ntfs_laws;
pub mod ntfs_names;
pub mod ntfs_paths;
pub mod ntfs_records;
pub mod ntfs_scan;
pub mod numbers;
pub mod pages;
pub mod preview;
pub mod preview_laws;
pub mod preview_reads;
pub mod preview_session;
pub mod preview_text;
pub mod record_laws;
pub mod records;
pub mod recovery;
pub mod recycle_bin;
pub mod refinement;
pub mod report;
pub mod report_laws;
pub mod results;
pub mod scan_course;
pub mod scan_run;
pub mod seqs;
pub mod session_laws;
pub mod sessions;
pub mod show_laws;
pub mod signature;
pub mod size_laws;
pub mod sizes;
pub mod sort;
pub mod source_laws;
pub mod sources;
pub mod store_laws;
pub mod table;
pub mod text;
pub mod usn;
pub mod utf16;
pub mod volume;
pub mod word_laws;
