# files_recovery

A library that finds, shows and recovers deleted files, written and proved in Verus.

- `src/` is the library. It does no input or output: where something has to be read, a function
  says what, and another takes what came back. Every function states what it returns or changes,
  and the laws that hold of several functions stand beside them as public proof functions.
- `app/` is the shell around it: devices, files, the database of catalogs, threads and events.
  Reading the master file table and raw devices needs Windows; elsewhere those parts report that
  they cannot be had.
- `tests/` runs the library on concrete values.

## Modules

| Modules | What they hold |
| --- | --- |
| `model`, `records`, `kinds` | the records of a scan, the kinds of files and how they are told apart |
| `ntfs_names`, `ntfs_paths`, `ntfs_records`, `ntfs_inspect`, `ntfs_scan` | deleted records of an NTFS volume |
| `recycle_bin`, `i30`, `usn`, `evidence`, `evidence_run` | other traces of deleted files, and how they refine what is known |
| `fat` | deleted entries of a FAT32 volume |
| `volume`, `sources` | devices, free space, and the sources of a scan |
| `carver`, `sizes` | files without metadata, by their signatures |
| `scan_course`, `scan_run`, `results`, `sessions`, `refinement`, `jobs` | the course of scans, refinements and jobs |
| `browse_paths`, `browse_cache`, `browse_listing`, `entries`, `ntfs_browse` | folders with live and deleted files |
| `catalog`, `catalog_rows`, `catalog_status` | the catalogs of volumes |
| `preview`, `preview_reads`, `preview_session`, `preview_text`, `archive`, `signature` | what is shown of a file |
| `recovery`, `digests`, `report`, `cases` | recovered files, reports and kept scans |
| `bridge`, `bridge_browse`, `bridge_jobs`, `bridge_scans` | the state behind a user interface |
| `bytes`, `clock`, `codec`, `numbers`, `pages`, `seqs`, `sort`, `table`, `text`, `utf16` | what the others are built from |

What the library takes on trust from other crates and from the standard library is marked with
`external_body` or `assume_specification`, with a comment that says what is claimed.
