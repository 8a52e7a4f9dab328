//! Reads on a volume and what the file system says of entries.

use files_recovery::entries::source_entry_can_navigate;
use files_recovery::model::{ByteRun, SourceAccessState};
use files_recovery::volume::{
    plan_data_window, read_ntfs_data_window, DataRun, VolumeBitmap, WindowPiece,
};

/// Reads the pieces of a window from a device that holds `content`; a read that is not all on
/// the device fails.
fn read_window(content: &[u8], pieces: &Vec<WindowPiece>) -> Option<Vec<u8>> {
    let mut reads: Vec<Option<Vec<u8>>> = Vec::new();
    for piece in pieces {
        if let WindowPiece::Read { offset, length } = piece {
            let from = *offset as usize;
            let to = from + *length as usize;
            reads.push(content.get(from..to).map(<[u8]>::to_vec));
        }
    }
    read_ntfs_data_window(pieces, &reads)
}

#[test]
fn read_ntfs_data_window_returns_partial_prefix_when_later_run_fails() {
    let content = (0u8..16).collect::<Vec<_>>();
    let runs = vec![
        DataRun::Data { lcn: 0, length: 8 },
        DataRun::Data { lcn: 64, length: 8 },
    ];

    let bytes = read_window(&content, &plan_data_window(&runs, 16, 0, 16)).expect("bytes");

    assert_eq!(bytes, (0u8..8).collect::<Vec<_>>());
}

#[test]
fn read_ntfs_data_window_preserves_sparse_regions() {
    let content = (0u8..16).collect::<Vec<_>>();
    let runs = vec![
        DataRun::Data { lcn: 0, length: 4 },
        DataRun::Sparse { length: 4 },
        DataRun::Data { lcn: 4, length: 4 },
    ];

    let bytes = read_window(&content, &plan_data_window(&runs, 12, 0, 12)).expect("bytes");

    assert_eq!(bytes, vec![0, 1, 2, 3, 0, 0, 0, 0, 4, 5, 6, 7]);
}

#[test]
fn volume_bitmap_covers_range_uses_sorted_extent_search() {
    let bitmap = VolumeBitmap {
        cluster_size: 4096,
        extents: vec![
            ByteRun {
                offset: 0x1000,
                length: 0x1000,
                sparse: false,
            },
            ByteRun {
                offset: 0x4000,
                length: 0x3000,
                sparse: false,
            },
            ByteRun {
                offset: 0x9000,
                length: 0x1000,
                sparse: false,
            },
        ],
    };

    assert!(bitmap.covers_range(0x4000, 0x3000));
    assert!(bitmap.covers_range(0x5000, 0x0800));
    assert!(!bitmap.covers_range(0x3000, 0x1000));
    assert!(!bitmap.covers_range(0x6000, 0x2000));
    assert!(bitmap.covers_range(0x7000, 0));
}

#[test]
fn source_entry_navigation_blocks_reparse_points_and_denied_dirs() {
    assert!(source_entry_can_navigate(
        true,
        0,
        SourceAccessState::Readable
    ));
    assert!(!source_entry_can_navigate(
        true,
        0x400,
        SourceAccessState::Readable
    ));
    assert!(!source_entry_can_navigate(
        true,
        0,
        SourceAccessState::Denied
    ));
    assert!(!source_entry_can_navigate(
        false,
        0,
        SourceAccessState::Readable
    ));
}
