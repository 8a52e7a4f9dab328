//! The sources of a machine: its volumes and its disks.

use crate::model::{FileSystemKind, RssError, ScanSource, SourceKind};
use crate::numbers::{decimal, decimal_string};
use crate::sort::{by_text, lemma_by_text, stable_sort_by, stable_sorted, str_before};
use crate::text::{
    ascii_lower, concat2, concat3, concat4, eq_ignore_ascii_case, has_prefix, opt_view,
    to_ascii_lowercase, trim, trimmed,
};
use crate::utf16::{decode_utf16_lossy, utf16_lossy_text};
use vstd::prelude::*;
use vstd::string::*;

verus! {

// ---------------------------------------------------------------------------
// What the system says.

/// The file system with a name, letter case aside.
pub open spec fn named_filesystem(value: Seq<char>) -> FileSystemKind {
    if ascii_lower(value) == ascii_lower("ntfs"@) {
        FileSystemKind::Ntfs
    } else if ascii_lower(value) == ascii_lower("fat32"@) {
        FileSystemKind::Fat32
    } else if ascii_lower(value) == ascii_lower("exfat"@) {
        FileSystemKind::ExFat
    } else {
        FileSystemKind::Unknown
    }
}

pub fn fs_kind(value: &str) -> (r: FileSystemKind)
    ensures
        r == named_filesystem(value@),
{
    if eq_ignore_ascii_case(value, "ntfs") {
        FileSystemKind::Ntfs
    } else if eq_ignore_ascii_case(value, "fat32") {
        FileSystemKind::Fat32
    } else if eq_ignore_ascii_case(value, "exfat") {
        FileSystemKind::ExFat
    } else {
        FileSystemKind::Unknown
    }
}

/// The units in front of the first zero.
pub open spec fn before_zero(units: Seq<u16>) -> Seq<u16>
    decreases units.len(),
{
    if units.len() == 0 || units[0] == 0 {
        seq![]
    } else {
        seq![units[0]] + before_zero(units.drop_first())
    }
}

/// The text in a buffer that ends with a zero, without blanks around it.
pub open spec fn wide_text(buffer: Seq<u16>) -> Seq<char> {
    trimmed(utf16_lossy_text(before_zero(buffer)))
}

pub fn from_wide(buffer: &[u16]) -> (r: String)
    ensures
        r@ == wide_text(buffer@),
{
    let n: usize = buffer.len();
    let mut units: Vec<u16> = Vec::new();
    let mut i: usize = 0;
    proof {
        assert(buffer@.subrange(0, n as int) =~= buffer@);
        assert(units@ + before_zero(buffer@) =~= before_zero(buffer@));
    }
    while i < n && buffer[i] != 0
        invariant
            n == buffer@.len(),
            i <= n,
            before_zero(buffer@) == units@ + before_zero(buffer@.subrange(i as int, n as int)),
        decreases n - i,
    {
        let ghost rest = buffer@.subrange(i as int, n as int);
        let ghost before = units@;
        units.push(buffer[i]);
        proof {
            assert(rest[0] == buffer@[i as int]);
            assert(rest.drop_first() =~= buffer@.subrange(i + 1, n as int));
            let more = before_zero(buffer@.subrange(i + 1, n as int));
            assert(before + (seq![rest[0]] + more) =~= before.push(rest[0]) + more);
        }
        i += 1;
    }
    proof {
        let rest = buffer@.subrange(i as int, n as int);
        if i < n {
            assert(rest[0] == buffer@[i as int]);
        }
        assert(units@ + seq![] =~= units@);
    }
    let text = decode_utf16_lossy(units.as_slice());
    trim(text.as_str())
}

/// Whether there is a drive with a letter.
pub fn has_drive(mask: u32, index: u8) -> (r: bool)
    requires
        index < 26,
    ensures
        r == (mask & (1u32 << index) != 0),
{
    mask & (1u32 << index) != 0
}

/// Fixed and removable drives are sources.
pub fn is_scannable_drive(drive_type: u32) -> (r: bool)
    ensures
        r == (drive_type == 2 || drive_type == 3),
{
    drive_type == 3 || drive_type == 2
}

/// The number of the record of a file, from the two halves of its identifier: its lower 48 bits.
pub fn file_record_number(high: u32, low: u32) -> (r: u64)
    ensures
        r == ((high as u64) << 32 | low as u64) & 0x0000_ffff_ffff_ffffu64,
{
    ((high as u64) << 32 | low as u64) & 0x0000_ffff_ffff_ffff
}

/// What the system says of a volume.
#[derive(Debug)]
pub struct VolumeFacts {
    pub letter: char,
    pub volume_name: Vec<u16>,
    pub filesystem_name: Vec<u16>,
    pub serial: u32,
    pub total_bytes: u64,
    pub free_bytes: u64,
    pub sectors_per_cluster: u32,
    pub bytes_per_sector: u32,
}

/// What a source says.
#[verifier::ext_equal]
pub ghost struct SourceView {
    pub id: Seq<char>,
    pub kind: SourceKind,
    pub device_path: Seq<char>,
    pub mount_point: Option<Seq<char>>,
    pub display_name: Seq<char>,
    pub volume_label: Option<Seq<char>>,
    pub filesystem: FileSystemKind,
    pub volume_serial: Option<u32>,
    pub total_bytes: u64,
    pub free_bytes: u64,
    pub cluster_size: Option<u64>,
    pub is_system: bool,
    pub requires_elevation: bool,
}

impl View for ScanSource {
    type V = SourceView;

    open spec fn view(&self) -> SourceView {
        SourceView {
            id: self.id@,
            kind: self.kind,
            device_path: self.device_path@,
            mount_point: opt_view(self.mount_point),
            display_name: self.display_name@,
            volume_label: opt_view(self.volume_label),
            filesystem: self.filesystem,
            volume_serial: self.volume_serial,
            total_bytes: self.total_bytes,
            free_bytes: self.free_bytes,
            cluster_size: self.cluster_size,
            is_system: self.is_system,
            requires_elevation: self.requires_elevation,
        }
    }
}

/// The root of a drive.
pub open spec fn drive_root(letter: char) -> Seq<char> {
    seq![letter] + ":\\"@
}

/// The source that a volume is.
pub open spec fn volume_source(
    facts: VolumeFacts,
    is_elevated: bool,
    system_root: Option<Seq<char>>,
) -> SourceView {
    let root = drive_root(facts.letter);
    let label = wide_text(facts.volume_name@);
    let fs = wide_text(facts.filesystem_name@);
    SourceView {
        id: "volume:"@ + seq![facts.letter],
        kind: SourceKind::LogicalVolume,
        device_path: "\\\\.\\"@ + seq![facts.letter] + ":"@,
        mount_point: Some(root),
        display_name: if label.len() == 0 {
            root + " ("@ + fs + ")"@
        } else {
            root + " "@ + label + (" ("@ + fs + ")"@)
        },
        volume_label: if label.len() == 0 {
            None
        } else {
            Some(label)
        },
        filesystem: named_filesystem(fs),
        volume_serial: Some(facts.serial),
        total_bytes: facts.total_bytes,
        free_bytes: facts.free_bytes,
        cluster_size: if facts.sectors_per_cluster > 0 && facts.bytes_per_sector > 0 {
            Some((facts.sectors_per_cluster * facts.bytes_per_sector) as u64)
        } else {
            None
        },
        is_system: match system_root {
            Some(candidate) => ascii_lower(root).is_prefix_of(ascii_lower(candidate)),
            None => false,
        },
        requires_elevation: is_elevated,
    }
}

fn letter_text(letter: char) -> (r: String)
    ensures
        r@ == seq![letter],
{
    let mut s = String::new();
    s.push(letter);
    assert(s@ =~= seq![letter]);
    s
}

/// The source that a volume is.
pub fn logical_volume_source(facts: &VolumeFacts, is_elevated: bool, system_root: Option<&str>) -> (r:
    ScanSource)
    ensures
        r@ == volume_source(
            *facts,
            is_elevated,
            crate::browse_listing::ref_view(system_root),
        ),
{
    let letter = letter_text(facts.letter);
    let root = concat2(letter.as_str(), ":\\");
    let label = from_wide(facts.volume_name.as_slice());
    let fs = from_wide(facts.filesystem_name.as_slice());
    let tail = concat3(" (", fs.as_str(), ")");
    let display_name = if label.as_str().is_empty() {
        concat4(root.as_str(), " (", fs.as_str(), ")")
    } else {
        concat4(root.as_str(), " ", label.as_str(), tail.as_str())
    };
    let is_system: bool = match system_root {
        Some(candidate) => {
            let lower_root = to_ascii_lowercase(root.as_str());
            let lower = to_ascii_lowercase(candidate);
            has_prefix(lower.as_str(), lower_root.as_str())
        },
        None => false,
    };
    let sectors: u64 = facts.sectors_per_cluster as u64;
    let bytes: u64 = facts.bytes_per_sector as u64;
    assert(sectors * bytes <= 0xffff_ffff * 0xffff_ffff) by (nonlinear_arith)
        requires
            sectors <= 0xffff_ffff,
            bytes <= 0xffff_ffff,
    ;
    let cluster_size: Option<u64> = if sectors > 0 && bytes > 0 {
        Some(sectors * bytes)
    } else {
        None
    };
    let filesystem = fs_kind(fs.as_str());
    let volume_label: Option<String> = if label.as_str().is_empty() {
        None
    } else {
        Some(label)
    };
    ScanSource {
        id: concat2("volume:", letter.as_str()),
        kind: SourceKind::LogicalVolume,
        device_path: concat3("\\\\.\\", letter.as_str(), ":"),
        mount_point: Some(root),
        display_name,
        volume_label,
        filesystem,
        volume_serial: Some(facts.serial),
        total_bytes: facts.total_bytes,
        free_bytes: facts.free_bytes,
        cluster_size,
        is_system,
        requires_elevation: is_elevated,
    }
}

/// The source that a disk is.
pub open spec fn disk_source(index: u32, disk_size: i64, is_elevated: bool) -> SourceView {
    SourceView {
        id: "disk:"@ + decimal(index as nat),
        kind: SourceKind::PhysicalDisk,
        device_path: "\\\\.\\PhysicalDrive"@ + decimal(index as nat),
        mount_point: None,
        display_name: "PhysicalDrive"@ + decimal(index as nat),
        volume_label: None,
        filesystem: FileSystemKind::Unknown,
        volume_serial: None,
        total_bytes: if disk_size < 0 {
            0
        } else {
            disk_size as u64
        },
        free_bytes: 0,
        cluster_size: None,
        is_system: index == 0,
        requires_elevation: is_elevated,
    }
}

/// The path of a disk.
pub fn disk_path(index: u32) -> (r: String)
    ensures
        r@ == "\\\\.\\PhysicalDrive"@ + decimal(index as nat),
{
    let number = decimal_string(index as u64);
    concat2("\\\\.\\PhysicalDrive", number.as_str())
}

/// The source that a disk is.
pub fn physical_disk_source(index: u32, disk_size: i64, is_elevated: bool) -> (r: ScanSource)
    ensures
        r@ == disk_source(index, disk_size, is_elevated),
{
    let number = decimal_string(index as u64);
    ScanSource {
        id: concat2("disk:", number.as_str()),
        kind: SourceKind::PhysicalDisk,
        device_path: disk_path(index),
        mount_point: None,
        display_name: concat2("PhysicalDrive", number.as_str()),
        volume_label: None,
        filesystem: FileSystemKind::Unknown,
        volume_serial: None,
        total_bytes: if disk_size < 0 {
            0
        } else {
            disk_size as u64
        },
        free_bytes: 0,
        cluster_size: None,
        is_system: index == 0,
        requires_elevation: is_elevated,
    }
}

/// By name.
pub open spec fn shown_name() -> spec_fn(ScanSource) -> Seq<char> {
    |s: ScanSource| s.display_name@
}

/// All sources by name: volumes in front of disks with the same name.
pub fn discover_sources(volumes: Vec<ScanSource>, disks: Vec<ScanSource>) -> (r: Vec<ScanSource>)
    ensures
        stable_sorted(volumes@ + disks@, r@, by_text(shown_name())),
{
    let mut sources = volumes;
    let mut more = disks;
    sources.append(&mut more);
    let before = |a: &ScanSource, b: &ScanSource| -> (r: bool)
        ensures
            r == by_text(shown_name())(*a, *b),
        { str_before(a.display_name.as_str(), b.display_name.as_str()) };
    proof {
        lemma_by_text(shown_name());
    }
    stable_sort_by(sources, before, Ghost(by_text(shown_name())))
}

// ---------------------------------------------------------------------------
// Reads of files.

/// What is done to read a part of a file.
#[derive(Debug)]
pub enum SourceRead {
    Bytes(Vec<u8>),
    FromRecord,
}

/// A part of a file: nothing is read where nothing is asked for; where the file could not be
/// read itself, a mounted NTFS volume is asked for its record.
pub fn read_source_range(
    source: &ScanSource,
    requested_path: &str,
    length: u64,
    direct: Option<Vec<u8>>,
) -> (r: Result<SourceRead, RssError>)
    ensures
        if length == 0 {
            r matches Ok(SourceRead::Bytes(b)) && b@.len() == 0
        } else {
            match direct {
                Some(bytes) => r matches Ok(SourceRead::Bytes(b)) && b@ == bytes@,
                None => if source.filesystem == FileSystemKind::Ntfs && source.mount_point is Some {
                    r matches Ok(SourceRead::FromRecord)
                } else {
                    r matches Err(RssError::Message(m)) && m@ == "Unable to open "@
                        + requested_path@
                },
            }
        },
{
    if length == 0 {
        return Ok(SourceRead::Bytes(Vec::new()));
    }
    match direct {
        Some(bytes) => Ok(SourceRead::Bytes(bytes)),
        None => if source.filesystem == FileSystemKind::Ntfs && source.mount_point.is_some() {
            Ok(SourceRead::FromRecord)
        } else {
            Err(RssError::Message(concat2("Unable to open ", requested_path)))
        },
    }
}

// ---------------------------------------------------------------------------
// Laws.

/// Only volumes are mounted, and every volume is.
pub proof fn lemma_volumes_are_mounted(
    facts: VolumeFacts,
    is_elevated: bool,
    system_root: Option<Seq<char>>,
    index: u32,
    disk_size: i64,
)
    ensures
        volume_source(facts, is_elevated, system_root).mount_point is Some,
        disk_source(index, disk_size, is_elevated).mount_point is None,
{
}

/// The record number of a file leaves its sequence number out.
pub proof fn lemma_record_number_is_small(high: u32, low: u32)
    ensures
        (((high as u64) << 32 | low as u64) & 0x0000_ffff_ffff_ffffu64) < 0x1_0000_0000_0000u64,
{
    let id = (high as u64) << 32 | low as u64;
    assert((id & 0x0000_ffff_ffff_ffffu64) < 0x1_0000_0000_0000u64) by (bit_vector);
}

} // verus!
