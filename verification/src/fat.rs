//! Deleted files in the directories of a FAT32 volume.

use crate::bytes::{
    laid_at, le16, le32, le_bytes, lemma_le16_reads_back, lemma_le32_reads_back, read_le16,
    read_le32,
};
use crate::carver::by_score;
use crate::kinds::{decode_utf8_lossy, is_scan_id, utf8_lossy};
use crate::model::{
    ArtifactClass, ArtifactRecord, ByteRun, ContentSourceKind, FileSystemKind, NameSourceKind,
    PathConfidence, PlacementKind, Recoverability, RecoveryPlan, RssError, ScanSource,
};
use crate::records::{fresh_view, lemma_fresh_view, push_note, ArtifactView, PlanView};
use crate::sort::{lemma_sorting_early_changes_nothing, stable_sorted};
use crate::text::{
    after_last, ascii_lower, concat2, concat3, opt_view, owned, rsplit_after, strip_back,
    strip_front, to_ascii_lowercase, trim, trim_end_char, trim_start_char, trimmed,
};
use vstd::prelude::*;
use vstd::string::*;

verus! {

pub const DIR_ENTRY_SIZE: usize = 32;

/// The attribute of an entry that holds a part of a long name.
pub const ATTR_LONG_NAME: u8 = 0x0f;

// ---------------------------------------------------------------------------
// The layout of a volume.

/// Where the table and the clusters of a volume lie.
#[derive(Debug, Clone, Copy, PartialEq, Eq, Structural)]
pub struct FatLayout {
    pub root_cluster: u32,
    pub fat_offset: u64,
    pub fat_length: u64,
    pub data_offset: u64,
    pub cluster_size: u64,
}

/// The layout that a boot sector gives.
pub open spec fn boot_layout(boot: Seq<u8>) -> FatLayout {
    let sector = le16(boot, 11);
    let short = le16(boot, 22);
    let per_fat = if short == 0 {
        le32(boot, 36)
    } else {
        short
    };
    FatLayout {
        root_cluster: le32(boot, 44) as u32,
        fat_offset: (le16(boot, 14) * sector) as u64,
        fat_length: (per_fat * sector) as u64,
        data_offset: (le16(boot, 14) * sector + per_fat * sector * boot[16]) as u64,
        cluster_size: (boot[13] * sector) as u64,
    }
}

/// A volume whose clusters lie within what 64 bits can address.
pub open spec fn layout_fits(layout: FatLayout) -> bool {
    layout.data_offset <= 0x1000_0000_0000_0000 && layout.cluster_size <= 0x0100_0000
}

/// Reads the boot sector of a FAT32 source.
pub fn read_boot_sector(source: &ScanSource, boot: &[u8]) -> (r: Result<FatLayout, RssError>)
    requires
        boot@.len() >= 48,
    ensures
        if source.filesystem != FileSystemKind::Fat32 {
            r matches Err(RssError::Message(m)) && m@ == source.display_name@ + " is not FAT32"@
        } else if le16(boot@, 17) != 0 || le32(boot@, 44) < 2 {
            r matches Err(RssError::Message(m)) && m@
                == "Only FAT32 volumes are supported in this release"@
        } else {
            r == Ok::<FatLayout, RssError>(boot_layout(boot@)) && layout_fits(boot_layout(boot@))
        },
{
    if source.filesystem != FileSystemKind::Fat32 {
        return Err(
            RssError::Message(concat2(source.display_name.as_str(), " is not FAT32")),
        );
    }
    let sector: u64 = read_le16(boot, 11) as u64;
    let per_cluster: u64 = boot[13] as u64;
    let reserved: u64 = read_le16(boot, 14) as u64;
    let fats: u64 = boot[16] as u64;
    let root_entries: u16 = read_le16(boot, 17);
    let short: u16 = read_le16(boot, 22);
    let per_fat: u64 = if short == 0 {
        read_le32(boot, 36) as u64
    } else {
        short as u64
    };
    let root_cluster: u32 = read_le32(boot, 44);
    if root_entries != 0 || root_cluster < 2 {
        return Err(
            RssError::Message(owned("Only FAT32 volumes are supported in this release")),
        );
    }
    proof {
        assert(reserved * sector <= 0xffff * 0xffff) by (nonlinear_arith)
            requires
                reserved <= 0xffff,
                sector <= 0xffff,
        ;
        assert(per_fat * sector <= 0xffff_ffff * 0xffff) by (nonlinear_arith)
            requires
                per_fat <= 0xffff_ffff,
                sector <= 0xffff,
        ;
        assert(per_cluster * sector <= 0xff * 0xffff) by (nonlinear_arith)
            requires
                per_cluster <= 0xff,
                sector <= 0xffff,
        ;
    }
    let fat_offset: u64 = reserved * sector;
    let fat_length: u64 = per_fat * sector;
    assert(fat_length * fats <= 0xffff_ffff * 0xffff * 0xff) by (nonlinear_arith)
        requires
            fat_length <= 0xffff_ffff * 0xffff,
            fats <= 0xff,
    ;
    let data_offset: u64 = fat_offset + fat_length * fats;
    Ok(
        FatLayout {
            root_cluster,
            fat_offset,
            fat_length,
            data_offset,
            cluster_size: per_cluster * sector,
        },
    )
}

/// Where a cluster lies.
pub open spec fn offset_of_cluster(layout: FatLayout, cluster: int) -> int {
    layout.data_offset + (cluster - 2) * layout.cluster_size
}

pub fn cluster_offset(layout: &FatLayout, cluster: u32) -> (r: u64)
    requires
        layout_fits(*layout),
        cluster >= 2,
    ensures
        r == offset_of_cluster(*layout, cluster as int),
{
    let index: u64 = cluster as u64 - 2;
    let size: u64 = layout.cluster_size;
    assert(index * size <= 0xffff_ffff * 0x0100_0000) by (nonlinear_arith)
        requires
            index <= 0xffff_ffff,
            size <= 0x0100_0000,
    ;
    layout.data_offset + index * size
}

// ---------------------------------------------------------------------------
// The table.

/// The entry of a cluster in the table.
pub open spec fn table_entry(fat: Seq<u8>, cluster: int) -> Option<u32> {
    if 0 <= cluster && cluster * 4 + 4 <= fat.len() {
        Some(le32(fat, cluster * 4) as u32 & 0x0fff_ffff)
    } else {
        None
    }
}

pub fn fat_entry(fat: &[u8], cluster: u32) -> (r: Option<u32>)
    ensures
        r == table_entry(fat@, cluster as int),
{
    let n: usize = fat.len();
    if n < 4 || cluster as u64 > ((n - 4) / 4) as u64 {
        return None;
    }
    Some(read_le32(fat, cluster as usize * 4) & 0x0fff_ffff)
}

/// A cluster that no file uses.
pub open spec fn cluster_free(fat: Seq<u8>, cluster: int) -> bool {
    table_entry(fat, cluster) == Some(0u32)
}

pub fn is_cluster_free(fat: &[u8], cluster: u32) -> (r: bool)
    ensures
        r == cluster_free(fat@, cluster as int),
{
    match fat_entry(fat, cluster) {
        Some(entry) => entry == 0,
        None => false,
    }
}

/// The clusters of a file from one on. A chain ends at its end mark, at a free cluster, outside
/// the table, or where it comes back.
pub open spec fn cluster_chain(fat: Seq<u8>, cluster: u32, visited: Seq<u32>) -> Seq<u32>
    decreases fat.len() / 4 - visited.len(),
{
    if cluster < 2 || visited.contains(cluster) {
        seq![]
    } else {
        match table_entry(fat, cluster as int) {
            None => seq![cluster],
            Some(next) => if next >= 0x0fff_fff8 || next == 0 || visited.len() >= fat.len() / 4 {
                seq![cluster]
            } else {
                seq![cluster] + cluster_chain(fat, next, visited.push(cluster))
            },
        }
    }
}

proof fn lemma_distinct_clusters(visited: Seq<u32>, n: int)
    requires
        visited.no_duplicates(),
        0 <= n,
        forall|i: int| 0 <= i < visited.len() ==> #[trigger] visited[i] < n,
    ensures
        visited.len() <= n,
{
    let numbers = visited.map_values(|x: u32| x as int);
    assert(numbers.no_duplicates()) by {
        assert forall|i: int, j: int|
            0 <= i < numbers.len() && 0 <= j < numbers.len() && i != j implies numbers[i]
            != numbers[j] by {
            assert(visited[i] != visited[j]);
        }
    }
    numbers.unique_seq_to_set();
    let range = vstd::set_lib::set_int_range(0, n);
    vstd::set_lib::lemma_int_range(0, n);
    assert(numbers.to_set().subset_of(range)) by {
        assert forall|x: int| numbers.to_set().contains(x) implies range.contains(x) by {
            let i = choose|i: int| 0 <= i < numbers.len() && numbers[i] == x;
            assert(visited[i] < n);
        }
    }
    vstd::set_lib::lemma_len_subset(numbers.to_set(), range);
}

fn contains_cluster(list: &Vec<u32>, cluster: u32) -> (r: bool)
    ensures
        r == list@.contains(cluster),
{
    let mut i: usize = 0;
    while i < list.len()
        invariant
            i <= list@.len(),
            forall|j: int| 0 <= j < i ==> list@[j] != cluster,
        decreases list@.len() - i,
    {
        if list[i] == cluster {
            assert(list@[i as int] == cluster);
            return true;
        }
        i += 1;
    }
    false
}

/// The clusters that a file or directory is read from.
pub fn read_chain(fat: &[u8], start_cluster: u32) -> (r: Vec<u32>)
    ensures
        r@ == cluster_chain(fat@, start_cluster, seq![]),
{
    let mut chain: Vec<u32> = Vec::new();
    let mut cluster: u32 = start_cluster;
    let ghost all = cluster_chain(fat@, start_cluster, seq![]);
    proof {
        assert(chain@ =~= seq![]);
        assert(chain@ + all =~= all);
    }
    while cluster >= 2
        invariant_except_break
            all == chain@ + cluster_chain(fat@, cluster, chain@),
            chain@.no_duplicates(),
            forall|i: int| 0 <= i < chain@.len() ==> #[trigger] chain@[i] < fat@.len() / 4,
        ensures
            all == chain@,
        decreases fat@.len() / 4 + 1 - chain@.len(),
    {
        let ghost had = chain@;
        assert(had + seq![] =~= had);
        if contains_cluster(&chain, cluster) {
            break;
        }
        let next = fat_entry(fat, cluster);
        proof {
            lemma_distinct_clusters(had, (fat@.len() / 4) as int);
        }
        chain.push(cluster);
        assert(chain@ =~= had + seq![cluster]);
        match next {
            None => {
                break;
            },
            Some(next) => {
                proof {
                    assert(chain@.no_duplicates());
                    lemma_distinct_clusters(chain@, (fat@.len() / 4) as int);
                }
                if next >= 0x0fff_fff8 || next == 0 {
                    break;
                }
                proof {
                    let rest = cluster_chain(fat@, next, chain@);
                    assert(had.push(cluster) =~= chain@);
                    assert(had + (seq![cluster] + rest) =~= chain@ + rest);
                }
                cluster = next;
            },
        }
    }
    chain
}

// ---------------------------------------------------------------------------
// Directory entries.

/// A text without white space and zeros at its ends.
pub open spec fn field_text(bytes: Seq<u8>) -> Seq<char> {
    strip_front(strip_back(trimmed(utf8_lossy(bytes)), '\0'), '\0')
}

fn text_of_field(bytes: &[u8], from: usize, to: usize) -> (r: String)
    requires
        from <= to <= bytes@.len(),
    ensures
        r@ == field_text(bytes@.subrange(from as int, to as int)),
{
    let text = decode_utf8_lossy(vstd::slice::slice_subrange(bytes, from, to));
    let text = trim(text.as_str());
    let text = trim_end_char(text.as_str(), '\0');
    trim_start_char(text.as_str(), '\0')
}

/// The short name of an entry; a deleted one has lost its first character.
pub open spec fn entry_name(entry: Seq<u8>) -> Seq<char> {
    let first = if entry[0] == 0xe5 {
        "_"@
    } else {
        utf8_lossy(entry.subrange(0, 1))
    };
    let name = first + field_text(entry.subrange(1, 8));
    let ext = field_text(entry.subrange(8, 11));
    if ext.len() == 0 {
        name
    } else {
        name + "."@ + ext
    }
}

pub fn short_name(entry: &[u8]) -> (r: String)
    requires
        entry@.len() >= 11,
    ensures
        r@ == entry_name(entry@),
{
    let mut name: String = if entry[0] == 0xe5 {
        owned("_")
    } else {
        decode_utf8_lossy(vstd::slice::slice_subrange(entry, 0, 1))
    };
    let rest = text_of_field(entry, 1, 8);
    name.append(rest.as_str());
    let ext = text_of_field(entry, 8, 11);
    if !ext.as_str().is_empty() {
        name.append(".");
        name.append(ext.as_str());
    }
    name
}

/// What an entry stands for.
pub enum EntryMeaning {
    /// No entry follows.
    End,
    /// Nothing of interest.
    Other,
    /// A file that was deleted.
    Deleted { name: Seq<char>, cluster: u32, size: u64 },
    /// A directory that is still there.
    Directory { name: Seq<char>, cluster: u32 },
}

pub open spec fn entry_cluster(entry: Seq<u8>) -> u32 {
    (le16(entry, 20) * 0x10000 + le16(entry, 26)) as u32
}

pub open spec fn entry_meaning(entry: Seq<u8>) -> EntryMeaning {
    let attr = entry[11];
    let name = entry_name(entry);
    let cluster = entry_cluster(entry);
    let directory = attr & 0x10 == 0x10;
    if entry[0] == 0 {
        EntryMeaning::End
    } else if attr == ATTR_LONG_NAME || attr & 8 == 8 || name == "."@ || name == ".."@ || name.len()
        == 0 {
        EntryMeaning::Other
    } else if entry[0] == 0xe5 {
        if directory {
            EntryMeaning::Other
        } else {
            EntryMeaning::Deleted { name, cluster, size: le32(entry, 28) as u64 }
        }
    } else if directory && cluster >= 2 {
        EntryMeaning::Directory { name, cluster }
    } else {
        EntryMeaning::Other
    }
}

/// An entry as it was read.
enum ReadEntry {
    End,
    Other,
    Deleted { name: String, cluster: u32, size: u64 },
    Directory { name: String, cluster: u32 },
}

spec fn read_meaning(e: ReadEntry) -> EntryMeaning {
    match e {
        ReadEntry::End => EntryMeaning::End,
        ReadEntry::Other => EntryMeaning::Other,
        ReadEntry::Deleted { name, cluster, size } => EntryMeaning::Deleted {
            name: name@,
            cluster,
            size,
        },
        ReadEntry::Directory { name, cluster } => EntryMeaning::Directory { name: name@, cluster },
    }
}

fn read_entry(entry: &[u8]) -> (r: ReadEntry)
    requires
        entry@.len() == 32,
    ensures
        read_meaning(r) == entry_meaning(entry@),
{
    if entry[0] == 0 {
        return ReadEntry::End;
    }
    let attr: u8 = entry[11];
    if attr == ATTR_LONG_NAME || attr & 8 == 8 {
        return ReadEntry::Other;
    }
    let name = short_name(entry);
    if *name.as_str() == *"." || *name.as_str() == *".." || name.as_str().is_empty() {
        return ReadEntry::Other;
    }
    let high: u32 = read_le16(entry, 20) as u32;
    let low: u32 = read_le16(entry, 26) as u32;
    let cluster: u32 = high * 0x10000 + low;
    let directory: bool = attr & 0x10 == 0x10;
    if entry[0] == 0xe5 {
        if directory {
            return ReadEntry::Other;
        }
        return ReadEntry::Deleted { name, cluster, size: read_le32(entry, 28) as u64 };
    }
    if directory && cluster >= 2 {
        return ReadEntry::Directory { name, cluster };
    }
    ReadEntry::Other
}

// ---------------------------------------------------------------------------
// Deleted files.

/// The path of an entry of a directory.
pub open spec fn entry_path(directory: Seq<char>, name: Seq<char>) -> Seq<char> {
    strip_back(directory, '\\') + "\\"@ + name
}

fn path_of_entry(directory: &str, name: &str) -> (r: String)
    ensures
        r@ == entry_path(directory@, name@),
{
    let parent = trim_end_char(directory, '\\');
    concat3(parent.as_str(), "\\", name)
}

/// How many clusters a file of a size has.
pub open spec fn clusters_needed(size: u64, cluster_size: u64) -> int {
    let n = (size + cluster_size - 1) / (cluster_size as int);
    if n < 1 {
        1
    } else {
        n
    }
}

/// The free clusters from one on, at most `n` of them, as runs.
pub open spec fn free_runs(fat: Seq<u8>, layout: FatLayout, cluster: int, n: int) -> Seq<ByteRun>
    decreases n,
{
    if n <= 0 || !cluster_free(fat, cluster) || cluster > u32::MAX {
        seq![]
    } else {
        seq![
            ByteRun {
                offset: offset_of_cluster(layout, cluster) as u64,
                length: layout.cluster_size,
                sparse: false,
            },
        ] + free_runs(fat, layout, cluster + 1, n - 1)
    }
}

fn collect_free_runs(fat: &[u8], layout: &FatLayout, start: u32, n: u64) -> (r: Vec<ByteRun>)
    requires
        layout_fits(*layout),
        start >= 2,
    ensures
        r@ == free_runs(fat@, *layout, start as int, n as int),
{
    let mut runs: Vec<ByteRun> = Vec::new();
    let mut i: u64 = 0;
    let ghost all = free_runs(fat@, *layout, start as int, n as int);
    assert(runs@ + all =~= all);
    while i < n
        invariant
            i <= n,
            start >= 2,
            layout_fits(*layout),
            start + i <= u32::MAX + 1,
            all == free_runs(fat@, *layout, start as int, n as int),
            all == runs@ + free_runs(fat@, *layout, start + i, n - i),
        decreases n - i,
    {
        let ghost had = runs@;
        assert(had + seq![] =~= had);
        let cluster: u64 = start as u64 + i;
        if cluster > u32::MAX as u64 {
            return runs;
        }
        let cluster: u32 = cluster as u32;
        if !is_cluster_free(fat, cluster) {
            return runs;
        }
        let run = ByteRun {
            offset: cluster_offset(layout, cluster),
            length: layout.cluster_size,
            sparse: false,
        };
        runs.push(run);
        i += 1;
        proof {
            let rest = free_runs(fat@, *layout, start + i, n - i);
            assert(runs@ =~= had + seq![run]);
            assert(had + (seq![run] + rest) =~= runs@ + rest);
        }
    }
    assert(runs@ + seq![] =~= runs@);
    runs
}

pub open spec fn contiguous_note() -> Seq<char> {
    "FAT deleted recovery assumes contiguous free clusters beyond the first one."@
}

/// The record of a deleted file by its directory entry.
pub open spec fn entry_view(
    id: Seq<char>,
    scan_id: Seq<char>,
    source_id: Seq<char>,
    directory: Seq<char>,
    name: Seq<char>,
    size: u64,
) -> ArtifactView {
    ArtifactView {
        original_path: Some(entry_path(directory, name)),
        placement_kind: PlacementKind::OriginalPath,
        path_confidence: PathConfidence::Exact,
        name_source: NameSourceKind::LongName,
        size,
        extension: match after_last(name, '.') {
            Some(ext) => Some(ascii_lower(ext)),
            None => None,
        },
        ..fresh_view(id, scan_id, source_id, name)
    }
}

fn entry_record(
    scan_id: &str,
    source_id: &str,
    directory: &str,
    name: &str,
    size: u64,
) -> (r: ArtifactRecord)
    ensures
        is_scan_id(r@.id),
        r@ == entry_view(r@.id, scan_id@, source_id@, directory@, name@, size),
{
    let mut record = ArtifactRecord::new(scan_id, source_id, name);
    proof {
        lemma_fresh_view(record, scan_id@, source_id@, name@);
    }
    record.original_path = Some(path_of_entry(directory, name));
    record.placement_kind = PlacementKind::OriginalPath;
    record.path_confidence = PathConfidence::Exact;
    record.name_source = NameSourceKind::LongName;
    record.size = size;
    record.extension =
    match rsplit_after(name, '.') {
        Some(ext) => Some(to_ascii_lowercase(ext.as_str())),
        None => None,
    };
    record
}

/// The record of a file that is taken to lie in runs of clusters.
pub open spec fn in_runs_view(
    v: ArtifactView,
    device_path: Seq<char>,
    runs: Seq<ByteRun>,
    n: int,
) -> ArtifactView {
    ArtifactView {
        recoverability: if n == 1 {
            Recoverability::Good
        } else {
            Recoverability::Partial
        },
        notes: if n > 1 {
            v.notes.push(contiguous_note())
        } else {
            v.notes
        },
        recovery_plan: PlanView::RawRuns { source_path: device_path, runs, logical_size: v.size },
        content_source: ContentSourceKind::RawRuns,
        artifact_class: ArtifactClass::Recoverable,
        ..v
    }
}

fn set_runs(record: &mut ArtifactRecord, device_path: &str, runs: Vec<ByteRun>, n: u64)
    ensures
        final(record)@ == in_runs_view(old(record)@, device_path@, runs@, n as int),
{
    let recoverability: Recoverability = if n == 1 {
        Recoverability::Good
    } else {
        Recoverability::Partial
    };
    record.recoverability = recoverability;
    record.recovery_plan =
    RecoveryPlan::RawRuns { source_path: owned(device_path), runs, logical_size: record.size };
    record.content_source = ContentSourceKind::RawRuns;
    record.artifact_class = ArtifactClass::Recoverable;
    if n > 1 {
        push_note(
            record,
            "FAT deleted recovery assumes contiguous free clusters beyond the first one.",
        );
    }
}

/// The record of a file whose first cluster is unknown or in use.
pub open spec fn lost_view(v: ArtifactView) -> ArtifactView {
    ArtifactView {
        recoverability: Recoverability::Poor,
        recovery_plan: PlanView::Unrecoverable {
            reason: "Deleted FAT entry has no recoverable starting cluster"@,
        },
        ..v
    }
}

fn set_lost(record: &mut ArtifactRecord)
    ensures
        final(record)@ == lost_view(old(record)@),
{
    record.recoverability = Recoverability::Poor;
    record.recovery_plan =
    RecoveryPlan::Unrecoverable {
        reason: owned("Deleted FAT entry has no recoverable starting cluster"),
    };
}

/// The record with what the table says of its content: a file whose first cluster is free is
/// taken to lie in the free clusters that follow.
pub open spec fn placed_view(
    v: ArtifactView,
    fat: Seq<u8>,
    layout: FatLayout,
    device_path: Seq<char>,
    cluster: u32,
) -> ArtifactView {
    if cluster >= 2 && cluster_free(fat, cluster as int) {
        let n = clusters_needed(v.size, layout.cluster_size);
        in_runs_view(v, device_path, free_runs(fat, layout, cluster as int, n), n)
    } else {
        lost_view(v)
    }
}

fn place_record(
    record: &mut ArtifactRecord,
    fat: &[u8],
    layout: &FatLayout,
    device_path: &str,
    cluster: u32,
)
    requires
        layout_fits(*layout),
        layout.cluster_size > 0,
        old(record).size <= u32::MAX,
    ensures
        final(record)@ == placed_view(old(record)@, fat@, *layout, device_path@, cluster),
{
    if cluster >= 2 && is_cluster_free(fat, cluster) {
        let mut n: u64 = (record.size + (layout.cluster_size - 1)) / layout.cluster_size;
        if n < 1 {
            n = 1;
        }
        let runs = collect_free_runs(fat, layout, cluster, n);
        set_runs(record, device_path, runs, n);
    } else {
        set_lost(record);
    }
}

// ---------------------------------------------------------------------------
// The walk through the directories.

/// A directory that is being read.
#[derive(Debug)]
struct Frame {
    bytes: Vec<u8>,
    at: usize,
    path: String,
}

/// What is left of a directory that is being read, and its path.
pub struct FrameView {
    pub rest: Seq<u8>,
    pub path: Seq<char>,
}

/// What a walk does next.
#[derive(Debug)]
pub enum FatStep {
    /// Nothing was found.
    Continue,
    /// A deleted file was found.
    Found,
    /// The clusters of a directory are to be read.
    Read { clusters: Vec<u32> },
    /// All directories have been read.
    Done,
}

/// A walk through the directories of a volume.
#[derive(Debug)]
pub struct FatWalk {
    scan_id: String,
    source_id: String,
    device_path: String,
    layout: FatLayout,
    fat: Vec<u8>,
    visited: Vec<u32>,
    stack: Vec<Frame>,
    pending: Option<String>,
    results: Vec<ArtifactRecord>,
}

/// What a walk says.
pub struct WalkView {
    pub scan_id: Seq<char>,
    pub source_id: Seq<char>,
    pub device_path: Seq<char>,
    pub layout: FatLayout,
    pub fat: Seq<u8>,
    pub visited: Seq<u32>,
    pub stack: Seq<FrameView>,
    pub pending: Option<Seq<char>>,
    pub results: Seq<ArtifactRecord>,
}

impl View for FatWalk {
    type V = WalkView;

    closed spec fn view(&self) -> WalkView {
        WalkView {
            scan_id: self.scan_id@,
            source_id: self.source_id@,
            device_path: self.device_path@,
            layout: self.layout,
            fat: self.fat@,
            visited: self.visited@,
            stack: frame_views(self.stack@),
            pending: opt_view(self.pending),
            results: self.results@,
        }
    }
}

spec fn frame_view(f: Frame) -> FrameView {
    FrameView { rest: f.bytes@.subrange(f.at as int, f.bytes@.len() as int), path: f.path@ }
}

spec fn frame_views(stack: Seq<Frame>) -> Seq<FrameView> {
    stack.map_values(|f: Frame| frame_view(f))
}

/// The walk without the entry in front.
pub open spec fn past_entry(w: WalkView) -> WalkView {
    let top = w.stack.last();
    WalkView {
        stack: w.stack.drop_last().push(
            FrameView { rest: top.rest.subrange(32, top.rest.len() as int), path: top.path },
        ),
        ..w
    }
}

/// The walk without the directory on top.
pub open spec fn popped(w: WalkView) -> WalkView {
    WalkView { stack: w.stack.drop_last(), ..w }
}

/// What the entry in front stands for; an end where the directory is read.
pub open spec fn front_meaning(w: WalkView) -> EntryMeaning {
    let rest = w.stack.last().rest;
    if rest.len() < 32 {
        EntryMeaning::End
    } else {
        entry_meaning(rest.subrange(0, 32))
    }
}

/// The record of a deleted file that a walk meets.
pub open spec fn found_view(
    id: Seq<char>,
    w: WalkView,
    name: Seq<char>,
    cluster: u32,
    size: u64,
) -> ArtifactView {
    placed_view(
        entry_view(id, w.scan_id, w.source_id, w.stack.last().path, name, size),
        w.fat,
        w.layout,
        w.device_path,
        cluster,
    )
}

/// How what was found is listed: in the order in which it was met, and in the order in which it is
/// shown after every sixteenth file.
pub open spec fn listed(met: Seq<ArtifactRecord>, list: Seq<ArtifactRecord>) -> bool {
    if met.len() % 16 == 0 {
        stable_sorted(met, list, by_score())
    } else {
        list == met
    }
}

impl FatWalk {
    pub closed spec fn wf(&self) -> bool {
        &&& layout_fits(self.layout)
        &&& forall|i: int|
            0 <= i < self.stack@.len() ==> (#[trigger] self.stack@[i]).at
                <= self.stack@[i].bytes@.len()
        &&& self.layout.cluster_size > 0 || forall|i: int|
            0 <= i < self.stack@.len() ==> (#[trigger] self.stack@[i]).bytes@.len() == 0
    }

    /// A walk that begins at the root directory; gives the clusters that are to be read first.
    pub fn new(scan_id: &str, source: &ScanSource, layout: FatLayout, fat: Vec<u8>) -> (r: (
        Self,
        Vec<u32>,
    ))
        requires
            layout_fits(layout),
        ensures
            r.0.wf(),
            r.0@ == (WalkView {
                scan_id: scan_id@,
                source_id: source.id@,
                device_path: source.device_path@,
                layout,
                fat: fat@,
                visited: seq![layout.root_cluster],
                stack: seq![],
                pending: Some(
                    match source.mount_point {
                        Some(path) => path@,
                        None => "F:\\"@,
                    },
                ),
                results: seq![],
            }),
            r.1@ == cluster_chain(fat@, layout.root_cluster, seq![]),
    {
        let clusters = read_chain(fat.as_slice(), layout.root_cluster);
        let mut visited: Vec<u32> = Vec::new();
        visited.push(layout.root_cluster);
        let path: String = match &source.mount_point {
            Some(path) => path.clone(),
            None => owned("F:\\"),
        };
        let walk = FatWalk {
            scan_id: owned(scan_id),
            source_id: source.id.clone(),
            device_path: source.device_path.clone(),
            layout,
            fat,
            visited,
            stack: Vec::new(),
            pending: Some(path),
            results: Vec::new(),
        };
        proof {
            assert(frame_views(walk.stack@) =~= seq![]);
            assert(walk.visited@ =~= seq![layout.root_cluster]);
            assert(walk.results@ =~= seq![]);
        }
        (walk, clusters)
    }

    /// Takes the bytes of the directory that was to be read.
    pub fn supply(&mut self, bytes: Vec<u8>)
        requires
            old(self).wf(),
            old(self)@.pending is Some,
            old(self)@.layout.cluster_size > 0 || bytes@.len() == 0,
        ensures
            final(self).wf(),
            final(self)@ == (WalkView {
                stack: old(self)@.stack.push(
                    FrameView { rest: bytes@, path: old(self)@.pending->Some_0 },
                ),
                pending: None,
                ..old(self)@
            }),
    {
        let mut pending: Option<String> = None;
        std::mem::swap(&mut pending, &mut self.pending);
        if let Some(path) = pending {
            let ghost before = frame_views(self.stack@);
            let frame = Frame { bytes, at: 0, path };
            self.stack.push(frame);
            proof {
                assert(bytes@.subrange(0, bytes@.len() as int) =~= bytes@);
                assert(frame_views(self.stack@) =~= before.push(frame_view(frame)));
            }
        }
    }

    fn pass_entry(&mut self)
        requires
            old(self).wf(),
            old(self).stack@.len() > 0,
            old(self)@.stack.last().rest.len() >= 32,
        ensures
            final(self).wf(),
            final(self)@ == past_entry(old(self)@),
    {
        let top: usize = self.stack.len() - 1;
        let ghost before = self.stack@;
        assert(self@.stack.last() == frame_view(before[top as int]));
        let n: usize = self.stack[top].bytes.len();
        let at: usize = self.stack[top].at;
        assert(at + 32 <= n);
        self.stack[top].at = at + 32;
        proof {
            let was = before[top as int];
            let rest = frame_view(was).rest;
            assert(rest.subrange(32, rest.len() as int) =~= frame_view(self.stack@[top as int]).rest);
            assert(frame_views(self.stack@) =~= past_entry(old(self)@).stack);
        }
    }

    /// Goes one entry further. A directory that was read already is not read again. After every
    /// sixteenth file what was found is put into the order in which it is shown.
    pub fn scan_directory(&mut self) -> (r: FatStep)
        requires
            old(self).wf(),
        ensures
            final(self).wf(),
            if old(self)@.stack.len() == 0 {
                r is Done && final(self)@ == old(self)@
            } else {
                match front_meaning(old(self)@) {
                    EntryMeaning::End => r is Continue && final(self)@ == popped(old(self)@),
                    EntryMeaning::Other => r is Continue && final(self)@ == past_entry(
                        old(self)@,
                    ),
                    EntryMeaning::Deleted { name, cluster, size } => r is Found && exists|
                        record: ArtifactRecord,
                    |
                        {
                            &&& #[trigger] record@ == found_view(
                                record@.id,
                                old(self)@,
                                name,
                                cluster,
                                size,
                            )
                            &&& is_scan_id(record@.id)
                            &&& listed(old(self)@.results.push(record), final(self)@.results)
                            &&& final(self)@ == (WalkView {
                                results: final(self)@.results,
                                ..past_entry(old(self)@)
                            })
                        },
                    EntryMeaning::Directory { name, cluster } => if old(
                        self,
                    )@.visited.contains(cluster) {
                        r is Continue && final(self)@ == past_entry(old(self)@)
                    } else {
                        &&& r matches FatStep::Read { clusters }
                        &&& clusters@ == cluster_chain(old(self)@.fat, cluster, seq![])
                        &&& final(self)@ == (WalkView {
                            visited: old(self)@.visited.push(cluster),
                            pending: Some(entry_path(old(self)@.stack.last().path, name)),
                            ..past_entry(old(self)@)
                        })
                    },
                }
            },
    {
        if self.stack.len() == 0 {
            return FatStep::Done;
        }
        let top: usize = self.stack.len() - 1;
        let ghost w = self@;
        let ghost frame = self.stack@[top as int];
        assert(w.stack.last() == frame_view(frame));
        let at: usize = self.stack[top].at;
        let n: usize = self.stack[top].bytes.len();
        if n - at < 32 {
            self.stack.pop();
            assert(frame_views(self.stack@) =~= w.stack.drop_last());
            return FatStep::Continue;
        }
        assert(w.stack.last().rest.subrange(0, 32) =~= frame.bytes@.subrange(at as int, at + 32));
        let entry = read_entry(
            vstd::slice::slice_subrange(self.stack[top].bytes.as_slice(), at, at + 32),
        );
        match entry {
            ReadEntry::End => {
                self.stack.pop();
                assert(frame_views(self.stack@) =~= w.stack.drop_last());
                FatStep::Continue
            },
            ReadEntry::Other => {
                self.pass_entry();
                FatStep::Continue
            },
            ReadEntry::Deleted { name, cluster, size } => {
                let mut record = entry_record(
                    self.scan_id.as_str(),
                    self.source_id.as_str(),
                    self.stack[top].path.as_str(),
                    name.as_str(),
                    size,
                );
                let ghost id = record@.id;
                assert(size <= u32::MAX);
                place_record(
                    &mut record,
                    self.fat.as_slice(),
                    &self.layout,
                    self.device_path.as_str(),
                    cluster,
                );
                assert(record@ == found_view(id, w, name@, cluster, size));
                self.pass_entry();
                self.results.push(record);
                assert(record@ == found_view(record@.id, w, name@, cluster, size));
                if self.results.len() % 16 == 0 {
                    let mut met: Vec<ArtifactRecord> = Vec::new();
                    std::mem::swap(&mut met, &mut self.results);
                    self.results = crate::carver::order_carved(met);
                }
                FatStep::Found
            },
            ReadEntry::Directory { name, cluster } => {
                if contains_cluster(&self.visited, cluster) {
                    self.pass_entry();
                    return FatStep::Continue;
                }
                let path = path_of_entry(self.stack[top].path.as_str(), name.as_str());
                let clusters = read_chain(self.fat.as_slice(), cluster);
                self.pass_entry();
                self.visited.push(cluster);
                self.pending = Some(path);
                FatStep::Read { clusters }
            },
        }
    }

    /// What has been found.
    pub fn found(&self) -> (r: &Vec<ArtifactRecord>)
        ensures
            r@ == self@.results,
    {
        &self.results
    }

    /// Whether what was found is reported: after every sixteenth file.
    pub fn report_due(&self) -> (r: bool)
        ensures
            r == (self@.results.len() % 16 == 0),
    {
        self.results.len() % 16 == 0
    }

    /// What was found, in the order in which it is shown.
    pub fn scan_deleted_entries(self) -> (r: Vec<ArtifactRecord>)
        ensures
            stable_sorted(self@.results, r@, by_score()),
    {
        crate::carver::order_carved(self.results)
    }
}

// ---------------------------------------------------------------------------
// Laws.

/// A chain of clusters never comes back to a cluster, and holds no reserved one.
pub proof fn lemma_chains_do_not_repeat(fat: Seq<u8>, cluster: u32, visited: Seq<u32>)
    ensures
        ({
            let chain = cluster_chain(fat, cluster, visited);
            &&& chain.no_duplicates()
            &&& forall|i: int|
                0 <= i < chain.len() ==> #[trigger] chain[i] >= 2 && !visited.contains(chain[i])
        }),
    decreases fat.len() / 4 - visited.len(),
{
    if cluster >= 2 && !visited.contains(cluster) {
        match table_entry(fat, cluster as int) {
            None => {},
            Some(next) => {
                if !(next >= 0x0fff_fff8 || next == 0 || visited.len() >= fat.len() / 4) {
                    let more = visited.push(cluster);
                    lemma_chains_do_not_repeat(fat, next, more);
                    let rest = cluster_chain(fat, next, more);
                    let chain = cluster_chain(fat, cluster, visited);
                    assert(chain =~= seq![cluster] + rest);
                    assert forall|i: int| 0 <= i < rest.len() implies #[trigger] rest[i] != cluster
                        && !visited.contains(rest[i]) by {
                        assert(!more.contains(rest[i]));
                        assert(more[visited.len() as int] == cluster);
                        if visited.contains(rest[i]) {
                            let k = choose|k: int| 0 <= k < visited.len() && visited[k] == rest[i];
                            assert(more[k] == rest[i]);
                        }
                    }
                    assert forall|i: int| 0 <= i < chain.len() implies #[trigger] chain[i] >= 2
                        && !visited.contains(chain[i]) by {
                        if i > 0 {
                            assert(chain[i] == rest[i - 1]);
                        }
                    }
                    assert(chain.no_duplicates()) by {
                        assert forall|i: int, j: int|
                            0 <= i < chain.len() && 0 <= j < chain.len() && i != j implies chain[i]
                            != chain[j] by {
                            if i > 0 {
                                assert(chain[i] == rest[i - 1]);
                            }
                            if j > 0 {
                                assert(chain[j] == rest[j - 1]);
                            }
                        }
                    }
                }
            },
        }
    }
}

/// A deleted file is only ever recovered from clusters that are free, one after the other.
pub proof fn lemma_recovered_clusters_are_free(
    fat: Seq<u8>,
    layout: FatLayout,
    cluster: int,
    n: int,
    i: int,
)
    requires
        0 <= i < free_runs(fat, layout, cluster, n).len(),
    ensures
        cluster_free(fat, cluster + i),
        free_runs(fat, layout, cluster, n)[i].offset == offset_of_cluster(
            layout,
            cluster + i,
        ) as u64,
    decreases n,
{
    if i > 0 {
        lemma_recovered_clusters_are_free(fat, layout, cluster + 1, n - 1, i - 1);
        assert(free_runs(fat, layout, cluster, n)[i] == free_runs(
            fat,
            layout,
            cluster + 1,
            n - 1,
        )[i - 1]);
    }
}

/// Listing what was found for a report changes nothing in what the walk gives at its end: the files
/// in the order in which they are shown, and in the order in which they were met where that ties.
pub proof fn lemma_reports_leave_the_order(
    met: Seq<ArtifactRecord>,
    list: Seq<ArtifactRecord>,
    rest: Seq<ArtifactRecord>,
    out: Seq<ArtifactRecord>,
)
    requires
        listed(met, list),
        stable_sorted(list + rest, out, by_score()),
    ensures
        stable_sorted(met + rest, out, by_score()),
{
    if met.len() % 16 == 0 {
        lemma_sorting_early_changes_nothing(met, list, rest, out, by_score());
    }
}

/// A boot sector tells where things lie: the table behind the reserved sectors, the clusters
/// behind all copies of the table, each as long as its sectors together.
pub proof fn lemma_boot_sector_reads_back(
    s: Seq<u8>,
    sector: u16,
    per_cluster: u8,
    reserved: u16,
    tables: u8,
    per_table: u32,
    root: u32,
)
    requires
        laid_at(s, 11, le_bytes(sector as int, 2)),
        laid_at(s, 13, seq![per_cluster]),
        laid_at(s, 14, le_bytes(reserved as int, 2)),
        laid_at(s, 16, seq![tables]),
        laid_at(s, 22, le_bytes(0, 2)),
        laid_at(s, 36, le_bytes(per_table as int, 4)),
        laid_at(s, 44, le_bytes(root as int, 4)),
    ensures
        ({
            let layout = boot_layout(s);
            &&& layout.root_cluster == root
            &&& layout.cluster_size == per_cluster * sector
            &&& layout.fat_offset == reserved * sector
            &&& layout.fat_length == per_table * sector
            &&& layout.data_offset == reserved * sector + tables * (per_table * sector)
        }),
{
    lemma_le16_reads_back(s, 11, sector as int);
    lemma_le16_reads_back(s, 14, reserved as int);
    lemma_le16_reads_back(s, 22, 0);
    lemma_le32_reads_back(s, 36, per_table as int);
    lemma_le32_reads_back(s, 44, root as int);
    assert(s[13int + 0] == seq![per_cluster][0]);
    assert(s[16int + 0] == seq![tables][0]);
    assert(per_cluster * sector <= 255 * 65535 && reserved * sector <= 65535 * 65535 && per_table
        * sector <= 0xffff_ffff * 65535) by (nonlinear_arith);
    let p = per_table * sector;
    assert(p * tables == tables * p && 0 <= p * tables <= 0xffff_ffff * 65535 * 255)
        by (nonlinear_arith)
        requires
            0 <= p <= 0xffff_ffff * 65535,
            0 <= tables <= 255,
    ;
}

/// Two clusters that follow each other lie side by side, and the second cluster is the first one
/// with data.
pub proof fn lemma_clusters_lie_side_by_side(layout: FatLayout, cluster: int)
    ensures
        offset_of_cluster(layout, 2) == layout.data_offset,
        offset_of_cluster(layout, cluster + 1) == offset_of_cluster(layout, cluster)
            + layout.cluster_size,
{
    assert((cluster + 1 - 2) * layout.cluster_size == (cluster - 2) * layout.cluster_size
        + layout.cluster_size) by (nonlinear_arith);
}

/// The table holds four bytes for each cluster, of which the highest four bits do not count.
pub proof fn lemma_table_reads_back(fat: Seq<u8>, cluster: int, value: u32)
    requires
        0 <= cluster,
        laid_at(fat, 4 * cluster, le_bytes(value as int, 4)),
    ensures
        table_entry(fat, cluster) == Some((value % 0x1000_0000) as u32),
        cluster_free(fat, cluster) <==> value % 0x1000_0000 == 0,
{
    reveal_with_fuel(le_bytes, 5);
    lemma_le32_reads_back(fat, 4 * cluster, value as int);
    assert(value & 0x0fff_ffffu32 == value % 0x1000_0000u32) by (bit_vector);
}

/// Each cluster of a chain is the one that the table gives for the cluster before it.
pub proof fn lemma_chains_follow_the_table(fat: Seq<u8>, cluster: u32, visited: Seq<u32>, i: int)
    requires
        0 <= i < cluster_chain(fat, cluster, visited).len(),
    ensures
        ({
            let chain = cluster_chain(fat, cluster, visited);
            &&& chain[0] == cluster
            &&& i > 0 ==> table_entry(fat, chain[i - 1] as int) == Some(chain[i])
        }),
    decreases fat.len() / 4 - visited.len(),
{
    let chain = cluster_chain(fat, cluster, visited);
    if i > 0 {
        let next = table_entry(fat, cluster as int)->0;
        let rest = cluster_chain(fat, next, visited.push(cluster));
        assert(chain =~= seq![cluster] + rest);
        lemma_chains_follow_the_table(fat, next, visited.push(cluster), i - 1);
    }
}

/// A chain of different clusters that the table links up to an end mark is followed to its end.
pub proof fn lemma_chains_are_followed_to_their_end(
    fat: Seq<u8>,
    chain: Seq<u32>,
    visited: Seq<u32>,
)
    requires
        chain.len() > 0,
        chain.no_duplicates(),
        forall|i: int| 0 <= i < chain.len() ==> #[trigger] chain[i] >= 2 && !visited.contains(chain[i]),
        forall|i: int|
            0 <= i < chain.len() - 1 ==> table_entry(fat, (#[trigger] chain[i]) as int) == Some(
                chain[i + 1],
            ) && chain[i + 1] < 0x0fff_fff8,
        table_entry(fat, chain.last() as int) matches Some(mark) && mark >= 0x0fff_fff8,
        visited.len() + chain.len() <= fat.len() / 4,
    ensures
        cluster_chain(fat, chain[0], visited) == chain,
    decreases chain.len(),
{
    if chain.len() == 1 {
        assert(chain =~= seq![chain[0]]);
    } else {
        let rest = chain.drop_first();
        let more = visited.push(chain[0]);
        assert(table_entry(fat, chain[0] as int) == Some(chain[0int + 1]));
        assert forall|i: int| 0 <= i < rest.len() implies #[trigger] rest[i] >= 2 && !more.contains(
            rest[i],
        ) by {
            assert(rest[i] == chain[i + 1]);
            assert(chain[i + 1] != chain[0]);
            if more.contains(rest[i]) {
                let k = choose|k: int| 0 <= k < more.len() && more[k] == rest[i];
                if k < visited.len() {
                    assert(visited[k] == rest[i]);
                }
            }
        }
        assert forall|i: int| 0 <= i < rest.len() - 1 implies table_entry(
            fat,
            (#[trigger] rest[i]) as int,
        ) == Some(rest[i + 1]) && rest[i + 1] < 0x0fff_fff8 by {
            assert(rest[i] == chain[i + 1]);
            assert(rest[i + 1] == chain[i + 1 + 1]);
        }
        assert(rest.no_duplicates()) by {
            assert forall|i: int, j: int| 0 <= i < rest.len() && 0 <= j < rest.len() && i != j implies rest[i]
                != rest[j] by {
                assert(rest[i] == chain[i + 1] && rest[j] == chain[j + 1]);
            }
        }
        assert(chain[0int + 1] >= 2);
        lemma_chains_are_followed_to_their_end(fat, rest, more);
        assert(seq![chain[0]] + rest =~= chain);
    }
}

/// An entry of a deleted file gives back its first cluster, in two halves, and its size.
pub proof fn lemma_deleted_entry_reads_back(
    entry: Seq<u8>,
    attributes: u8,
    high: u16,
    low: u16,
    size: u32,
)
    requires
        entry.len() == 32,
        entry[0] == 0xe5,
        laid_at(entry, 11, seq![attributes]),
        laid_at(entry, 20, le_bytes(high as int, 2)),
        laid_at(entry, 26, le_bytes(low as int, 2)),
        laid_at(entry, 28, le_bytes(size as int, 4)),
    ensures
        attributes / 8 % 2 == 0 && attributes / 16 % 2 == 0 ==> (entry_meaning(entry) matches
            EntryMeaning::Deleted { name, cluster, size: n } && cluster == high * 0x1_0000 + low && n
            == size && name.len() > 0 && name[0] == '_'),
        attributes / 8 % 2 == 1 || attributes / 16 % 2 == 1 ==> entry_meaning(entry) is Other,
{
    lemma_le16_reads_back(entry, 20, high as int);
    lemma_le16_reads_back(entry, 26, low as int);
    lemma_le32_reads_back(entry, 28, size as int);
    assert(entry[11int + 0] == seq![attributes][0]);
    assert((attributes & 8 == 8 <==> attributes / 8 % 2 == 1) && (attributes & 0x10 == 0x10
        <==> attributes / 16 % 2 == 1)) by (bit_vector);
    reveal_strlit("_");
    reveal_strlit(".");
    reveal_strlit("..");
    let name = entry_name(entry);
    assert(name.len() > 0 && name[0] == '_');
    assert("."@[0] == '.' && ".."@[0] == '.');
}

/// An entry of a directory gives back its first cluster.
pub proof fn lemma_directory_entry_reads_back(entry: Seq<u8>, high: u16, low: u16)
    requires
        entry.len() == 32,
        entry[0] != 0xe5 && entry[0] != 0,
        laid_at(entry, 11, seq![0x10u8]),
        laid_at(entry, 20, le_bytes(high as int, 2)),
        laid_at(entry, 26, le_bytes(low as int, 2)),
        high * 0x1_0000 + low >= 2,
        entry_name(entry).len() > 0 && entry_name(entry) != "."@ && entry_name(entry) != ".."@,
    ensures
        entry_meaning(entry) == (EntryMeaning::Directory {
            name: entry_name(entry),
            cluster: (high * 0x1_0000 + low) as u32,
        }),
{
    lemma_le16_reads_back(entry, 20, high as int);
    lemma_le16_reads_back(entry, 26, low as int);
    assert(entry[11int + 0] == seq![0x10u8][0]);
    assert(0x10u8 & 8 == 0 && 0x10u8 & 0x10 == 0x10) by (bit_vector);
}

/// A file gets as many clusters as its bytes fill, the last of them in part, and one at least.
pub proof fn lemma_clusters_hold_the_file(size: u64, cluster_size: u64)
    requires
        cluster_size > 0,
    ensures
        clusters_needed(size, cluster_size) >= 1,
        clusters_needed(size, cluster_size) * cluster_size >= size,
        clusters_needed(size, cluster_size) > 1 ==> (clusters_needed(size, cluster_size) - 1)
            * cluster_size < size,
{
    let n = (size + cluster_size - 1) / (cluster_size as int);
    assert(n * cluster_size <= size + cluster_size - 1 < (n + 1) * cluster_size)
        by (nonlinear_arith)
        requires
            cluster_size > 0,
            n == (size + cluster_size - 1) / (cluster_size as int),
    ;
    assert((n + 1) * cluster_size == n * cluster_size + cluster_size && (n - 1) * cluster_size == n
        * cluster_size - cluster_size) by (nonlinear_arith);
}

/// The runs of a deleted file are whole clusters side by side.
pub proof fn lemma_deleted_files_lie_in_whole_clusters(
    fat: Seq<u8>,
    layout: FatLayout,
    cluster: int,
    n: int,
)
    requires
        n >= 0,
        forall|i: int| 0 <= i < n ==> #[trigger] cluster_free(fat, cluster + i),
        cluster + n <= u32::MAX,
    ensures
        free_runs(fat, layout, cluster, n).len() == n,
        forall|i: int|
            0 <= i < n ==> (#[trigger] free_runs(fat, layout, cluster, n)[i]).length
                == layout.cluster_size && !free_runs(fat, layout, cluster, n)[i].sparse,
    decreases n,
{
    if n > 0 {
        assert(cluster_free(fat, cluster + 0));
        assert forall|i: int| 0 <= i < n - 1 implies #[trigger] cluster_free(fat, cluster + 1 + i) by {
            assert(cluster_free(fat, cluster + (i + 1)));
        }
        lemma_deleted_files_lie_in_whole_clusters(fat, layout, cluster + 1, n - 1);
        let rest = free_runs(fat, layout, cluster + 1, n - 1);
        let all = free_runs(fat, layout, cluster, n);
        assert forall|i: int| 0 <= i < n implies (#[trigger] all[i]).length == layout.cluster_size
            && !all[i].sparse by {
            if i > 0 {
                assert(all[i] == rest[i - 1]);
            }
        }
    }
}

/// The record of a deleted file says the size and the path of its entry, and its plan asks for
/// that many bytes, from its first cluster on.
pub proof fn lemma_record_shows_the_entry(
    id: Seq<char>,
    w: WalkView,
    name: Seq<char>,
    cluster: u32,
    size: u64,
)
    ensures
        ({
            let v = found_view(id, w, name, cluster, size);
            &&& v.id == id && v.name == name && v.size == size && v.deleted_entry
            &&& v.scan_id == w.scan_id && v.source_id == w.source_id
            &&& v.original_path == Some(entry_path(w.stack.last().path, name))
            &&& cluster >= 2 && cluster_free(w.fat, cluster as int) ==> (v.recovery_plan matches
                PlanView::RawRuns { source_path, runs, logical_size } && logical_size == size
                && source_path == w.device_path && v.content_source == ContentSourceKind::RawRuns
                && runs.len() > 0 && runs[0].offset == offset_of_cluster(
                w.layout,
                cluster as int,
            ) as u64 && runs[0].length == w.layout.cluster_size)
            &&& cluster < 2 || !cluster_free(w.fat, cluster as int) ==> v.recovery_plan
                is Unrecoverable && v.recoverability == Recoverability::Poor
        }),
{
    assert(clusters_needed(size, w.layout.cluster_size) >= 1);
}

} // verus!
