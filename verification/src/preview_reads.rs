//! Where the bytes of a preview come from, and what is said where they cannot be had.

use crate::bytes::{occurs_in, slice_to_vec};
use crate::codec::{base64_bytes, decode_base64};
use crate::kinds::infer_artifact_kind;
use crate::model::{
    message_of, ArtifactKind, ArtifactRecord, ByteRun, FileSystemKind, PreviewFact, RecoveryPlan,
    RssError, ScanSource, SourceAccessState, SourceEntry,
};
use crate::numbers::{decimal, decimal_string, hex_string, hexadecimal, push_decimal, zero_padded};
use crate::records::{fact, fact_views, FactView};
use crate::text::{
    ascii_lower, concat2, concat3, eq_ignore_ascii_case, has_substring, opt_view, owned,
    to_ascii_lowercase,
};
use crate::volume::{
    assembled, data_window, plan_data_window, read_ntfs_data_window, read_view, read_views,
    DataRun, WindowPiece,
};
use vstd::prelude::*;
use vstd::string::*;

verus! {

// ---------------------------------------------------------------------------
// Deleted files.

/// A run of a recovery plan as a run of a file.
pub open spec fn data_run(run: ByteRun) -> DataRun {
    if run.sparse {
        DataRun::Sparse { length: run.length }
    } else {
        DataRun::Data { lcn: run.offset, length: run.length }
    }
}

pub open spec fn data_runs(runs: Seq<ByteRun>) -> Seq<DataRun> {
    runs.map_values(|run: ByteRun| data_run(run))
}

fn data_runs_of(runs: &Vec<ByteRun>) -> (r: Vec<DataRun>)
    ensures
        r@ == data_runs(runs@),
{
    let mut out: Vec<DataRun> = Vec::new();
    let mut i: usize = 0;
    while i < runs.len()
        invariant
            i <= runs@.len(),
            out@ == data_runs(runs@).subrange(0, i as int),
        decreases runs@.len() - i,
    {
        let run = &runs[i];
        if run.sparse {
            out.push(DataRun::Sparse { length: run.length });
        } else {
            out.push(DataRun::Data { lcn: run.offset, length: run.length });
        }
        assert(out@ =~= data_runs(runs@).subrange(0, i + 1));
        i += 1;
    }
    assert(out@ =~= data_runs(runs@));
    out
}

/// How a range of a deleted file is had: at once, or from reads of its volume.
#[derive(Debug)]
pub enum ArtifactRead {
    Ready(Result<Vec<u8>, RssError>),
    Pieces(Vec<WindowPiece>),
}

/// What a read gives: bytes, or the words of a refusal.
pub open spec fn bytes_result(r: Result<Vec<u8>, RssError>) -> Result<Seq<u8>, Seq<char>> {
    match r {
        Ok(bytes) => Ok(bytes@),
        Err(e) => Err(message_of(e)),
    }
}

/// The bytes of stored data from `offset` on; none where the stored data are too short.
pub open spec fn stored_range(bytes: Seq<u8>, logical_size: u64, offset: u64, length: u64) -> Seq<
    u8,
> {
    let start = if offset < logical_size {
        offset as int
    } else {
        logical_size as int
    };
    let end = if offset + length < logical_size {
        offset + length
    } else {
        logical_size as int
    };
    if start <= end && end <= bytes.len() {
        bytes.subrange(start, end)
    } else {
        seq![]
    }
}

/// What a range of a deleted file is without reading a volume.
pub open spec fn held_range(plan: RecoveryPlan, offset: u64, length: u64) -> Option<
    Result<Seq<u8>, Seq<char>>,
> {
    if length == 0 {
        Some(Ok(seq![]))
    } else {
        match plan {
            RecoveryPlan::ResidentBase64 { base64, logical_size } => match base64_bytes(base64@) {
                Some(bytes) => Some(Ok(stored_range(bytes, logical_size, offset, length))),
                None => Some(Err("Resident preview data could not be decoded"@)),
            },
            RecoveryPlan::RawRuns { source_path, runs, logical_size } => None,
            RecoveryPlan::Unrecoverable { reason } => Some(Err(reason@)),
        }
    }
}

/// The pieces of the volume that hold a range of a deleted file.
pub open spec fn range_pieces(plan: RecoveryPlan, offset: u64, length: u64) -> Seq<WindowPiece> {
    match plan {
        RecoveryPlan::RawRuns { source_path, runs, logical_size } => data_window(
            data_runs(runs@),
            logical_size,
            offset,
            length,
        ),
        _ => seq![],
    }
}

/// A range of stored data.
pub fn stored_range_of(bytes: &Vec<u8>, logical_size: u64, offset: u64, length: u64) -> (r: Vec<u8>)
    ensures
        r@ == stored_range(bytes@, logical_size, offset, length),
{
    let start: u64 = if offset < logical_size {
        offset
    } else {
        logical_size
    };
    let wanted: u64 = offset.saturating_add(length);
    let end: u64 = if wanted < logical_size {
        wanted
    } else {
        logical_size
    };
    if start <= end && end <= bytes.len() as u64 {
        slice_to_vec(bytes.as_slice(), start as usize, end as usize)
    } else {
        let none: Vec<u8> = Vec::new();
        assert(none@ =~= seq![]);
        none
    }
}

/// How a range of a deleted file is to be had.
pub fn plan_artifact_read(artifact: &ArtifactRecord, offset: u64, length: u64) -> (r: ArtifactRead)
    ensures
        match r {
            ArtifactRead::Ready(result) => held_range(artifact.recovery_plan, offset, length)
                == Some(bytes_result(result)),
            ArtifactRead::Pieces(pieces) => held_range(
                artifact.recovery_plan,
                offset,
                length,
            ) is None && pieces@ == range_pieces(artifact.recovery_plan, offset, length),
        },
{
    if length == 0 {
        let none: Vec<u8> = Vec::new();
        assert(none@ =~= seq![]);
        return ArtifactRead::Ready(Ok(none));
    }
    match &artifact.recovery_plan {
        RecoveryPlan::ResidentBase64 { base64, logical_size } => match decode_base64(
            base64.as_str(),
        ) {
            Some(bytes) => ArtifactRead::Ready(
                Ok(stored_range_of(&bytes, *logical_size, offset, length)),
            ),
            None => ArtifactRead::Ready(
                Err(RssError::Message(owned("Resident preview data could not be decoded"))),
            ),
        },
        RecoveryPlan::RawRuns { source_path: _, runs, logical_size } => {
            let list = data_runs_of(runs);
            ArtifactRead::Pieces(plan_data_window(&list, *logical_size, offset, length))
        },
        RecoveryPlan::Unrecoverable { reason } => ArtifactRead::Ready(
            Err(RssError::Message(reason.clone())),
        ),
    }
}

/// How many bytes the read was to give that made a window fail: that of the first piece from
/// the `i`-th on whose read, from the `k`-th on, failed.
pub open spec fn failed_length(
    pieces: Seq<WindowPiece>,
    i: int,
    reads: Seq<Option<Seq<u8>>>,
    k: int,
) -> u64
    decreases pieces.len() - i,
{
    if i < 0 || i >= pieces.len() {
        0
    } else {
        match pieces[i] {
            WindowPiece::Zeros { length } => failed_length(pieces, i + 1, reads, k),
            WindowPiece::Read { offset, length } => if k < reads.len() && reads[k] is Some {
                failed_length(pieces, i + 1, reads, k + 1)
            } else {
                length
            },
        }
    }
}

fn failed_length_of(pieces: &Vec<WindowPiece>, reads: &Vec<Option<Vec<u8>>>) -> (r: u64)
    ensures
        r == failed_length(pieces@, 0, read_views(reads@), 0),
{
    let mut i: usize = 0;
    let mut k: usize = 0;
    while i < pieces.len()
        invariant
            i <= pieces@.len(),
            k <= reads@.len(),
            failed_length(pieces@, 0, read_views(reads@), 0) == failed_length(
                pieces@,
                i as int,
                read_views(reads@),
                k as int,
            ),
        decreases pieces@.len() - i,
    {
        if let WindowPiece::Read { offset: _, length } = pieces[i] {
            if k >= reads.len() {
                return length;
            }
            assert(read_views(reads@)[k as int] == read_view(reads@[k as int]));
            if reads[k].is_none() {
                return length;
            }
            k += 1;
        }
        i += 1;
    }
    0
}

pub open spec fn plan_source(plan: RecoveryPlan) -> Seq<char> {
    match plan {
        RecoveryPlan::RawRuns { source_path, runs, logical_size } => source_path@,
        _ => ""@,
    }
}

/// A range of a deleted file, from the outcomes of the reads of its pieces.
pub open spec fn artifact_range(
    plan: RecoveryPlan,
    offset: u64,
    length: u64,
    reads: Seq<Option<Seq<u8>>>,
) -> Result<Seq<u8>, Seq<char>> {
    match held_range(plan, offset, length) {
        Some(result) => result,
        None => {
            let pieces = range_pieces(plan, offset, length);
            match assembled(pieces, 0, reads, 0, seq![]) {
                Some(bytes) => Ok(bytes),
                None => Err(
                    "Failed to read "@ + decimal(failed_length(pieces, 0, reads, 0) as nat)
                        + " preview bytes from "@ + plan_source(plan),
                ),
            }
        },
    }
}

fn read_failure(length: u64, source: &str) -> (r: RssError)
    ensures
        message_of(r) == "Failed to read "@ + decimal(length as nat) + " preview bytes from "@
            + source@,
{
    let mut message = owned("Failed to read ");
    push_decimal(&mut message, length);
    message.append(" preview bytes from ");
    message.append(source);
    RssError::Message(message)
}

/// A range of a deleted file. The reads are those of the pieces that lie on the volume, up to
/// the first that failed; a file whose bytes are held needs none.
pub fn read_artifact_range(
    artifact: &ArtifactRecord,
    offset: u64,
    length: u64,
    reads: &Vec<Option<Vec<u8>>>,
) -> (r: Result<Vec<u8>, RssError>)
    ensures
        bytes_result(r) == artifact_range(
            artifact.recovery_plan,
            offset,
            length,
            read_views(reads@),
        ),
{
    match plan_artifact_read(artifact, offset, length) {
        ArtifactRead::Ready(result) => result,
        ArtifactRead::Pieces(pieces) => match read_ntfs_data_window(&pieces, reads) {
            Some(bytes) => Ok(bytes),
            None => {
                let failed: u64 = failed_length_of(&pieces, reads);
                match &artifact.recovery_plan {
                    RecoveryPlan::RawRuns { source_path, runs: _, logical_size: _ } => Err(
                        read_failure(failed, source_path.as_str()),
                    ),
                    _ => Err(read_failure(failed, "")),
                }
            },
        },
    }
}

/// A budget that a file exceeds.
pub open spec fn over_budget(what: Seq<char>, size: u64, use_of: Seq<char>, limit: u64) -> Seq<
    char,
> {
    what + decimal(size as nat) + " bytes, which exceeds the "@ + use_of + " budget of "@ + decimal(
        limit as nat,
    ) + " bytes"@
}

pub(crate) fn over_budget_of(what: &str, size: u64, use_of: &str, limit: u64) -> (r: String)
    ensures
        r@ == over_budget(what@, size, use_of@, limit),
{
    let mut message = owned(what);
    push_decimal(&mut message, size);
    message.append(" bytes, which exceeds the ");
    message.append(use_of);
    message.append(" budget of ");
    push_decimal(&mut message, limit);
    message.append(" bytes");
    message
}

/// The whole of a deleted file, where it is within the limit.
pub fn materialize_artifact_bytes(
    artifact: &ArtifactRecord,
    limit: u64,
    reads: &Vec<Option<Vec<u8>>>,
) -> (r: Result<Vec<u8>, RssError>)
    ensures
        bytes_result(r) == if artifact.size > limit {
            Err(over_budget("Artifact is "@, artifact.size, "preview"@, limit))
        } else {
            artifact_range(artifact.recovery_plan, 0, artifact.size, read_views(reads@))
        },
{
    if artifact.size > limit {
        return Err(
            RssError::Message(over_budget_of("Artifact is ", artifact.size, "preview", limit)),
        );
    }
    read_artifact_range(artifact, 0, artifact.size, reads)
}

/// A file that is held whole is read whole: what a resident plan stores comes back.
pub proof fn lemma_resident_file_comes_back(plan: RecoveryPlan, bytes: Seq<u8>)
    requires
        plan matches RecoveryPlan::ResidentBase64 { base64, logical_size } && base64_bytes(base64@)
            == Some(bytes) && logical_size == bytes.len() && bytes.len() > 0,
    ensures
        held_range(plan, 0, bytes.len() as u64) == Some(Ok::<Seq<u8>, Seq<char>>(bytes)),
{
    assert(bytes.subrange(0, bytes.len() as int) =~= bytes);
}

// ---------------------------------------------------------------------------
// Live files.

pub open spec fn swap_name(name: Seq<char>) -> bool {
    let lower = ascii_lower(name);
    lower == "swapfile.sys"@ || lower == "pagefile.sys"@ || lower == "hiberfil.sys"@
}

/// A file that backs the memory of the system.
pub fn is_virtual_memory_backed_system_file(entry: &SourceEntry) -> (r: bool)
    ensures
        r == swap_name(entry.name@),
{
    let name = to_ascii_lowercase(entry.name.as_str());
    *name.as_str() == *"swapfile.sys" || *name.as_str() == *"pagefile.sys" || *name.as_str()
        == *"hiberfil.sys"
}

pub open spec fn system_extension(extension: Option<Seq<char>>) -> bool {
    match extension {
        Some(e) => {
            let lower = ascii_lower(e);
            lower == "sys"@ || lower == "dll"@ || lower == "exe"@ || lower == "mui"@ || lower
                == "cat"@ || lower == "ocx"@ || lower == "cpl"@
        },
        None => false,
    }
}

fn has_system_extension(extension: &Option<String>) -> (r: bool)
    ensures
        r == system_extension(opt_view(*extension)),
{
    match extension {
        Some(e) => {
            let lower = to_ascii_lowercase(e.as_str());
            let s = lower.as_str();
            *s == *"sys" || *s == *"dll" || *s == *"exe" || *s == *"mui" || *s == *"cat" || *s
                == *"ocx" || *s == *"cpl"
        },
        None => false,
    }
}

/// A file whose record is read before its path.
pub open spec fn prefers_record(source: ScanSource, entry: SourceEntry) -> bool {
    source.filesystem == FileSystemKind::Ntfs && entry.mft_reference is Some && (entry.access_state
        == SourceAccessState::Denied || entry.system || system_extension(
        opt_view(entry.extension),
    ))
}

pub fn should_prefer_ntfs_record_read(source: &ScanSource, entry: &SourceEntry) -> (r: bool)
    ensures
        r == prefers_record(*source, *entry),
{
    source.filesystem == FileSystemKind::Ntfs && entry.mft_reference.is_some() && (
    entry.access_state == SourceAccessState::Denied || entry.system || has_system_extension(
        &entry.extension,
    ))
}

pub open spec fn large_or_protected(entry: SourceEntry) -> bool {
    swap_name(entry.name@) || entry.size >= 4294967296 || entry.access_state
        == SourceAccessState::Denied
}

pub fn should_force_chunked_hex_preview(entry: &SourceEntry) -> (r: bool)
    ensures
        r == large_or_protected(*entry),
{
    is_virtual_memory_backed_system_file(entry) || entry.size >= 4294967296 || entry.access_state
        == SourceAccessState::Denied
}

pub open spec fn never_read(entry: SourceEntry) -> bool {
    swap_name(entry.name@) || entry.access_state == SourceAccessState::Denied
}

pub fn should_skip_live_byte_preview(entry: &SourceEntry) -> (r: bool)
    ensures
        r == never_read(*entry),
{
    is_virtual_memory_backed_system_file(entry) || entry.access_state == SourceAccessState::Denied
}

pub fn should_skip_live_signature_inspection(entry: &SourceEntry) -> (r: bool)
    ensures
        r == never_read(*entry),
{
    should_skip_live_byte_preview(entry)
}

pub open spec fn system_file(entry: SourceEntry) -> bool {
    (entry.extension matches Some(e) && ascii_lower(e@) == ascii_lower("sys"@)) || entry.system
}

fn is_system_file(entry: &SourceEntry) -> (r: bool)
    ensures
        r == system_file(*entry),
{
    (match &entry.extension {
        Some(e) => eq_ignore_ascii_case(e.as_str(), "sys"),
        None => false,
    }) || entry.system
}

/// Why a live file cannot be opened.
pub open spec fn open_failure(entry: SourceEntry) -> Seq<char> {
    if entry.access_state == SourceAccessState::Denied {
        "Access denied for "@ + entry.path@
            + ". Preview bytes are unavailable for this live file."@
    } else if swap_name(entry.name@) {
        "Protected virtual-memory file "@ + entry.path@
            + " is not previewed directly. Showing metadata only."@
    } else if system_file(entry) {
        "Live system file "@ + entry.path@
            + " is locked or protected. Preview bytes are unavailable."@
    } else {
        "Unable to open "@ + entry.path@
    }
}

pub fn describe_live_entry_open_failure(entry: &SourceEntry) -> (r: String)
    ensures
        r@ == open_failure(*entry),
{
    if entry.access_state == SourceAccessState::Denied {
        return concat3(
            "Access denied for ",
            entry.path.as_str(),
            ". Preview bytes are unavailable for this live file.",
        );
    }
    if is_virtual_memory_backed_system_file(entry) {
        return concat3(
            "Protected virtual-memory file ",
            entry.path.as_str(),
            " is not previewed directly. Showing metadata only.",
        );
    }
    if is_system_file(entry) {
        return concat3(
            "Live system file ",
            entry.path.as_str(),
            " is locked or protected. Preview bytes are unavailable.",
        );
    }
    concat2("Unable to open ", entry.path.as_str())
}

/// The words of a refused access.
pub open spec fn says_denied(message: Seq<char>) -> bool {
    let lower = ascii_lower(message);
    occurs_in(lower, "access is denied"@) || occurs_in(lower, "access denied"@) || occurs_in(
        lower,
        "sharing violation"@,
    )
}

/// What is said where a live file could not be read.
pub open spec fn read_error(entry: SourceEntry, message: Seq<char>) -> Seq<char> {
    if says_denied(message) {
        open_failure(entry)
    } else if swap_name(entry.name@) {
        "Protected virtual-memory file "@ + entry.path@
            + " skips byte preview to keep the UI responsive."@
    } else if system_file(entry) {
        "Live system file "@ + entry.path@
            + " could not be read safely. Showing metadata only."@
    } else {
        "Preview bytes are unavailable for "@ + entry.path@ + "."@
    }
}

pub fn describe_live_entry_read_error(entry: &SourceEntry, message: &str) -> (r: String)
    ensures
        r@ == read_error(*entry, message@),
{
    let lower = to_ascii_lowercase(message);
    if has_substring(lower.as_str(), "access is denied") || has_substring(
        lower.as_str(),
        "access denied",
    ) || has_substring(lower.as_str(), "sharing violation") {
        return describe_live_entry_open_failure(entry);
    }
    if is_virtual_memory_backed_system_file(entry) {
        return concat3(
            "Protected virtual-memory file ",
            entry.path.as_str(),
            " skips byte preview to keep the UI responsive.",
        );
    }
    if is_system_file(entry) {
        return concat3(
            "Live system file ",
            entry.path.as_str(),
            " could not be read safely. Showing metadata only.",
        );
    }
    concat3("Preview bytes are unavailable for ", entry.path.as_str(), ".")
}

/// In which order the bytes of a live file are tried.
#[derive(Debug)]
pub struct LiveReadOrder {
    pub record_first: Option<u64>,
    pub by_path: bool,
    pub record_last: Option<u64>,
}

/// How the bytes of a live file are to be read; refused where they never are.
pub fn plan_live_read(source: &ScanSource, entry: &SourceEntry) -> (r: Result<
    LiveReadOrder,
    RssError,
>)
    ensures
        match r {
            Ok(order) => {
                &&& !never_read(*entry)
                &&& order.record_first == if prefers_record(*source, *entry) {
                    entry.mft_reference
                } else {
                    None
                }
                &&& order.by_path == (entry.access_state != SourceAccessState::Denied)
                &&& order.record_last == if source.filesystem == FileSystemKind::Ntfs {
                    entry.mft_reference
                } else {
                    None
                }
            },
            Err(e) => never_read(*entry) && message_of(e) == open_failure(*entry),
        },
{
    if should_skip_live_byte_preview(entry) {
        return Err(RssError::Message(describe_live_entry_open_failure(entry)));
    }
    Ok(
        LiveReadOrder {
            record_first: if should_prefer_ntfs_record_read(source, entry) {
                entry.mft_reference
            } else {
                None
            },
            by_path: entry.access_state != SourceAccessState::Denied,
            record_last: if source.filesystem == FileSystemKind::Ntfs {
                entry.mft_reference
            } else {
                None
            },
        },
    )
}

/// What is reported where every way to read a live file failed; `record_failed` tells that
/// reading its record was tried first and failed.
pub fn live_read_failure(entry: &SourceEntry, record_failed: bool) -> (r: RssError)
    ensures
        message_of(r) == if record_failed {
            "Unable to preview "@ + entry.path@
        } else {
            open_failure(*entry)
        },
{
    if record_failed {
        RssError::Message(concat2("Unable to preview ", entry.path.as_str()))
    } else {
        RssError::Message(describe_live_entry_open_failure(entry))
    }
}

/// Whether the whole of a live file is within a limit.
pub fn check_source_budget(entry: &SourceEntry, limit: u64) -> (r: Result<(), RssError>)
    ensures
        match r {
            Ok(_) => entry.size <= limit,
            Err(e) => entry.size > limit && message_of(e) == over_budget(
                "Item is "@,
                entry.size,
                "preview"@,
                limit,
            ),
        },
{
    if entry.size > limit {
        Err(RssError::Message(over_budget_of("Item is ", entry.size, "preview", limit)))
    } else {
        Ok(())
    }
}

/// What is known of an entry without reading it.
pub open spec fn entry_facts(entry: SourceEntry) -> Seq<FactView> {
    let base = seq![
        fact("Path"@, entry.path@),
        fact(
            "Type"@,
            if entry.is_directory {
                "directory"@
            } else {
                match opt_view(entry.extension) {
                    Some(e) => e,
                    None => "file"@,
                }
            },
        ),
        fact("Size"@, decimal(entry.size as nat)),
    ];
    match entry.attr_bits {
        Some(bits) => base.push(
            fact("ATTR"@, "0x"@ + zero_padded(hexadecimal(bits as nat, false), 4)),
        ),
        None => base,
    }
}

fn fact_of(label: &str, value: String) -> (r: PreviewFact)
    ensures
        r.label@ == label@,
        r.value == value,
{
    PreviewFact { label: owned(label), value }
}

pub fn source_entry_summary(entry: &SourceEntry) -> (r: Vec<PreviewFact>)
    ensures
        fact_views(r@) == entry_facts(*entry),
{
    let mut summary: Vec<PreviewFact> = Vec::new();
    summary.push(fact_of("Path", entry.path.clone()));
    let kind: String = if entry.is_directory {
        owned("directory")
    } else {
        match &entry.extension {
            Some(e) => e.clone(),
            None => owned("file"),
        }
    };
    summary.push(fact_of("Type", kind));
    summary.push(fact_of("Size", decimal_string(entry.size)));
    if let Some(bits) = entry.attr_bits {
        let digits = hex_string(bits as u64, false, 4);
        summary.push(fact_of("ATTR", concat2("0x", digits.as_str())));
    }
    assert(fact_views(summary@) =~= entry_facts(*entry));
    summary
}

/// The kind of a live entry, by its name.
pub fn entry_kind(entry: &SourceEntry) -> (r: ArtifactKind)
    ensures
        r == entry_kind_of(*entry),
{
    if entry.is_directory {
        ArtifactKind::Unknown
    } else {
        infer_artifact_kind(entry.name.as_str(), None)
    }
}

pub open spec fn entry_kind_of(entry: SourceEntry) -> ArtifactKind {
    if entry.is_directory {
        ArtifactKind::Unknown
    } else {
        crate::kinds::inferred_kind(entry.name@, None)
    }
}

} // verus!
