//! What the record of a deleted file of an NTFS volume says, told of its attributes.

use crate::bytes::{laid_at, le_bytes, lemma_le16_reads_back, lemma_le32_reads_back};
use crate::clock::{filetime_text, rfc3339_text, time_text};
use crate::model::{
    ArtifactRecord, ByteRun, ContentSourceKind, Recoverability, RecoveryPlan, ScanMode,
};
use crate::ntfs_inspect::{
    asks_for_the_stream, first_data_run, first_name, first_view, inspected_view, looked_into,
    placed_name, planned_view, prepared_view, stream_plan, InspectInput, PreparedRecord,
    PreviewState, after_read, past_holes, wanted_read,
};
use crate::ntfs_names::{
    best_candidate, lemma_best_candidate, name_context, named_candidate, names_seen, CandidateView,
    FileNameAttribute, NameContext,
};
use crate::ntfs_paths::lemma_record_number_is_low_part;
use crate::ntfs_records::{assessed, has_unnamed, largest_size, logical_size, pe_facts, refreshed};
use crate::records::{plan_view, PlanView};
use crate::recovery::{content_on_device, held_by_runs, lemma_content_has_its_size};
use crate::text::opt_view;
use crate::volume::{DataAttribute, DataRun, NtfsDataStream, VolumeBitmap};
use vstd::prelude::*;
use vstd::string::*;

verus! {

// ---------------------------------------------------------------------------
// Contents.

/// The bytes that the runs of a stream hold together.
pub open spec fn held_by_stream(runs: Seq<DataRun>) -> int
    decreases runs.len(),
{
    if runs.len() == 0 {
        0
    } else {
        (match runs[0] {
            DataRun::Data { lcn, length } => length,
            DataRun::Sparse { length } => length,
        }) + held_by_stream(runs.drop_first())
    }
}

proof fn lemma_same_bytes(held: Seq<DataRun>, runs: Seq<ByteRun>)
    requires
        runs.len() == held.len(),
        forall|k: int|
            0 <= k < runs.len() ==> match held[k] {
                DataRun::Data { lcn, length } => (#[trigger] runs[k]).length == length,
                DataRun::Sparse { length } => runs[k].length == length,
            },
    ensures
        held_by_runs(runs) == held_by_stream(held),
    decreases runs.len(),
{
    if runs.len() > 0 {
        let (h, r) = (held.drop_first(), runs.drop_first());
        assert forall|k: int| 0 <= k < r.len() implies match h[k] {
            DataRun::Data { lcn, length } => (#[trigger] r[k]).length == length,
            DataRun::Sparse { length } => r[k].length == length,
        } by {
            assert(r[k] == runs[k + 1]);
            assert(h[k] == held[k + 1]);
        }
        lemma_same_bytes(h, r);
        assert(runs[0].length == runs[0].length);
    }
}

/// The plan of a record asks for exactly as many bytes as the stream says the file has, which is
/// the size shown: where the runs hold at least that much, the recovered content has that many
/// bytes, and resident content is asked for whole.
pub proof fn lemma_plan_recovers_the_whole_file(
    prepared: PreparedRecord,
    stream: Option<NtfsDataStream>,
    device_path: Seq<char>,
    device: spec_fn(int) -> u8,
)
    requires
        asks_for_the_stream(prepared.plan, prepared.record.size, stream, device_path),
    ensures
        stream matches Some(NtfsDataStream::NonResident { logical_size: whole, runs: held }) ==> (
        prepared.plan matches RecoveryPlan::RawRuns { source_path, runs, logical_size } && {
            &&& logical_size == whole
            &&& prepared.record.size == whole
            &&& held_by_stream(held@) >= whole && (forall|k: int|
                0 <= k < held@.len() ==> match #[trigger] held@[k] {
                    DataRun::Data { lcn, length } => length > 0,
                    DataRun::Sparse { length } => length > 0,
                }) ==> content_on_device(device, runs@, logical_size).len() == whole
        }),
        stream matches Some(NtfsDataStream::Resident(bytes)) ==> (prepared.plan matches
            RecoveryPlan::ResidentBase64 { base64, logical_size } && logical_size == bytes@.len()
            && prepared.record.size == bytes@.len()),
        stream is None ==> prepared.plan is Unrecoverable,
{
    if let (
        Some(NtfsDataStream::NonResident { logical_size: whole, runs: held }),
        RecoveryPlan::RawRuns { source_path, runs, logical_size },
    ) = (stream, prepared.plan) {
        lemma_same_bytes(held@, runs@);
        if held_by_stream(held@) >= whole && (forall|k: int|
            0 <= k < held@.len() ==> match #[trigger] held@[k] {
                DataRun::Data { lcn, length } => length > 0,
                DataRun::Sparse { length } => length > 0,
            }) {
            assert forall|k: int| 0 <= k < runs@.len() implies (#[trigger] runs@[k]).length > 0 by {
                let run = held@[k];
            }
            lemma_content_has_its_size(device, runs@, whole);
        }
    }
}

/// The plan that belongs to a stream asks for the stream, whole.
pub proof fn lemma_stream_plan_asks_for_the_stream(
    stream: NtfsDataStream,
    device_path: Seq<char>,
)
    ensures
        stream matches NtfsDataStream::NonResident { logical_size: whole, runs: held } ==> (
        stream_plan(Some(stream), device_path) matches PlanView::RawRuns {
            source_path,
            runs,
            logical_size,
        } && logical_size == whole && source_path == device_path && runs.len() == held@.len()),
        stream matches NtfsDataStream::Resident(bytes) ==> (stream_plan(
            Some(stream),
            device_path,
        ) matches PlanView::ResidentBase64 { base64, logical_size } && logical_size
            == bytes@.len() as u64),
{
}

/// The record of a deleted file says how much its stream has, and where its content is.
pub proof fn lemma_record_shows_the_stream(id: Seq<char>, x: InspectInput)
    ensures
        ({
            let v = prepared_view(id, x);
            &&& v.filesystem_record == Some(x.file.number)
            &&& v.scan_id == x.scan_id && v.source_id == x.source.id@ && v.id == id
            &&& v.deleted_entry
            &&& match x.file.stream {
                Some(NtfsDataStream::Resident(bytes)) => v.size == bytes@.len() as u64
                    && v.content_source == ContentSourceKind::ResidentData && v.recoverability
                    == Recoverability::Good,
                Some(NtfsDataStream::NonResident { logical_size, runs }) => v.size == logical_size
                    && v.content_source == ContentSourceKind::RawRuns,
                None => v.content_source == ContentSourceKind::Unknown && v.recoverability
                    == Recoverability::Poor,
            }
        }),
{
}

proof fn lemma_first_data_run(runs: Seq<DataRun>, k: int)
    requires
        0 <= k < runs.len(),
        runs[k] is Data,
        forall|i: int| 0 <= i < k ==> (#[trigger] runs[i]) is Sparse,
    ensures
        first_data_run(runs) == Some((runs[k]->lcn, runs[k]->Data_length)),
    decreases runs.len(),
{
    if k > 0 {
        let rest = runs.drop_first();
        assert(runs[0] is Sparse);
        assert(rest[k - 1] == runs[k]);
        assert forall|i: int| 0 <= i < k - 1 implies (#[trigger] rest[i]) is Sparse by {
            assert(rest[i] == runs[i + 1]);
        }
        lemma_first_data_run(rest, k - 1);
    }
}

/// The place of a record on the volume is that of its first run that is no hole.
pub proof fn lemma_place_is_the_first_run_with_data(
    id: Seq<char>,
    x: InspectInput,
    size: u64,
    runs: Vec<DataRun>,
    k: int,
)
    requires
        x.file.stream == Some(NtfsDataStream::NonResident { logical_size: size, runs }),
        0 <= k < runs@.len(),
        runs@[k] is Data,
        forall|i: int| 0 <= i < k ==> (#[trigger] runs@[i]) is Sparse,
    ensures
        prepared_view(id, x).raw_offset == Some(runs@[k]->lcn),
        prepared_view(id, x).raw_length == Some(runs@[k]->Data_length),
{
    lemma_first_data_run(runs@, k);
}

/// The first bytes of a content are no reason to change its size, its times, its paths, its place
/// or its plan.
pub proof fn lemma_inspection_keeps_what_the_table_told(
    prepared: PreparedRecord,
    mode: ScanMode,
    bytes: Seq<u8>,
    captured_at: Seq<char>,
)
    ensures
        ({
            let v = planned_view(
                inspected_view(prepared, mode, bytes, captured_at),
                plan_view(prepared.plan),
            );
            let r = prepared.record;
            &&& v.id == r.id@ && v.scan_id == r.scan_id@ && v.source_id == r.source_id@
            &&& v.name == r.name@
            &&& v.size == r.size
            &&& v.original_path == opt_view(r.original_path)
            &&& v.probable_path == opt_view(r.probable_path)
            &&& v.created_at == opt_view(r.created_at)
            &&& v.modified_at == opt_view(r.modified_at)
            &&& v.deleted_at == opt_view(r.deleted_at)
            &&& v.last_metadata_change_at == opt_view(r.last_metadata_change_at)
            &&& v.parent_reference == r.parent_reference
            &&& v.filesystem_record == r.filesystem_record
            &&& v.raw_offset == r.raw_offset && v.raw_length == r.raw_length
            &&& v.recoverability == r.recoverability
            &&& v.content_source == r.content_source
            &&& v.preview_ready <==> prepared.enriched && bytes.len() > 0
            &&& r.extension is Some ==> v.extension == opt_view(r.extension)
            &&& match (prepared.plan, v.recovery_plan) {
                (
                    RecoveryPlan::RawRuns { source_path, runs, logical_size },
                    PlanView::RawRuns { source_path: p, runs: q, logical_size: n },
                ) => p == source_path@ && q == runs@ && n == logical_size,
                (
                    RecoveryPlan::ResidentBase64 { base64, logical_size },
                    PlanView::ResidentBase64 { base64: b, logical_size: n },
                ) => b == base64@ && n == logical_size,
                (RecoveryPlan::Unrecoverable { reason }, PlanView::Unrecoverable { reason: q }) => q
                    == reason@,
                _ => false,
            }
        }),
{
}

// ---------------------------------------------------------------------------
// Names and times.

/// A name that counts: that of no reparse point, and not empty.
pub open spec fn counts(attribute: FileNameAttribute) -> bool {
    !attribute.reparse_point && attribute.name@.len() > 0
}

/// What a candidate says is what its attribute says.
pub open spec fn told_by(c: CandidateView, attribute: FileNameAttribute) -> bool {
    &&& counts(attribute)
    &&& c.name == attribute.name@
    &&& c.parent_reference == attribute.parent_reference % 0x1_0000_0000_0000
    &&& c.namespace == attribute.namespace
    &&& c.created_at == filetime_text(attribute.created)
    &&& c.modified_at == filetime_text(attribute.modified)
    &&& c.last_metadata_change_at == filetime_text(attribute.changed)
}

proof fn lemma_candidates_are_told(
    ctx: NameContext,
    cache: Map<u64, Seq<char>>,
    attributes: Seq<FileNameAttribute>,
)
    ensures
        forall|i: int|
            0 <= i < names_seen(ctx, cache, attributes).1.len() ==> exists|k: int|
                0 <= k < attributes.len() && told_by(
                    #[trigger] names_seen(ctx, cache, attributes).1[i],
                    #[trigger] attributes[k],
                ),
        (exists|k: int| 0 <= k < attributes.len() && counts(#[trigger] attributes[k]))
            <==> names_seen(ctx, cache, attributes).1.len() > 0,
    decreases attributes.len(),
{
    if attributes.len() > 0 {
        let front = attributes.drop_last();
        let last = attributes.last();
        lemma_candidates_are_told(ctx, cache, front);
        let (known, before) = names_seen(ctx, cache, front);
        let list = names_seen(ctx, cache, attributes).1;
        lemma_record_number_is_low_part(last.parent_reference);
        assert forall|i: int| 0 <= i < list.len() implies exists|k: int|
            0 <= k < attributes.len() && told_by(#[trigger] list[i], #[trigger] attributes[k]) by {
            if i < before.len() {
                assert(list[i] == before[i]);
                let k = choose|k: int|
                    0 <= k < front.len() && told_by(before[i], #[trigger] front[k]);
                assert(attributes[k] == front[k]);
            } else {
                assert(list[i] == named_candidate(ctx, known, last));
                assert(told_by(list[i], attributes[attributes.len() - 1]));
            }
        }
        if exists|k: int| 0 <= k < attributes.len() && counts(#[trigger] attributes[k]) {
            let k = choose|k: int| 0 <= k < attributes.len() && counts(#[trigger] attributes[k]);
            if k < front.len() {
                assert(counts(front[k]));
            }
        }
        if list.len() > 0 {
            if before.len() > 0 {
                let k = choose|k: int| 0 <= k < front.len() && counts(#[trigger] front[k]);
                assert(counts(attributes[k]));
            } else {
                assert(counts(attributes[attributes.len() - 1]));
            }
        }
    }
}

/// The record of a file with a name that counts is under one of its names, and says the
/// directory and the times of that very name: when the file was made where the name says made,
/// when it was written where it says written, when its metadata changed where it says changed.
/// Times of the standard information go before those of the name.
pub proof fn lemma_record_is_told_by_a_name(id: Seq<char>, x: InspectInput)
    requires
        exists|k: int| 0 <= k < x.file.named.names@.len() && counts(#[trigger] x.file.named.names@[k]),
    ensures
        exists|k: int|
            {
                let names = x.file.named.names@;
                let v = prepared_view(id, x);
                &&& 0 <= k < names.len()
                &&& counts(#[trigger] x.file.named.names@[k])
                &&& v.name == names[k].name@
                &&& v.parent_reference == if names[k].parent_reference % 0x1_0000_0000_0000 != 0 {
                    Some((names[k].parent_reference % 0x1_0000_0000_0000) as u64)
                } else {
                    None
                }
                &&& !looked_into(id, x) ==> v.created_at == filetime_text(names[k].created)
                    && v.modified_at == filetime_text(names[k].modified)
                &&& looked_into(id, x) && time_text(x.file.info_created) is None && filetime_text(
                    names[k].created,
                ) is Some ==> v.created_at == filetime_text(names[k].created)
                &&& looked_into(id, x) && time_text(x.file.info_modified) is None && filetime_text(
                    names[k].modified,
                ) is Some ==> v.modified_at == filetime_text(names[k].modified)
                &&& filetime_text(names[k].changed) is Some ==> v.last_metadata_change_at
                    == filetime_text(names[k].changed)
            },
        looked_into(id, x) && time_text(x.file.info_created) is Some ==> prepared_view(
            id,
            x,
        ).created_at == time_text(x.file.info_created),
        looked_into(id, x) && time_text(x.file.info_modified) is Some ==> prepared_view(
            id,
            x,
        ).modified_at == time_text(x.file.info_modified),
{
    let names = x.file.named.names@;
    let cheap = name_context(
        x.mft,
        x.source.device_path@,
        opt_view(x.source.mount_point),
        x.file.named.reference,
        false,
    );
    let full = name_context(
        x.mft,
        x.source.device_path@,
        opt_view(x.source.mount_point),
        x.file.named.reference,
        true,
    );
    lemma_candidates_are_told(cheap, x.cache, names);
    lemma_candidates_are_told(full, x.cache, names);
    let list = names_seen(cheap, x.cache, names).1;
    lemma_best_candidate(list, crate::model::ArtifactKind::Unknown);
    let kept = names_seen(full, x.cache, names).1;
    lemma_best_candidate(kept, first_view(id, x).kind);
    if looked_into(id, x) {
        let i = best_candidate(kept, first_view(id, x).kind);
        assert(placed_name(id, x) == kept[i]);
        let k = choose|k: int| 0 <= k < names.len() && told_by(kept[i], #[trigger] names[k]);
        assert(counts(names[k]));
    } else {
        let i = best_candidate(list, crate::model::ArtifactKind::Unknown);
        assert(first_name(x) == list[i]);
        let k = choose|k: int| 0 <= k < names.len() && told_by(list[i], #[trigger] names[k]);
        assert(counts(names[k]));
    }
}

// ---------------------------------------------------------------------------
// Sizes and recoverability.

proof fn lemma_largest_size(attributes: Seq<DataAttribute>, named: bool)
    ensures
        forall|i: int|
            0 <= i < attributes.len() && (#[trigger] attributes[i]).named == named
                ==> attributes[i].size <= largest_size(attributes, named),
        largest_size(attributes, named) == 0 || exists|i: int|
            0 <= i < attributes.len() && (#[trigger] attributes[i]).named == named
                && attributes[i].size == largest_size(attributes, named),
    decreases attributes.len(),
{
    if attributes.len() > 0 {
        let front = attributes.drop_last();
        lemma_largest_size(front, named);
        assert forall|i: int|
            0 <= i < attributes.len() && (#[trigger] attributes[i]).named == named implies attributes[i].size
            <= largest_size(attributes, named) by {
            if i < front.len() {
                assert(front[i] == attributes[i]);
            }
        }
        if largest_size(attributes, named) != 0 {
            if largest_size(attributes, named) == largest_size(front, named) {
                let i = choose|i: int|
                    0 <= i < front.len() && (#[trigger] front[i]).named == named && front[i].size
                        == largest_size(front, named);
                assert(attributes[i] == front[i]);
            } else {
                assert(attributes[attributes.len() - 1].size == largest_size(attributes, named));
            }
        }
    }
}

/// The size of a file is the largest of its unnamed data; only where it has none, the largest of
/// its named streams.
pub proof fn lemma_size_is_that_of_the_main_data(attributes: Seq<DataAttribute>)
    ensures
        ({
            let named = forall|i: int|
                0 <= i < attributes.len() ==> (#[trigger] attributes[i]).named;
            &&& forall|i: int|
                0 <= i < attributes.len() && (#[trigger] attributes[i]).named == named
                    ==> attributes[i].size <= logical_size(attributes)
            &&& logical_size(attributes) == 0 || exists|i: int|
                0 <= i < attributes.len() && (#[trigger] attributes[i]).named == named
                    && attributes[i].size == logical_size(attributes)
        }),
{
    lemma_largest_size(attributes, true);
    lemma_largest_size(attributes, false);
    if has_unnamed(attributes) {
        let i = choose|i: int| 0 <= i < attributes.len() && !(#[trigger] attributes[i]).named;
        assert(!attributes[i].named);
    }
}

/// Holding the runs of a record against the free space changes how much of it can be had, by
/// what its plan reads, and nothing else.
pub proof fn lemma_refreshing_changes_recoverability_alone(
    bitmap: VolumeBitmap,
    record: ArtifactRecord,
)
    ensures
        ({
            let r = refreshed(bitmap, record);
            &&& r == (ArtifactRecord { recoverability: r.recoverability, ..record })
            &&& record.recovery_plan matches RecoveryPlan::RawRuns { source_path, runs, logical_size }
                ==> r.recoverability == assessed(Some(bitmap), runs@)
            &&& !(record.recovery_plan is RawRuns) ==> r.recoverability == record.recoverability
        }),
{
}

// ---------------------------------------------------------------------------
// Previews.

/// A preview of a PE image tells the processor, the compile time and the number of sections that
/// stand in its header behind the signature.
pub proof fn lemma_preview_reads_the_header(
    s: Seq<u8>,
    header: u32,
    machine: u16,
    sections: u16,
    seconds: u32,
)
    requires
        s.len() >= 0x40,
        laid_at(s, 0x3c, le_bytes(header as int, 4)),
        laid_at(s, header as int, seq![0x50u8, 0x45, 0, 0]),
        laid_at(s, header + 4, le_bytes(machine as int, 2)),
        laid_at(s, header + 6, le_bytes(sections as int, 2)),
        laid_at(s, header + 8, le_bytes(seconds as int, 4)),
        header + 24 <= s.len(),
    ensures
        match rfc3339_text((seconds * 1_000_000_000) as i128) {
            Some(time) => pe_facts(s) matches Some((m, t, n)) && t == time && n == sections && (
            machine == 0x014c ==> m == "x86"@) && (machine == 0x8664 ==> m == "x64"@) && (machine
                == 0xaa64 ==> m == "ARM64"@) && (machine == 0x01c4 ==> m == "ARM"@),
            None => pe_facts(s) is None,
        },
{
    lemma_le32_reads_back(s, 0x3c, header as int);
    lemma_le16_reads_back(s, header + 4, machine as int);
    lemma_le16_reads_back(s, header + 6, sections as int);
    lemma_le32_reads_back(s, header + 8, seconds as int);
    assert(s.subrange(header as int, header + 4) =~= seq![0x50u8, 0x45, 0, 0]);
}

/// Reading the first bytes of a content: what was read and what is missing make up what was
/// asked for, bytes come from the place of the run in front, and holes are zeros.
pub proof fn lemma_preview_reads_on(s: PreviewState, got: Seq<u8>)
    ensures
        s.missing > 0 && s.runs.len() > 0 ==> match s.runs[0] {
            DataRun::Data { lcn, length } => {
                &&& past_holes(s) == s
                &&& wanted_read(s) matches Some((offset, n)) && offset == lcn && n <= length && n
                    <= s.missing && (n == length || n == s.missing)
            },
            DataRun::Sparse { length } => wanted_read(s) is None,
        },
        s.missing == 0 ==> past_holes(s) == s && wanted_read(s) is None,
        got.len() <= s.missing ==> after_read(s, got).missing + after_read(s, got).bytes.len()
            == s.missing + s.bytes.len(),
        after_read(s, got).bytes == s.bytes + got,
{
}

} // verus!
