//! What carving finds and what its records say, told of places on the volume.

use crate::bytes::{laid_at, le_bytes, lemma_le16_reads_back, lemma_le32_reads_back, occurs_at};
use crate::carver::{
    by_score, candidate_runs, carve_runs, carved_name, estimate, extent_end, extents_sorted, hit_of,
    is_carved_record, lemma_starts_upto, lemma_total_length_concat, lemma_total_length_one,
    new_hits, plausible, runs_from, seen_after, signature_marks, total_length, CarveChunk,
    CarveEstimate, CarvePass,
};
use crate::model::{
    family_of, family_score, ArtifactKind, ArtifactRecord, ByteRun, Confidence, ContentSourceKind,
    Recoverability, RecoveryPlan, ScanSource,
};
use crate::numbers::{decimal, hexadecimal};
use crate::recovery::{content_on_device, held_by_runs, lemma_content_has_its_size};
use crate::size_laws::{is_pe_layout, RawSection};
use crate::sizes::{
    cab_size, gif_size, jpeg_size, pdf_size, pe_size, png_size, rar_size, seven_zip_size, zip_size,
};
use crate::sort::{lemma_stable_sorted_keeps_items, stable_sorted, strict_weak_order};
use vstd::prelude::*;
use vstd::string::*;

verus! {

// ---------------------------------------------------------------------------
// Runs.

/// A file that lies in one free extent is one run there, from its start, of its size.
pub proof fn lemma_file_in_one_extent_is_one_run(
    start: u64,
    size: u64,
    extents: Seq<ByteRun>,
    k: int,
)
    requires
        extents_sorted(extents),
        0 <= k < extents.len(),
        !extents[k].sparse,
        extents[k].offset <= start,
        size > 0,
        start + size <= extents[k].offset + extents[k].length <= u64::MAX,
        k + 1 < extents.len() ==> extents[k + 1].offset > start,
    ensures
        carve_runs(start, size, extents) == seq![
            ByteRun { offset: start, length: size, sparse: false },
        ],
{
    assert forall|i: int| k + 1 <= i < extents.len() implies extents[i].offset > start by {
        assert(extents[k + 1].offset <= extents[i].offset);
    }
    lemma_starts_upto(extents, start, k + 1);
    assert(extent_end(extents[k]) == extents[k].offset + extents[k].length);
}

/// A file that goes on behind its extent goes on in the next one where that is near, and ends
/// where it is not.
pub proof fn lemma_file_goes_on_over_small_gaps(
    start: u64,
    size: u64,
    extents: Seq<ByteRun>,
    k: int,
)
    requires
        extents_sorted(extents),
        0 <= k,
        k + 2 == extents.len(),
        !extents[k].sparse && !extents[k + 1].sparse,
        extents[k].offset <= start < extents[k].offset + extents[k].length,
        extents[k].offset + extents[k].length < extents[k + 1].offset,
        extents[k + 1].offset + extents[k + 1].length <= u64::MAX,
        extents[k + 1].length > 0,
        size > extents[k].offset + extents[k].length - start,
    ensures
        ({
            let end = extents[k].offset + extents[k].length;
            let next = extents[k + 1];
            let runs = carve_runs(start, size, extents);
            &&& runs.len() >= 1
            &&& runs[0] == (ByteRun {
                offset: start,
                length: (end - start) as u64,
                sparse: false,
            })
            &&& next.offset - end > 0x1_0000 ==> runs.len() == 1
            &&& next.offset - end <= 0x1_0000 ==> runs.len() == 2 && runs[1].offset == next.offset
                && !runs[1].sparse && runs[1].length == if next.length < size - (end - start) {
                next.length as int
            } else {
                size - (end - start)
            }
        }),
{
    assert forall|i: int| k + 1 <= i < extents.len() implies extents[i].offset > start by {
        assert(extents[k + 1].offset <= extents[i].offset);
    }
    lemma_starts_upto(extents, start, k + 1);
    let end = extents[k].offset + extents[k].length;
    assert(extent_end(extents[k]) == end);
    assert(extent_end(extents[k + 1]) == extents[k + 1].offset + extents[k + 1].length);
    reveal_with_fuel(runs_from, 4);
}

proof fn lemma_runs_hold_their_total(runs: Seq<ByteRun>)
    ensures
        held_by_runs(runs) == total_length(runs),
    decreases runs.len(),
{
    if runs.len() > 0 {
        let rest = runs.drop_first();
        lemma_runs_hold_their_total(rest);
        assert(runs =~= seq![runs[0]] + rest);
        lemma_total_length_concat(seq![runs[0]], rest);
        lemma_total_length_one(runs[0]);
    }
}

// ---------------------------------------------------------------------------
// Records.

/// The record of a carved file says where it starts, how much of it there is and where that lies;
/// what is recovered of it has the size shown.
pub proof fn lemma_carved_record_shows_the_file(
    r: ArtifactRecord,
    scan_id: Seq<char>,
    source: ScanSource,
    offset: u64,
    est: CarveEstimate,
    runs: Seq<ByteRun>,
    device: spec_fn(int) -> u8,
)
    requires
        is_carved_record(r, scan_id, source, offset, est, runs),
        0 <= total_length(runs) <= u64::MAX,
        forall|k: int| 0 <= k < runs.len() ==> (#[trigger] runs[k]).length > 0,
    ensures
        r.scan_id@ == scan_id && r.source_id@ == source.id@,
        r.raw_offset == Some(offset),
        r.size == held_by_runs(runs),
        r.raw_length == Some(r.size),
        r.kind == est.kind && r.family == family_of(est.kind) && r.confidence == est.confidence,
        r.priority_score == family_score(family_of(est.kind)),
        r.recovery_plan matches RecoveryPlan::RawRuns { source_path, runs: held, logical_size }
            && source_path@ == source.device_path@ && held@ == runs && logical_size == r.size
            && content_on_device(device, held@, logical_size).len() == r.size,
        est.exact && r.size >= est.length ==> !r.is_fragment && r.recoverability
            == Recoverability::Good && r.content_source == ContentSourceKind::ContiguousCarve,
        !est.exact || r.size < est.length ==> r.is_fragment && r.recoverability
            == Recoverability::Partial && r.content_source == ContentSourceKind::FragmentCandidate
            && r.fragment_id is Some,
        !r.deleted_entry && r.created_at is None && r.modified_at is None && r.deleted_at is None,
        r.preview@[0].value@ == "0x"@ + hexadecimal(offset as nat, false),
        r.preview@[1].value@ == decimal(est.length as nat) + " bytes"@,
{
    lemma_runs_hold_their_total(runs);
    lemma_content_has_its_size(device, runs, r.size);
}

/// Without a free extent around it a file is taken to lie in one piece, as far as its segment
/// reaches.
pub proof fn lemma_files_outside_extents_are_cut_at_the_segment(
    offset: u64,
    length: u64,
    scan_end: u64,
    extents: Seq<ByteRun>,
)
    requires
        carve_runs(offset, length, extents).len() == 0,
        offset <= scan_end,
    ensures
        ({
            let runs = candidate_runs(offset, length, scan_end, extents);
            &&& runs.len() == 1 && runs[0].offset == offset && !runs[0].sparse
            &&& runs[0].length <= length && offset + runs[0].length <= scan_end
            &&& runs[0].length == length || offset + runs[0].length == scan_end
        }),
{
}

/// A file is taken to be as long as its format says, and its length is then trusted; where the
/// format tells no end, all that was read is taken, and that is not trusted.
pub proof fn lemma_estimates_give_the_size(probe: Seq<u8>, n: u64)
    ensures
        pe_size(probe) == Some(n as int) ==> (estimate(ArtifactKind::Pe, probe) matches Some(e)
            && e.length == n && e.exact && e.confidence == Confidence::High),
        zip_size(probe) == Some(n as int) ==> (estimate(ArtifactKind::Zip, probe) matches Some(e)
            && e.length == n && e.exact && e.confidence == Confidence::High),
        seven_zip_size(probe) == Some(n as int) ==> (estimate(ArtifactKind::SevenZip, probe) matches
            Some(e) && e.length == n && e.exact && e.kind == ArtifactKind::SevenZip),
        cab_size(probe) == Some(n as int) ==> (estimate(ArtifactKind::Cab, probe) matches Some(e)
            && e.length == n && e.exact && e.kind == ArtifactKind::Cab),
        pdf_size(probe) == Some(n as int) ==> (estimate(ArtifactKind::Pdf, probe) matches Some(e)
            && e.length == n && e.exact && e.kind == ArtifactKind::Pdf),
        png_size(probe) == Some(n as int) ==> (estimate(ArtifactKind::Png, probe) matches Some(e)
            && e.length == n && e.exact && e.kind == ArtifactKind::Png),
        jpeg_size(probe) == Some(n as int) ==> (estimate(ArtifactKind::Jpg, probe) matches Some(e)
            && e.length == n && e.exact && e.kind == ArtifactKind::Jpg),
        gif_size(probe) == Some(n as int) ==> (estimate(ArtifactKind::Gif, probe) matches Some(e)
            && e.length == n && e.exact && e.kind == ArtifactKind::Gif),
        rar_size(probe) == Some(n as int) ==> (estimate(ArtifactKind::Rar, probe) matches Some(e)
            && e.length == n && e.exact && e.kind == ArtifactKind::Rar),
        rar_size(probe) is None && probe.len() == n ==> (estimate(ArtifactKind::Rar, probe) matches
            Some(e) && e.length == n && !e.exact && e.confidence == Confidence::Medium),
        probe.len() == n ==> (estimate(ArtifactKind::Sqlite, probe) matches Some(e) && e.length == n
            && !e.exact && e.confidence == Confidence::Medium && e.kind == ArtifactKind::Sqlite),
        probe.len() == n ==> (estimate(ArtifactKind::Gzip, probe) matches Some(e) && e.length == n
            && !e.exact && e.kind == ArtifactKind::Gzip),
        pdf_size(probe) is None ==> estimate(ArtifactKind::Pdf, probe) is None,
        png_size(probe) is None ==> estimate(ArtifactKind::Png, probe) is None,
        zip_size(probe) is None ==> estimate(ArtifactKind::Zip, probe) is None,
        pe_size(probe) is None ==> estimate(ArtifactKind::Pe, probe) is None,
{
}

// ---------------------------------------------------------------------------
// Marks.

proof fn lemma_laid(s: Seq<u8>, at: int, part: Seq<u8>)
    requires
        laid_at(s, at, part),
    ensures
        occurs_at(s, part, at),
{
    assert(s.subrange(at, at + part.len()) =~= part);
}

/// What is laid out as a PE image with a header in its first megabyte is taken for one.
pub proof fn lemma_images_are_plausible(
    s: Seq<u8>,
    header: u32,
    optional: u16,
    sections: Seq<RawSection>,
)
    requires
        is_pe_layout(s, header, optional, sections),
    ensures
        plausible(ArtifactKind::Pe, s) <==> 0x40 <= header <= 0x10_0000,
{
    lemma_laid(s, 0, seq![0x4du8, 0x5a]);
    lemma_laid(s, header as int, seq![0x50u8, 0x45, 0, 0]);
    lemma_le32_reads_back(s, 0x3c, header as int);
}

/// A local header of a ZIP file is taken for one where it names a method that there is and has a
/// name, which with its extra field lies in what was read.
pub proof fn lemma_local_headers_are_plausible(s: Seq<u8>, method: u16, name: u16, extra: u16)
    requires
        laid_at(s, 0, seq![0x50u8, 0x4b, 0x03, 0x04]),
        laid_at(s, 8, le_bytes(method as int, 2)),
        laid_at(s, 26, le_bytes(name as int, 2)),
        laid_at(s, 28, le_bytes(extra as int, 2)),
    ensures
        method == 0 || method == 8 ==> (plausible(ArtifactKind::Zip, s) <==> name > 0 && 30 + name
            + extra <= s.len()),
        method > 99 ==> !plausible(ArtifactKind::Zip, s),
{
    reveal_with_fuel(le_bytes, 3);
    lemma_laid(s, 0, seq![0x50u8, 0x4b, 0x03, 0x04]);
    lemma_le16_reads_back(s, 8, method as int);
    lemma_le16_reads_back(s, 26, name as int);
    lemma_le16_reads_back(s, 28, extra as int);
}

/// A GIF image is taken for one where it has a width and a height.
pub proof fn lemma_images_have_a_size(s: Seq<u8>, width: u16, height: u16)
    requires
        laid_at(s, 0, seq![0x47u8, 0x49, 0x46, 0x38, 0x39, 0x61]),
        laid_at(s, 6, le_bytes(width as int, 2)),
        laid_at(s, 8, le_bytes(height as int, 2)),
    ensures
        plausible(ArtifactKind::Gif, s) <==> width > 0 && height > 0,
{
    reveal_with_fuel(le_bytes, 3);
    lemma_laid(s, 0, seq![0x47u8, 0x49, 0x46, 0x38, 0x39, 0x61]);
    lemma_le16_reads_back(s, 6, width as int);
    lemma_le16_reads_back(s, 8, height as int);
}

/// A gzip stream is taken for one where none of the reserved flags is set, a bzip2 stream where its
/// block size is a digit.
pub proof fn lemma_streams_are_plausible(s: Seq<u8>)
    requires
        s.len() >= 10,
    ensures
        laid_at(s, 0, seq![0x1fu8, 0x8b, 0x08]) ==> (plausible(ArtifactKind::Gzip, s) <==> s[3] < 32),
        laid_at(s, 0, seq![0x42u8, 0x5a, 0x68]) ==> (plausible(ArtifactKind::Bzip2, s) <==> '1' as int
            <= s[3] <= '9' as int),
{
    if laid_at(s, 0, seq![0x1fu8, 0x8b, 0x08]) {
        lemma_laid(s, 0, seq![0x1fu8, 0x8b, 0x08]);
    }
    if laid_at(s, 0, seq![0x42u8, 0x5a, 0x68]) {
        lemma_laid(s, 0, seq![0x42u8, 0x5a, 0x68]);
    }
    let flags = s[3];
    assert(flags & 0xe0u8 == 0 <==> flags < 32) by (bit_vector);
}

/// A hit lies where its mark lies, in the part of the volume that was read, and is of the kind of
/// that mark; a mark in the overlap is left to the next chunk.
pub proof fn lemma_hits_lie_at_marks(chunk: CarveChunk, bytes: Seq<u8>, m: (usize, usize))
    requires
        m.0 < signature_marks().len(),
        m.1 <= bytes.len(),
        chunk.offset + m.1 <= u64::MAX,
    ensures
        hit_of(chunk, bytes, m) matches Some(hit) ==> hit.offset == chunk.offset + m.1 && hit.kind
            == signature_marks()[m.0 as int].0 && hit.extent_end == chunk.extent_end && m.1
            < chunk.chunk_length && plausible(
            hit.kind,
            bytes.subrange(m.1 as int, bytes.len() as int),
        ),
        m.1 < chunk.chunk_length && plausible(
            signature_marks()[m.0 as int].0,
            bytes.subrange(m.1 as int, bytes.len() as int),
        ) ==> hit_of(chunk, bytes, m) is Some,
{
}

/// Each mark that can start a file is a hit, unless one at its place was seen before.
pub proof fn lemma_no_hit_is_lost(
    chunk: CarveChunk,
    bytes: Seq<u8>,
    found: Seq<(usize, usize)>,
    seen: Set<u64>,
    k: int,
)
    requires
        0 <= k < found.len(),
        hit_of(chunk, bytes, found[k]) is Some,
    ensures
        ({
            let offset = hit_of(chunk, bytes, found[k])->0.offset;
            seen.contains(offset) || exists|i: int|
                0 <= i < new_hits(chunk, bytes, found, seen).len() && (#[trigger] new_hits(
                    chunk,
                    bytes,
                    found,
                    seen,
                )[i]).offset == offset
        }),
    decreases found.len(),
{
    let front = found.drop_last();
    let before = new_hits(chunk, bytes, front, seen);
    let after = new_hits(chunk, bytes, found, seen);
    let offset = hit_of(chunk, bytes, found[k])->0.offset;
    if k == found.len() - 1 {
        if seen_after(chunk, bytes, front, seen).contains(offset) {
            lemma_seen_were_hits(chunk, bytes, front, seen, offset);
            if !seen.contains(offset) {
                let i = choose|i: int| 0 <= i < before.len() && (#[trigger] before[i]).offset == offset;
                assert(after[i].offset == offset);
            }
        } else {
            assert(after[before.len() as int].offset == offset);
        }
    } else {
        assert(front[k] == found[k]);
        lemma_no_hit_is_lost(chunk, bytes, front, seen, k);
        if !seen.contains(offset) {
            let i = choose|i: int| 0 <= i < before.len() && (#[trigger] before[i]).offset == offset;
            assert(after[i].offset == offset);
        }
    }
}

proof fn lemma_seen_were_hits(
    chunk: CarveChunk,
    bytes: Seq<u8>,
    found: Seq<(usize, usize)>,
    seen: Set<u64>,
    offset: u64,
)
    requires
        seen_after(chunk, bytes, found, seen).contains(offset),
    ensures
        seen.contains(offset) || exists|i: int|
            0 <= i < new_hits(chunk, bytes, found, seen).len() && (#[trigger] new_hits(
                chunk,
                bytes,
                found,
                seen,
            )[i]).offset == offset,
    decreases found.len(),
{
    if found.len() > 0 {
        let front = found.drop_last();
        let before = new_hits(chunk, bytes, front, seen);
        let after = new_hits(chunk, bytes, found, seen);
        if seen_after(chunk, bytes, front, seen).contains(offset) {
            lemma_seen_were_hits(chunk, bytes, front, seen, offset);
            if !seen.contains(offset) {
                let i = choose|i: int| 0 <= i < before.len() && (#[trigger] before[i]).offset == offset;
                assert(after[i].offset == offset);
            }
        } else {
            assert(after[before.len() as int].offset == offset);
        }
    }
}

/// A chunk is the next four megabytes of its segment, or what is left of it or of the budget.
pub proof fn lemma_chunks_follow_each_other(pass: &CarvePass)
    requires
        pass.wf(),
        pass.spec_next_chunk() is Some,
        pass.spec_segments()[pass.spec_index()].offset + pass.spec_segments()[pass.spec_index()].length
            <= u64::MAX,
    ensures
        ({
            let chunk = pass.spec_next_chunk()->0;
            let segment = pass.spec_segments()[pass.spec_index()];
            let left = segment.length - pass.spec_local();
            let allowed = pass.spec_budget() - pass.spec_scanned();
            &&& chunk.offset == segment.offset + pass.spec_local()
            &&& chunk.extent_end == segment.extent_end
            &&& chunk.chunk_length <= 0x40_0000 && chunk.chunk_length <= left && chunk.chunk_length
                <= allowed
            &&& chunk.chunk_length == 0x40_0000 || chunk.chunk_length == left || chunk.chunk_length
                == allowed
            &&& chunk.read_length == chunk.chunk_length || chunk.read_length == chunk.chunk_length
                + pass.spec_overlap()
        }),
{
}

/// Results are shown with the higher scores first.
pub proof fn lemma_results_are_shown_by_score(
    results: Seq<ArtifactRecord>,
    r: Seq<ArtifactRecord>,
    i: int,
    j: int,
)
    requires
        stable_sorted(results, r, by_score()),
        0 <= i < j < r.len(),
    ensures
        r[i].priority_score >= r[j].priority_score,
        r.len() == results.len(),
{
    assert(strict_weak_order(by_score()));
    lemma_stable_sorted_keeps_items(results, r, by_score());
    assert(!by_score()(r[j], r[i]));
}

/// A carved file is named by the place that it was found at, in sixteen digits, and a piece by its
/// place and its length.
pub proof fn lemma_carved_files_are_named_by_place(offset: u64, length: u64, kind: ArtifactKind)
    requires
        crate::numbers::hexadecimal(offset as nat, true).len() <= 16,
    ensures
        ({
            let h = crate::numbers::hexadecimal(offset as nat, true);
            let zeros = Seq::new((16 - h.len()) as nat, |i: int| '0');
            &&& crate::carver::carved_name(offset, kind) == "carved_"@ + (zeros + h) + "."@
                + crate::carver::carved_extension(kind)
            &&& crate::carver::carved_fragment_id(offset, length) == "frag-"@ + (zeros + h) + "-"@
                + crate::numbers::hexadecimal(length as nat, true)
        }),
{
    let h = crate::numbers::hexadecimal(offset as nat, true);
    let zeros = Seq::new((16 - h.len()) as nat, |i: int| '0');
    assert(crate::numbers::zero_padded(h, 16) =~= zeros + h);
}

/// Behind a mark as much is read as its kind needs: half a megabyte of a program, four megabytes
/// of an archive whose end tells its size, a quarter of one whose header does, and two megabytes
/// of anything else.
pub proof fn lemma_marks_are_checked_by_kind(kind: ArtifactKind)
    ensures
        kind is Pe ==> crate::carver::probe_length(kind) == 512 * 1024,
        kind is Zip || kind is Rar ==> crate::carver::probe_length(kind) == 4 * 1024 * 1024,
        kind is SevenZip || kind is Cab ==> crate::carver::probe_length(kind) == 256 * 1024,
        kind is Pdf || kind is Png || kind is Jpg || kind is Gif || kind is Sqlite || kind is Gzip
            || kind is OleCompound ==> crate::carver::probe_length(kind) == 2 * 1024 * 1024,
{
}

} // verus!
