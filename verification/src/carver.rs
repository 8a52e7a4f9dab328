//! Finding files in unallocated space by the marks that they start with.

use crate::bytes::{
    le16, le32, matches_at, occurs_at, read_le16, read_le32, slice_to_vec, starts_with,
};
use crate::kinds::{
    bzip2_mark, cab_mark, gif87_mark, gif89_mark, gzip_mark, infer_artifact_kind, inferred_kind,
    is_scan_id, jpeg_mark, marked, mz_mark, new_scan_id, ole_mark, pdf_mark, pe_mark, png_mark,
    seven_zip_mark, sqlite_mark, xz_mark, zip_mark,
};
use crate::model::{
    family_of, family_score, ArtifactClass, ArtifactKind, ArtifactRecord, ByteRun, Confidence,
    ContentSourceKind, DeletedTimeConfidence, NameSourceKind, OriginType, PathConfidence,
    PlacementKind, PreviewFact, Recoverability, RecoveryPlan, ScanSource,
};
use crate::numbers::{decimal, decimal_string, hex_string, hexadecimal, push_hex, zero_padded};
use crate::seqs::{
    filter_mapped, kept, lemma_filter_mapped_complete, lemma_filter_mapped_source,
    lemma_filter_mapped_sources, lemma_filter_mapped_step, lemma_kept_complete, lemma_kept_sound,
    lemma_kept_sources, lemma_kept_step,
};
use crate::sizes::{
    cab_size, estimate_7z_size, estimate_cab_size, estimate_gif_size, estimate_jpeg_size,
    estimate_pdf_size, estimate_pe_size, estimate_png_size, estimate_rar_size, estimate_zip_size,
    gif_size, jpeg_size, pdf_size, pe_size, png_size, rar_size, seven_zip_size,
    seven_zip_size_fits, zip_size,
};
use crate::kinds::zip_kind;
use crate::sort::{
    lemma_sorting_is_injective, lemma_stable_sorted_keeps_items, lemma_stable_sorted_loses_nothing,
    stable_sort_by, stable_sorted, stable_sorted_by, strict_weak_order,
};
use crate::text::{concat2, concat3, opt_view, owned, views};
use std::collections::HashSet;
use vstd::prelude::*;
use vstd::string::*;

verus! {

broadcast use vstd::std_specs::hash::group_hash_axioms;

/// How many bytes of a segment one read covers.
pub const CHUNK_SIZE: u64 = 0x40_0000;

/// How many bytes pass between two progress reports without a result.
pub const CARVE_PROGRESS_BYTES: u64 = 0x400_0000;

/// How many bytes one pass reads at most.
pub const MAX_SCAN_BUDGET: u64 = 0xc000_0000;

/// Extents up to this size are read in one piece.
pub const PRIORITY_EXTENT_SLICE: u64 = 0x4_0000;

/// How much of the start of a larger extent is read first.
pub const PRIORITY_HEAD_SLICE: u64 = 0x3_0000;

/// The largest gap between two extents that may hold one file.
pub const MAX_FRAGMENT_GAP: u64 = 0x1_0000;

/// A sum that stays at the largest number where it would be larger.
pub open spec fn sat_add(a: u64, b: u64) -> u64 {
    if a + b > u64::MAX {
        u64::MAX
    } else {
        (a + b) as u64
    }
}

// ---------------------------------------------------------------------------
// The segments of a pass.

/// A part of an extent that is read in one go.
#[derive(Debug, Clone, Copy, PartialEq, Eq, Structural)]
pub struct ScanSegment {
    pub offset: u64,
    pub length: u64,
    pub extent_end: u64,
}

/// The end of an extent.
pub open spec fn extent_end(e: ByteRun) -> u64 {
    sat_add(e.offset, e.length)
}

/// The start of an extent, or all of a small one.
pub open spec fn head_segment(e: ByteRun) -> ScanSegment {
    ScanSegment {
        offset: e.offset,
        length: if e.length <= PRIORITY_EXTENT_SLICE {
            e.length
        } else {
            PRIORITY_HEAD_SLICE
        },
        extent_end: extent_end(e),
    }
}

/// The last bytes of a larger extent.
pub open spec fn tail_segment(e: ByteRun) -> Option<ScanSegment> {
    if e.length <= PRIORITY_EXTENT_SLICE {
        None
    } else {
        Some(
            ScanSegment {
                offset: (extent_end(e) - 0x1_0000) as u64,
                length: 0x1_0000,
                extent_end: extent_end(e),
            },
        )
    }
}

/// What lies between head and tail of a larger extent.
pub open spec fn middle_segment(e: ByteRun) -> Option<ScanSegment> {
    if e.length <= PRIORITY_EXTENT_SLICE || extent_end(e) - 0x1_0000 <= sat_add(
        e.offset,
        PRIORITY_HEAD_SLICE,
    ) {
        None
    } else {
        Some(
            ScanSegment {
                offset: sat_add(e.offset, PRIORITY_HEAD_SLICE),
                length: (extent_end(e) - 0x1_0000 - sat_add(e.offset, PRIORITY_HEAD_SLICE)) as u64,
                extent_end: extent_end(e),
            },
        )
    }
}

/// An extent that holds bytes to read.
pub open spec fn readable_extent(e: ByteRun) -> bool {
    !e.sparse && e.length > 0
}

/// The extents that hold bytes to read.
pub open spec fn free_extents(extents: Seq<ByteRun>) -> Seq<ByteRun> {
    kept(extents, |e: ByteRun| readable_extent(e))
}

/// The order of extents on the volume.
pub open spec fn by_offset() -> spec_fn(ByteRun, ByteRun) -> bool {
    |a: ByteRun, b: ByteRun| a.offset < b.offset
}

/// The tails of the larger extents.
pub open spec fn tails_of(extents: Seq<ByteRun>) -> Seq<ScanSegment> {
    filter_mapped(extents, |e: ByteRun| tail_segment(e))
}

/// What lies between heads and tails.
pub open spec fn middles_of(extents: Seq<ByteRun>) -> Seq<ScanSegment> {
    filter_mapped(extents, |e: ByteRun| middle_segment(e))
}

/// The segments of extents in a given order: all heads, then all tails, then the rest.
pub open spec fn segments_of(extents: Seq<ByteRun>) -> Seq<ScanSegment> {
    extents.map_values(|e: ByteRun| head_segment(e)) + tails_of(extents) + middles_of(extents)
}

/// Sorts extents by their offset.
pub fn sort_extents(extents: Vec<ByteRun>) -> (r: Vec<ByteRun>)
    ensures
        stable_sorted(extents@, r@, by_offset()),
        strict_weak_order(by_offset()),
        r@.len() == extents@.len(),
{
    let before = |a: &ByteRun, b: &ByteRun| -> (r: bool)
        ensures
            r == (a.offset < b.offset),
        { a.offset < b.offset };
    assert(strict_weak_order(by_offset()));
    let out = stable_sort_by(extents, before, Ghost(by_offset()));
    proof {
        crate::sort::lemma_stable_sorted_keeps_items(extents@, out@, by_offset());
    }
    out
}

/// The parts of the free extents in the order in which they are read.
pub fn build_scan_segments(extents: &Vec<ByteRun>) -> (r: Vec<ScanSegment>)
    ensures
        exists|sorted: Seq<ByteRun>| #[trigger]
            stable_sorted(free_extents(extents@), sorted, by_offset()) && r@ == segments_of(
                sorted,
            ),
{
    let ghost keep = |e: ByteRun| readable_extent(e);
    let mut chosen: Vec<ByteRun> = Vec::new();
    let mut i: usize = 0;
    while i < extents.len()
        invariant
            i <= extents@.len(),
            keep == |e: ByteRun| readable_extent(e),
            chosen@ == kept(extents@.subrange(0, i as int), keep),
        decreases extents@.len() - i,
    {
        let e = extents[i];
        if !e.sparse && e.length > 0 {
            chosen.push(e);
        }
        proof {
            lemma_kept_step(extents@, keep, i as int);
        }
        i += 1;
    }
    assert(extents@.subrange(0, i as int) =~= extents@);
    assert(chosen@ == free_extents(extents@));
    let sorted = sort_extents(chosen);
    let ghost ordered = sorted@;
    assert(stable_sorted(free_extents(extents@), ordered, by_offset()));
    let mut heads: Vec<ScanSegment> = Vec::new();
    let mut tails: Vec<ScanSegment> = Vec::new();
    let mut middles: Vec<ScanSegment> = Vec::new();
    let ghost tail = |e: ByteRun| tail_segment(e);
    let ghost middle = |e: ByteRun| middle_segment(e);
    let mut k: usize = 0;
    while k < sorted.len()
        invariant
            k <= sorted@.len(),
            tail == |e: ByteRun| tail_segment(e),
            middle == |e: ByteRun| middle_segment(e),
            heads@ == sorted@.subrange(0, k as int).map_values(|e: ByteRun| head_segment(e)),
            tails@ == tails_of(sorted@.subrange(0, k as int)),
            middles@ == middles_of(sorted@.subrange(0, k as int)),
        decreases sorted@.len() - k,
    {
        let e = sorted[k];
        let end: u64 = e.offset.saturating_add(e.length);
        if e.length <= PRIORITY_EXTENT_SLICE {
            heads.push(ScanSegment { offset: e.offset, length: e.length, extent_end: end });
        } else {
            heads.push(
                ScanSegment { offset: e.offset, length: PRIORITY_HEAD_SLICE, extent_end: end },
            );
            tails.push(ScanSegment { offset: end - 0x1_0000, length: 0x1_0000, extent_end: end });
            let middle_start: u64 = e.offset.saturating_add(PRIORITY_HEAD_SLICE);
            let middle_end: u64 = end - 0x1_0000;
            if middle_end > middle_start {
                middles.push(
                    ScanSegment {
                        offset: middle_start,
                        length: middle_end - middle_start,
                        extent_end: end,
                    },
                );
            }
        }
        proof {
            lemma_filter_mapped_step(sorted@, tail, k as int);
            lemma_filter_mapped_step(sorted@, middle, k as int);
            assert(heads@ =~= sorted@.subrange(0, k + 1).map_values(
                |e: ByteRun| head_segment(e),
            ));
        }
        k += 1;
    }
    assert(sorted@.subrange(0, k as int) =~= sorted@);
    heads.append(&mut tails);
    heads.append(&mut middles);
    assert(heads@ =~= segments_of(ordered));
    heads
}

/// The segments of an extent cover it without gap and without overlap.
pub proof fn lemma_segments_tile_extent(e: ByteRun)
    requires
        e.offset + e.length <= u64::MAX,
        e.length > 0,
    ensures
        head_segment(e).offset == e.offset,
        match (middle_segment(e), tail_segment(e)) {
            (Some(m), Some(t)) => {
                &&& m.offset == head_segment(e).offset + head_segment(e).length
                &&& t.offset == m.offset + m.length
                &&& t.offset + t.length == e.offset + e.length
            },
            (None, None) => head_segment(e).length == e.length,
            _ => false,
        },
{
}

/// The remaining parts of extents that are in order come in order of their offset.
pub proof fn lemma_middles_in_order(a: ByteRun, b: ByteRun)
    requires
        a.offset <= b.offset,
        middle_segment(a) is Some,
        middle_segment(b) is Some,
    ensures
        middle_segment(a)->0.offset <= middle_segment(b)->0.offset,
{
}

/// Byte `b` of the volume lies in a segment.
pub open spec fn segment_has(segment: ScanSegment, b: int) -> bool {
    segment.offset <= b < segment.offset + segment.length
}

/// Byte `b` of the volume lies in an extent.
pub open spec fn extent_has(e: ByteRun, b: int) -> bool {
    e.offset <= b < e.offset + e.length
}

/// Two extents have no byte in common.
pub open spec fn extents_apart(a: ByteRun, b: ByteRun) -> bool {
    a.offset + a.length <= b.offset || b.offset + b.length <= a.offset
}

/// The extents that hold bytes to read end on the volume.
pub open spec fn extents_fit(extents: Seq<ByteRun>) -> bool {
    forall|i: int|
        0 <= i < extents.len() && readable_extent(#[trigger] extents[i]) ==> extents[i].offset
            + extents[i].length <= u64::MAX
}

/// No two extents that hold bytes to read have a byte in common.
pub open spec fn extents_disjoint(extents: Seq<ByteRun>) -> bool {
    forall|i: int, j: int|
        0 <= i < j < extents.len() && readable_extent(#[trigger] extents[i]) && readable_extent(
            #[trigger] extents[j],
        ) ==> extents_apart(extents[i], extents[j])
}

/// The parts of an extent: its head, its tail and what lies between.
spec fn part(e: ByteRun, p: int) -> Option<ScanSegment> {
    if p == 0 {
        Some(head_segment(e))
    } else if p == 1 {
        tail_segment(e)
    } else {
        middle_segment(e)
    }
}

/// A segment is a part of an extent.
proof fn lemma_segment_source(extents: Seq<ByteRun>, a: int) -> (r: (int, int))
    requires
        0 <= a < segments_of(extents).len(),
    ensures
        0 <= r.0 < extents.len(),
        part(extents[r.0], r.1) == Some(segments_of(extents)[a]),
        if a < extents.len() {
            r == (a, 0int)
        } else if a < extents.len() + tails_of(extents).len() {
            r.1 == 1
        } else {
            r.1 == 2
        },
{
    let tails = tails_of(extents);
    let n = extents.len() as int;
    if a < n {
        (a, 0)
    } else if a < n + tails.len() {
        let k = lemma_filter_mapped_source(extents, |e: ByteRun| tail_segment(e), a - n);
        (k, 1)
    } else {
        let k = lemma_filter_mapped_source(
            extents,
            |e: ByteRun| middle_segment(e),
            a - n - tails.len(),
        );
        (k, 2)
    }
}

/// Two segments are two parts of an extent, or parts of two extents.
proof fn lemma_segment_sources(extents: Seq<ByteRun>, a: int, b: int) -> (r: (
    (int, int),
    (int, int),
))
    requires
        0 <= a < b < segments_of(extents).len(),
    ensures
        0 <= r.0.0 < extents.len(),
        0 <= r.1.0 < extents.len(),
        0 <= r.0.1 < 3,
        0 <= r.1.1 < 3,
        part(extents[r.0.0], r.0.1) == Some(segments_of(extents)[a]),
        part(extents[r.1.0], r.1.1) == Some(segments_of(extents)[b]),
        r.0 != r.1,
{
    let tails = tails_of(extents);
    let n = extents.len() as int;
    let m = n + tails.len();
    if n <= a && b < m {
        let (k, l) = lemma_filter_mapped_sources(
            extents,
            |e: ByteRun| tail_segment(e),
            a - n,
            b - n,
        );
        ((k, 1), (l, 1))
    } else if m <= a {
        let (k, l) = lemma_filter_mapped_sources(
            extents,
            |e: ByteRun| middle_segment(e),
            a - m,
            b - m,
        );
        ((k, 2), (l, 2))
    } else {
        (lemma_segment_source(extents, a), lemma_segment_source(extents, b))
    }
}

/// The extents that are read are readable, and disjoint where the given ones are.
proof fn lemma_sorted_extents(extents: Seq<ByteRun>, sorted: Seq<ByteRun>)
    requires
        stable_sorted(free_extents(extents), sorted, by_offset()),
        extents_fit(extents),
    ensures
        forall|i: int|
            0 <= i < sorted.len() ==> readable_extent(#[trigger] sorted[i]) && sorted[i].offset
                + sorted[i].length <= u64::MAX,
        extents_disjoint(extents) ==> extents_disjoint(sorted),
{
    let readable = |e: ByteRun| readable_extent(e);
    let chosen = free_extents(extents);
    assert(strict_weak_order(by_offset()));
    let perm = choose|perm: Seq<usize>| stable_sorted_by(chosen, sorted, perm, by_offset());
    lemma_kept_sound(extents, readable);
    assert forall|i: int| 0 <= i < sorted.len() implies readable_extent(#[trigger] sorted[i])
        && sorted[i].offset + sorted[i].length <= u64::MAX by {
        assert(sorted[i] == chosen[perm[i] as int]);
        assert(readable(chosen[perm[i] as int]));
        let k = choose|k: int| 0 <= k < extents.len() && extents[k] == chosen[perm[i] as int];
        assert(readable_extent(extents[k]));
    }
    if extents_disjoint(extents) {
        assert forall|i: int, j: int|
            0 <= i < j < sorted.len() && readable_extent(#[trigger] sorted[i]) && readable_extent(
                #[trigger] sorted[j],
            ) implies extents_apart(sorted[i], sorted[j]) by {
            lemma_sorting_is_injective(chosen, perm, by_offset(), i, j);
            let x = perm[i] as int;
            let y = perm[j] as int;
            assert(sorted[i] == chosen[x] && sorted[j] == chosen[y]);
            let (k, l) = if x < y {
                lemma_kept_sources(extents, readable, x, y)
            } else {
                lemma_kept_sources(extents, readable, y, x)
            };
            assert(extents_apart(extents[k], extents[l]));
        }
    }
}

/// The segments of a pass hold exactly the bytes of the extents that hold bytes to read.
pub proof fn lemma_segments_cover_extents(extents: Seq<ByteRun>, sorted: Seq<ByteRun>, b: int)
    requires
        stable_sorted(free_extents(extents), sorted, by_offset()),
        extents_fit(extents),
    ensures
        (exists|k: int|
            0 <= k < segments_of(sorted).len() && segment_has(
                #[trigger] segments_of(sorted)[k],
                b,
            )) <==> (exists|i: int|
            0 <= i < extents.len() && readable_extent(#[trigger] extents[i]) && extent_has(
                extents[i],
                b,
            )),
{
    let readable = |e: ByteRun| readable_extent(e);
    let chosen = free_extents(extents);
    let segments = segments_of(sorted);
    lemma_sorted_extents(extents, sorted);
    assert(strict_weak_order(by_offset()));
    if exists|k: int| 0 <= k < segments.len() && segment_has(#[trigger] segments[k], b) {
        let k = choose|k: int| 0 <= k < segments.len() && segment_has(#[trigger] segments[k], b);
        let (i, p) = lemma_segment_source(sorted, k);
        lemma_segments_tile_extent(sorted[i]);
        assert(extent_has(sorted[i], b));
        lemma_stable_sorted_keeps_items(chosen, sorted, by_offset());
        lemma_kept_sound(extents, readable);
        let x = choose|x: int| 0 <= x < chosen.len() && chosen[x] == sorted[i];
        let y = choose|y: int| 0 <= y < extents.len() && extents[y] == chosen[x];
        assert(readable_extent(extents[y]) && extent_has(extents[y], b));
    }
    if exists|i: int|
        0 <= i < extents.len() && readable_extent(#[trigger] extents[i]) && extent_has(
            extents[i],
            b,
        ) {
        let i = choose|i: int|
            0 <= i < extents.len() && readable_extent(#[trigger] extents[i]) && extent_has(
                extents[i],
                b,
            );
        assert(readable(extents[i]));
        lemma_kept_complete(extents, readable, i);
        let x = choose|x: int| 0 <= x < chosen.len() && chosen[x] == extents[i];
        lemma_stable_sorted_loses_nothing(chosen, sorted, by_offset(), x);
        let k = choose|k: int| 0 <= k < sorted.len() && sorted[k] == extents[i];
        let e = sorted[k];
        let n = sorted.len() as int;
        lemma_segments_tile_extent(e);
        let tail = |e: ByteRun| tail_segment(e);
        let middle = |e: ByteRun| middle_segment(e);
        if segment_has(head_segment(e), b) {
            assert(segment_has(segments[k], b));
        } else if segment_has(tail_segment(e)->0, b) {
            let t = lemma_filter_mapped_complete(sorted, tail, k);
            assert(segments[n + t] == tails_of(sorted)[t]);
            assert(segment_has(segments[n + t], b));
        } else {
            let m = lemma_filter_mapped_complete(sorted, middle, k);
            let at = n + tails_of(sorted).len() + m;
            assert(segments[at] == middles_of(sorted)[m]);
            assert(segment_has(segments[at], b));
        }
    }
}

/// Where no two extents have a byte in common, no two segments of a pass have one.
pub proof fn lemma_segments_are_disjoint(
    extents: Seq<ByteRun>,
    sorted: Seq<ByteRun>,
    x: int,
    y: int,
    b: int,
)
    requires
        stable_sorted(free_extents(extents), sorted, by_offset()),
        extents_fit(extents),
        extents_disjoint(extents),
        0 <= x < y < segments_of(sorted).len(),
        segment_has(segments_of(sorted)[x], b),
    ensures
        !segment_has(segments_of(sorted)[y], b),
{
    lemma_sorted_extents(extents, sorted);
    let ((i, p), (j, q)) = lemma_segment_sources(sorted, x, y);
    lemma_segments_tile_extent(sorted[i]);
    lemma_segments_tile_extent(sorted[j]);
    if i < j {
        assert(extents_apart(sorted[i], sorted[j]));
    } else if j < i {
        assert(extents_apart(sorted[j], sorted[i]));
    }
}

// ---------------------------------------------------------------------------
// Where the bytes of a carved file lie.

/// The extents come in order of their offset.
pub open spec fn extents_sorted(s: Seq<ByteRun>) -> bool {
    forall|i: int, j: int| 0 <= i <= j < s.len() ==> s[i].offset <= s[j].offset
}

/// How many extents start at `x` or before, in a list that is in order.
pub open spec fn starts_upto(s: Seq<ByteRun>, x: u64) -> int
    decreases s.len(),
{
    if s.len() == 0 {
        0
    } else if s.last().offset <= x {
        s.len() as int
    } else {
        starts_upto(s.drop_last(), x)
    }
}

pub proof fn lemma_starts_upto(s: Seq<ByteRun>, x: u64, k: int)
    requires
        0 <= k <= s.len(),
        k > 0 ==> s[k - 1].offset <= x,
        forall|i: int| k <= i < s.len() ==> s[i].offset > x,
    ensures
        starts_upto(s, x) == k,
    decreases s.len(),
{
    if s.len() > 0 && k < s.len() {
        lemma_starts_upto(s.drop_last(), x, k);
    }
}

/// How many extents start at `x` or before.
pub fn count_starts_upto(extents: &Vec<ByteRun>, x: u64) -> (r: usize)
    requires
        extents_sorted(extents@),
    ensures
        r == starts_upto(extents@, x),
        r <= extents@.len(),
        forall|i: int| 0 <= i < r ==> extents@[i].offset <= x,
        forall|i: int| r <= i < extents@.len() ==> extents@[i].offset > x,
{
    let mut lo: usize = 0;
    let mut hi: usize = extents.len();
    while lo < hi
        invariant
            lo <= hi <= extents@.len(),
            extents_sorted(extents@),
            forall|i: int| 0 <= i < lo ==> extents@[i].offset <= x,
            forall|i: int| hi <= i < extents@.len() ==> extents@[i].offset > x,
        decreases hi - lo,
    {
        let mid: usize = lo + (hi - lo) / 2;
        if extents[mid].offset <= x {
            lo = mid + 1;
        } else {
            hi = mid;
        }
    }
    proof {
        lemma_starts_upto(extents@, x, lo as int);
    }
    lo
}

/// The runs that hold `remaining` more bytes from `expected` on, in the extents from `i` on;
/// a later extent goes on with the file only where the gap before it is small.
pub open spec fn runs_from(
    extents: Seq<ByteRun>,
    i: int,
    expected: u64,
    remaining: u64,
    found: bool,
) -> Seq<ByteRun>
    decreases extents.len() - i,
{
    if i < 0 || i >= extents.len() {
        seq![]
    } else {
        let e = extents[i];
        let start = if expected < e.offset {
            e.offset
        } else {
            expected
        };
        if e.sparse {
            runs_from(extents, i + 1, expected, remaining, found)
        } else if expected < e.offset && (e.offset - expected > MAX_FRAGMENT_GAP || !found) {
            seq![]
        } else if start >= extent_end(e) {
            runs_from(extents, i + 1, expected, remaining, found)
        } else {
            let available = (extent_end(e) - start) as u64;
            let length = if available < remaining {
                available
            } else {
                remaining
            };
            let run = ByteRun { offset: start, length, sparse: false };
            if length == remaining {
                seq![run]
            } else {
                seq![run] + runs_from(
                    extents,
                    i + 1,
                    sat_add(start, length),
                    (remaining - length) as u64,
                    true,
                )
            }
        }
    }
}

/// The runs of a file of a given size that starts at `start`.
pub open spec fn carve_runs(start: u64, size: u64, extents: Seq<ByteRun>) -> Seq<ByteRun> {
    let k = starts_upto(extents, start) - 1;
    if k < 0 || extents[k].sparse || start >= extent_end(extents[k]) {
        seq![]
    } else {
        runs_from(extents, k, start, size, false)
    }
}

/// How many bytes a list of runs holds.
pub open spec fn total_length(runs: Seq<ByteRun>) -> int
    decreases runs.len(),
{
    if runs.len() == 0 {
        0
    } else {
        total_length(runs.drop_last()) + runs.last().length
    }
}

pub proof fn lemma_total_length_concat(a: Seq<ByteRun>, b: Seq<ByteRun>)
    ensures
        total_length(a + b) == total_length(a) + total_length(b),
    decreases b.len(),
{
    if b.len() == 0 {
        assert(a + b =~= a);
    } else {
        assert((a + b).drop_last() =~= a + b.drop_last());
        lemma_total_length_concat(a, b.drop_last());
    }
}

pub proof fn lemma_total_length_one(run: ByteRun)
    ensures
        total_length(seq![run]) == run.length,
{
    let s = seq![run];
    assert(s.drop_last() =~= seq![]);
    assert(total_length(s.drop_last()) == 0);
}

/// The runs of a carved file hold no more bytes than the file has, none of them is a hole,
/// and each lies in one of the extents.
pub proof fn lemma_runs_from(
    extents: Seq<ByteRun>,
    i: int,
    expected: u64,
    remaining: u64,
    found: bool,
)
    requires
        0 <= i,
    ensures
        0 <= total_length(runs_from(extents, i, expected, remaining, found)) <= remaining,
        forall|k: int|
            0 <= k < runs_from(extents, i, expected, remaining, found).len() ==> within_extents(
                extents,
                #[trigger] runs_from(extents, i, expected, remaining, found)[k],
            ),
    decreases extents.len() - i,
{
    let runs = runs_from(extents, i, expected, remaining, found);
    if i < extents.len() {
        let e = extents[i];
        let start = if expected < e.offset {
            e.offset
        } else {
            expected
        };
        if e.sparse {
            lemma_runs_from(extents, i + 1, expected, remaining, found);
        } else if expected < e.offset && (e.offset - expected > MAX_FRAGMENT_GAP || !found) {
        } else if start >= extent_end(e) {
            lemma_runs_from(extents, i + 1, expected, remaining, found);
        } else {
            let available = (extent_end(e) - start) as u64;
            let length = if available < remaining {
                available
            } else {
                remaining
            };
            let run = ByteRun { offset: start, length, sparse: false };
            lemma_total_length_one(run);
            assert(within_extents(extents, run)) by {
                assert(run_within(e, run));
            }
            if length != remaining {
                let rest = runs_from(
                    extents,
                    i + 1,
                    sat_add(start, length),
                    (remaining - length) as u64,
                    true,
                );
                lemma_runs_from(
                    extents,
                    i + 1,
                    sat_add(start, length),
                    (remaining - length) as u64,
                    true,
                );
                lemma_total_length_concat(seq![run], rest);
                assert forall|k: int| 0 <= k < runs.len() implies within_extents(
                    extents,
                    #[trigger] runs[k],
                ) by {
                    if k > 0 {
                        assert(runs[k] == rest[k - 1]);
                    }
                }
            }
        }
    }
}

/// A run lies in an extent.
pub open spec fn run_within(e: ByteRun, run: ByteRun) -> bool {
    !e.sparse && !run.sparse && e.offset <= run.offset && run.offset + run.length <= extent_end(e)
}

/// A run lies in one of the extents.
pub open spec fn within_extents(extents: Seq<ByteRun>, run: ByteRun) -> bool {
    exists|j: int| 0 <= j < extents.len() && #[trigger] run_within(extents[j], run)
}

/// The runs of a carved file hold no more bytes than the file has, and each lies in one of
/// the free extents.
pub proof fn lemma_carve_runs_stay_in_extents(start: u64, size: u64, extents: Seq<ByteRun>)
    ensures
        0 <= total_length(carve_runs(start, size, extents)) <= size,
        forall|k: int|
            0 <= k < carve_runs(start, size, extents).len() ==> within_extents(
                extents,
                #[trigger] carve_runs(start, size, extents)[k],
            ),
{
    let k = starts_upto(extents, start) - 1;
    if k >= 0 {
        lemma_runs_from(extents, k, start, size, false);
    }
}

/// The first run of a carved file starts where the file does.
pub proof fn lemma_carve_runs_start(start: u64, size: u64, extents: Seq<ByteRun>)
    requires
        extents_sorted(extents),
    ensures
        carve_runs(start, size, extents).len() > 0 ==> carve_runs(start, size, extents)[0].offset
            == start,
{
    let k = starts_upto(extents, start) - 1;
    if k >= 0 {
        lemma_starts_upto_bounds(extents, start);
    }
}

proof fn lemma_starts_upto_bounds(s: Seq<ByteRun>, x: u64)
    ensures
        0 <= starts_upto(s, x) <= s.len(),
        starts_upto(s, x) > 0 ==> s[starts_upto(s, x) - 1].offset <= x,
    decreases s.len(),
{
    if s.len() > 0 && s.last().offset > x {
        lemma_starts_upto_bounds(s.drop_last(), x);
    }
}

pub fn build_carve_runs(start_offset: u64, logical_size: u64, ordered_extents: &Vec<ByteRun>) -> (r:
    Vec<ByteRun>)
    requires
        extents_sorted(ordered_extents@),
    ensures
        r@ == carve_runs(start_offset, logical_size, ordered_extents@),
{
    let mut runs: Vec<ByteRun> = Vec::new();
    let after: usize = count_starts_upto(ordered_extents, start_offset);
    if after == 0 {
        return runs;
    }
    let first = ordered_extents[after - 1];
    if first.sparse || start_offset >= first.offset.saturating_add(first.length) {
        return runs;
    }
    let mut i: usize = after - 1;
    let mut expected: u64 = start_offset;
    let mut remaining: u64 = logical_size;
    let ghost all = carve_runs(start_offset, logical_size, ordered_extents@);
    assert(runs@ + runs_from(ordered_extents@, i as int, expected, remaining, false) =~= all);
    while i < ordered_extents.len()
        invariant
            i <= ordered_extents@.len(),
            all == carve_runs(start_offset, logical_size, ordered_extents@),
            runs@ + runs_from(
                ordered_extents@,
                i as int,
                expected,
                remaining,
                runs@.len() > 0,
            ) == all,
        decreases ordered_extents@.len() - i,
    {
        let e = ordered_extents[i];
        if e.sparse {
            i += 1;
            continue;
        }
        let end: u64 = e.offset.saturating_add(e.length);
        if expected < e.offset && (e.offset - expected > MAX_FRAGMENT_GAP || runs.len() == 0) {
            assert(runs@ + seq![] =~= runs@);
            return runs;
        }
        let start: u64 = if expected < e.offset {
            e.offset
        } else {
            expected
        };
        if start >= end {
            i += 1;
            continue;
        }
        let available: u64 = end - start;
        let length: u64 = if available < remaining {
            available
        } else {
            remaining
        };
        let ghost before = runs@;
        runs.push(ByteRun { offset: start, length, sparse: false });
        if length == remaining {
            assert(runs@ =~= before + seq![ByteRun { offset: start, length, sparse: false }]);
            return runs;
        }
        remaining = remaining - length;
        expected = start.saturating_add(length);
        i += 1;
        assert(runs@ + runs_from(ordered_extents@, i as int, expected, remaining, true) =~= before
            + (seq![ByteRun { offset: start, length, sparse: false }] + runs_from(
            ordered_extents@,
            i as int,
            expected,
            remaining,
            true,
        )));
    }
    assert(runs@ + seq![] =~= runs@);
    runs
}

// ---------------------------------------------------------------------------
// Signatures.

/// The marks that a pass looks for, in order.
pub open spec fn signature_marks() -> Seq<(ArtifactKind, Seq<u8>)> {
    seq![
        (ArtifactKind::Pe, mz_mark()),
        (ArtifactKind::Zip, zip_mark()),
        (ArtifactKind::Rar, rar_mark()),
        (ArtifactKind::SevenZip, seven_zip_mark()),
        (ArtifactKind::Cab, cab_mark()),
        (ArtifactKind::Pdf, pdf_mark()),
        (ArtifactKind::Png, png_mark()),
        (ArtifactKind::Jpg, jpeg_mark()),
        (ArtifactKind::Gif, gif87_mark()),
        (ArtifactKind::Gif, gif89_mark()),
        (ArtifactKind::Sqlite, sqlite_mark()),
        (ArtifactKind::Gzip, gzip_mark()),
        (ArtifactKind::Bzip2, bzip2_mark()),
        (ArtifactKind::Xz, xz_mark()),
        (ArtifactKind::OleCompound, ole_mark()),
    ]
}

/// The six bytes that both versions of a RAR mark start with.
pub open spec fn rar_mark() -> Seq<u8> {
    seq![0x52u8, 0x61, 0x72, 0x21, 0x1a, 0x07]
}

/// The kinds of the marks.
fn signature_kinds() -> (r: Vec<ArtifactKind>)
    ensures
        r@.len() == signature_marks().len(),
        forall|i: int| 0 <= i < r@.len() ==> #[trigger] r@[i] == signature_marks()[i].0,
{
    let r = vec![
        ArtifactKind::Pe,
        ArtifactKind::Zip,
        ArtifactKind::Rar,
        ArtifactKind::SevenZip,
        ArtifactKind::Cab,
        ArtifactKind::Pdf,
        ArtifactKind::Png,
        ArtifactKind::Jpg,
        ArtifactKind::Gif,
        ArtifactKind::Gif,
        ArtifactKind::Sqlite,
        ArtifactKind::Gzip,
        ArtifactKind::Bzip2,
        ArtifactKind::Xz,
        ArtifactKind::OleCompound,
    ];
    r
}

/// The bytes of each pattern.
pub open spec fn pattern_views(patterns: Seq<Vec<u8>>) -> Seq<Seq<u8>> {
    patterns.map_values(|p: Vec<u8>| p@)
}

/// The bytes of the marks.
pub open spec fn mark_bytes() -> Seq<Seq<u8>> {
    signature_marks().map_values(|m: (ArtifactKind, Seq<u8>)| m.1)
}

/// The bytes of the marks.
fn signature_patterns() -> (r: Vec<Vec<u8>>)
    ensures
        pattern_views(r@) == mark_bytes(),
{
    let r = vec![
        vec![0x4d, 0x5a],
        vec![0x50, 0x4b, 0x03, 0x04],
        vec![0x52, 0x61, 0x72, 0x21, 0x1a, 0x07],
        vec![0x37, 0x7a, 0xbc, 0xaf, 0x27, 0x1c],
        vec![0x4d, 0x53, 0x43, 0x46],
        vec![0x25, 0x50, 0x44, 0x46, 0x2d],
        vec![0x89, 0x50, 0x4e, 0x47, 0x0d, 0x0a, 0x1a, 0x0a],
        vec![0xff, 0xd8, 0xff],
        vec![0x47, 0x49, 0x46, 0x38, 0x37, 0x61],
        vec![0x47, 0x49, 0x46, 0x38, 0x39, 0x61],
        vec![
            0x53, 0x51, 0x4c, 0x69, 0x74, 0x65, 0x20, 0x66, 0x6f, 0x72, 0x6d, 0x61, 0x74, 0x20,
            0x33, 0,
        ],
        vec![0x1f, 0x8b, 0x08],
        vec![0x42, 0x5a, 0x68],
        vec![0xfd, 0x37, 0x7a, 0x58, 0x5a, 0x00],
        vec![0xd0, 0xcf, 0x11, 0xe0, 0xa1, 0xb1, 0x1a, 0xe1],
    ];
    proof {
        let v = pattern_views(r@);
        let m = mark_bytes();
        assert(v.len() == m.len());
        assert(v[0] =~= m[0]);
        assert(v[1] =~= m[1]);
        assert(v[2] =~= m[2]);
        assert(v[3] =~= m[3]);
        assert(v[4] =~= m[4]);
        assert(v[5] =~= m[5]);
        assert(v[6] =~= m[6]);
        assert(v[7] =~= m[7]);
        assert(v[8] =~= m[8]);
        assert(v[9] =~= m[9]);
        assert(v[10] =~= m[10]);
        assert(v[11] =~= m[11]);
        assert(v[12] =~= m[12]);
        assert(v[13] =~= m[13]);
        assert(v[14] =~= m[14]);
        assert forall|i: int| 0 <= i < v.len() implies v[i] == m[i] by {
            if i < 8 {
            }
        }
        assert(v =~= m);
    }
    r
}

/// A bit of the signature check: enough of the header is there and it makes sense.
pub open spec fn plausible(kind: ArtifactKind, s: Seq<u8>) -> bool {
    match kind {
        ArtifactKind::Pe => {
            &&& s.len() >= 0x40
            &&& marked(s, mz_mark())
            &&& 0x40 <= le32(s, 0x3c) <= 0x10_0000
            &&& le32(s, 0x3c) + 4 <= s.len() ==> occurs_at(s, pe_mark(), le32(s, 0x3c))
        },
        ArtifactKind::Zip => {
            &&& s.len() >= 30
            &&& marked(s, zip_mark())
            &&& zip_method(le16(s, 8))
            &&& le16(s, 26) > 0
            &&& 30 + le16(s, 26) + le16(s, 28) <= s.len()
        },
        ArtifactKind::Gzip => {
            &&& s.len() >= 10
            &&& marked(s, gzip_mark())
            &&& s[3] & 0xe0u8 == 0
        },
        ArtifactKind::Bzip2 => s.len() >= 4 && marked(s, bzip2_mark()) && 0x31 <= s[3] <= 0x39,
        ArtifactKind::Xz => marked(s, xz_mark()),
        ArtifactKind::Png => marked(s, png_mark()),
        ArtifactKind::Gif => {
            &&& s.len() >= 10
            &&& marked(s, gif87_mark()) || marked(s, gif89_mark())
            &&& le16(s, 6) > 0
            &&& le16(s, 8) > 0
        },
        ArtifactKind::Jpg => s.len() >= 4 && marked(s, jpeg_mark()),
        ArtifactKind::Rar => s.len() >= 7 && marked(s, rar_mark()),
        ArtifactKind::SevenZip => marked(s, seven_zip_mark()),
        ArtifactKind::Cab => s.len() >= 8 && marked(s, cab_mark()),
        ArtifactKind::Pdf => s.len() >= 8 && marked(s, pdf_mark()),
        ArtifactKind::Sqlite => marked(s, sqlite_mark()),
        ArtifactKind::OleCompound => marked(s, ole_mark()),
        _ => true,
    }
}

/// A compression method that ZIP archives use.
pub open spec fn zip_method(m: int) -> bool {
    m == 0 || m == 1 || m == 6 || m == 8 || m == 9 || m == 12 || m == 14 || m == 93 || m == 95 || m
        == 98 || m == 99
}

/// Whether a mark starts something that can be a file of its kind.
pub fn quick_signature_plausible(kind: ArtifactKind, bytes: &[u8]) -> (r: bool)
    ensures
        r == plausible(kind, bytes@),
{
    match kind {
        ArtifactKind::Pe => {
            if bytes.len() < 0x40 || !starts_with(bytes, &[0x4d, 0x5a]) {
                return false;
            }
            let at: u64 = read_le32(bytes, 0x3c) as u64;
            if at < 0x40 || at > 0x10_0000 {
                return false;
            }
            if bytes.len() as u64 >= at + 4 {
                matches_at(bytes, &[0x50, 0x45, 0, 0], at as usize)
            } else {
                true
            }
        },
        ArtifactKind::Zip => {
            if bytes.len() < 30 || !starts_with(bytes, &[0x50, 0x4b, 0x03, 0x04]) {
                return false;
            }
            let m: u16 = read_le16(bytes, 8);
            let name_len: u64 = read_le16(bytes, 26) as u64;
            let extra_len: u64 = read_le16(bytes, 28) as u64;
            (m == 0 || m == 1 || m == 6 || m == 8 || m == 9 || m == 12 || m == 14 || m == 93 || m
                == 95 || m == 98 || m == 99) && name_len > 0 && 30 + name_len + extra_len
                <= bytes.len() as u64
        },
        ArtifactKind::Gzip => bytes.len() >= 10 && starts_with(bytes, &[0x1f, 0x8b, 0x08])
            && bytes[3] & 0xe0 == 0,
        ArtifactKind::Bzip2 => bytes.len() >= 4 && starts_with(bytes, &[0x42, 0x5a, 0x68]) && 0x31
            <= bytes[3] && bytes[3] <= 0x39,
        ArtifactKind::Xz => starts_with(bytes, &[0xfd, 0x37, 0x7a, 0x58, 0x5a, 0x00]),
        ArtifactKind::Png => starts_with(
            bytes,
            &[0x89, 0x50, 0x4e, 0x47, 0x0d, 0x0a, 0x1a, 0x0a],
        ),
        ArtifactKind::Gif => bytes.len() >= 10 && (starts_with(
            bytes,
            &[0x47, 0x49, 0x46, 0x38, 0x37, 0x61],
        ) || starts_with(bytes, &[0x47, 0x49, 0x46, 0x38, 0x39, 0x61])) && read_le16(bytes, 6) > 0
            && read_le16(bytes, 8) > 0,
        ArtifactKind::Jpg => bytes.len() >= 4 && starts_with(bytes, &[0xff, 0xd8, 0xff]),
        ArtifactKind::Rar => bytes.len() >= 7 && starts_with(
            bytes,
            &[0x52, 0x61, 0x72, 0x21, 0x1a, 0x07],
        ),
        ArtifactKind::SevenZip => starts_with(bytes, &[0x37, 0x7a, 0xbc, 0xaf, 0x27, 0x1c]),
        ArtifactKind::Cab => bytes.len() >= 8 && starts_with(bytes, &[0x4d, 0x53, 0x43, 0x46]),
        ArtifactKind::Pdf => bytes.len() >= 8 && starts_with(
            bytes,
            &[0x25, 0x50, 0x44, 0x46, 0x2d],
        ),
        ArtifactKind::Sqlite => starts_with(
            bytes,
            &[
                0x53, 0x51, 0x4c, 0x69, 0x74, 0x65, 0x20, 0x66, 0x6f, 0x72, 0x6d, 0x61, 0x74, 0x20,
                0x33, 0,
            ],
        ),
        ArtifactKind::OleCompound => starts_with(
            bytes,
            &[0xd0, 0xcf, 0x11, 0xe0, 0xa1, 0xb1, 0x1a, 0xe1],
        ),
        _ => true,
    }
}

/// The extension of a carved file.
pub open spec fn carved_extension(kind: ArtifactKind) -> Seq<char> {
    match kind {
        ArtifactKind::Exe | ArtifactKind::Pe => "exe"@,
        ArtifactKind::Dll => "dll"@,
        ArtifactKind::Sys => "sys"@,
        ArtifactKind::Msi => "msi"@,
        ArtifactKind::Jar => "jar"@,
        ArtifactKind::Zip => "zip"@,
        ArtifactKind::Apk => "apk"@,
        ArtifactKind::Rar => "rar"@,
        ArtifactKind::SevenZip => "7z"@,
        ArtifactKind::Cab => "cab"@,
        ArtifactKind::Gzip => "gz"@,
        ArtifactKind::Bzip2 => "bz2"@,
        ArtifactKind::Xz => "xz"@,
        ArtifactKind::Iso => "iso"@,
        ArtifactKind::Pdf => "pdf"@,
        ArtifactKind::Png => "png"@,
        ArtifactKind::Jpg => "jpg"@,
        ArtifactKind::Gif => "gif"@,
        ArtifactKind::Sqlite => "sqlite3"@,
        ArtifactKind::OleCompound => "ole"@,
        _ => "bin"@,
    }
}

pub fn extension_for_kind(kind: ArtifactKind) -> (r: &'static str)
    ensures
        r@ == carved_extension(kind),
{
    match kind {
        ArtifactKind::Exe | ArtifactKind::Pe => "exe",
        ArtifactKind::Dll => "dll",
        ArtifactKind::Sys => "sys",
        ArtifactKind::Msi => "msi",
        ArtifactKind::Jar => "jar",
        ArtifactKind::Zip => "zip",
        ArtifactKind::Apk => "apk",
        ArtifactKind::Rar => "rar",
        ArtifactKind::SevenZip => "7z",
        ArtifactKind::Cab => "cab",
        ArtifactKind::Gzip => "gz",
        ArtifactKind::Bzip2 => "bz2",
        ArtifactKind::Xz => "xz",
        ArtifactKind::Iso => "iso",
        ArtifactKind::Pdf => "pdf",
        ArtifactKind::Png => "png",
        ArtifactKind::Jpg => "jpg",
        ArtifactKind::Gif => "gif",
        ArtifactKind::Sqlite => "sqlite3",
        ArtifactKind::OleCompound => "ole",
        _ => "bin",
    }
}

// ---------------------------------------------------------------------------
// From a mark to a record.

/// What the bytes behind a mark tell about the file.
#[derive(Debug, Clone, Copy, PartialEq, Eq, Structural)]
pub struct CarveEstimate {
    pub length: u64,
    pub kind: ArtifactKind,
    pub confidence: Confidence,
    pub exact: bool,
}

/// A file whose end is known.
pub open spec fn exact_estimate(size: Option<int>, kind: ArtifactKind) -> Option<CarveEstimate> {
    match size {
        Some(n) => Some(
            CarveEstimate { length: n as u64, kind, confidence: Confidence::High, exact: true },
        ),
        None => None,
    }
}

/// A file whose end is not known: all that was read.
pub open spec fn open_estimate(probe: Seq<u8>, kind: ArtifactKind) -> Option<CarveEstimate> {
    Some(
        CarveEstimate {
            length: probe.len() as u64,
            kind,
            confidence: Confidence::Medium,
            exact: false,
        },
    )
}

/// The estimate for the bytes that follow a mark of some kind.
pub open spec fn estimate(kind: ArtifactKind, probe: Seq<u8>) -> Option<CarveEstimate> {
    match kind {
        ArtifactKind::Pe => exact_estimate(
            pe_size(probe),
            inferred_kind("carved.bin"@, Some(probe)),
        ),
        ArtifactKind::Zip => exact_estimate(zip_size(probe), zip_kind(probe)),
        ArtifactKind::SevenZip => exact_estimate(seven_zip_size(probe), kind),
        ArtifactKind::Cab => exact_estimate(cab_size(probe), kind),
        ArtifactKind::Pdf => exact_estimate(pdf_size(probe), kind),
        ArtifactKind::Png => exact_estimate(png_size(probe), kind),
        ArtifactKind::Jpg => exact_estimate(jpeg_size(probe), kind),
        ArtifactKind::Gif => exact_estimate(gif_size(probe), kind),
        ArtifactKind::Rar => match rar_size(probe) {
            Some(n) => exact_estimate(Some(n), kind),
            None => open_estimate(probe, kind),
        },
        ArtifactKind::Sqlite | ArtifactKind::Gzip | ArtifactKind::Bzip2
        | ArtifactKind::Xz => open_estimate(probe, kind),
        ArtifactKind::OleCompound => open_estimate(
            probe,
            inferred_kind("carved.bin"@, Some(probe)),
        ),
        _ => None,
    }
}

fn exact_or_none(size: Option<u64>, kind: ArtifactKind) -> (r: Option<CarveEstimate>)
    ensures
        r == match size {
            Some(n) => Some(
                CarveEstimate { length: n, kind, confidence: Confidence::High, exact: true },
            ),
            None => None,
        },
{
    match size {
        Some(n) => Some(
            CarveEstimate { length: n, kind, confidence: Confidence::High, exact: true },
        ),
        None => None,
    }
}

/// Estimates the file that starts with `probe`, which a mark of the given kind opens.
pub fn estimate_candidate(kind: ArtifactKind, probe: &[u8]) -> (r: Option<CarveEstimate>)
    requires
        kind == ArtifactKind::SevenZip ==> seven_zip_size_fits(probe@),
    ensures
        r == estimate(kind, probe@),
{
    let n: u64 = probe.len() as u64;
    match kind {
        ArtifactKind::Pe => exact_or_none(
            estimate_pe_size(probe),
            infer_artifact_kind("carved.bin", Some(probe)),
        ),
        ArtifactKind::Zip => match estimate_zip_size(probe) {
            Some((end, zip)) => exact_or_none(Some(end), zip),
            None => None,
        },
        ArtifactKind::SevenZip => exact_or_none(estimate_7z_size(probe), kind),
        ArtifactKind::Cab => exact_or_none(estimate_cab_size(probe), kind),
        ArtifactKind::Pdf => exact_or_none(estimate_pdf_size(probe), kind),
        ArtifactKind::Png => exact_or_none(estimate_png_size(probe), kind),
        ArtifactKind::Jpg => exact_or_none(estimate_jpeg_size(probe), kind),
        ArtifactKind::Gif => exact_or_none(estimate_gif_size(probe), kind),
        ArtifactKind::Rar => match estimate_rar_size(probe) {
            Some((end, _)) => exact_or_none(Some(end), kind),
            None => Some(
                CarveEstimate { length: n, kind, confidence: Confidence::Medium, exact: false },
            ),
        },
        ArtifactKind::Sqlite | ArtifactKind::Gzip | ArtifactKind::Bzip2 | ArtifactKind::Xz => Some(
            CarveEstimate { length: n, kind, confidence: Confidence::Medium, exact: false },
        ),
        ArtifactKind::OleCompound => Some(
            CarveEstimate {
                length: n,
                kind: infer_artifact_kind("carved.bin", Some(probe)),
                confidence: Confidence::Medium,
                exact: false,
            },
        ),
        _ => None,
    }
}

/// How many bytes behind a mark are read to check it.
pub open spec fn probe_length(kind: ArtifactKind) -> u64 {
    match kind {
        ArtifactKind::Pe => 0x8_0000,
        ArtifactKind::Zip | ArtifactKind::Rar => 0x40_0000,
        ArtifactKind::SevenZip | ArtifactKind::Cab => 0x4_0000,
        _ => 0x20_0000,
    }
}

/// The length of the first mark of a kind.
pub open spec fn mark_length(kind: ArtifactKind) -> u64 {
    match kind {
        ArtifactKind::Pe => 2,
        ArtifactKind::Zip | ArtifactKind::Cab => 4,
        ArtifactKind::Rar | ArtifactKind::SevenZip | ArtifactKind::Gif | ArtifactKind::Xz => 6,
        ArtifactKind::Pdf => 5,
        ArtifactKind::Png | ArtifactKind::OleCompound => 8,
        ArtifactKind::Jpg | ArtifactKind::Gzip | ArtifactKind::Bzip2 => 3,
        ArtifactKind::Sqlite => 16,
        _ => 1,
    }
}

/// The lengths agree with the marks.
pub proof fn lemma_mark_length(i: int)
    requires
        0 <= i < signature_marks().len(),
    ensures
        signature_marks()[i].1.len() == mark_length(signature_marks()[i].0),
{
}

/// How many bytes are read to check a mark; `None` where the extent ends before the mark.
pub fn candidate_read_length(kind: ArtifactKind, offset: u64, scan_end: u64) -> (r: Option<u64>)
    ensures
        ({
            let available = if offset < scan_end {
                (scan_end - offset) as u64
            } else {
                0u64
            };
            if available < mark_length(kind) {
                r is None
            } else {
                r == Some(
                    if available < probe_length(kind) {
                        available
                    } else {
                        probe_length(kind)
                    },
                )
            }
        }),
{
    let available: u64 = scan_end.saturating_sub(offset);
    let mark: u64 = match kind {
        ArtifactKind::Pe => 2,
        ArtifactKind::Zip | ArtifactKind::Cab => 4,
        ArtifactKind::Rar | ArtifactKind::SevenZip | ArtifactKind::Gif | ArtifactKind::Xz => 6,
        ArtifactKind::Pdf => 5,
        ArtifactKind::Png | ArtifactKind::OleCompound => 8,
        ArtifactKind::Jpg | ArtifactKind::Gzip | ArtifactKind::Bzip2 => 3,
        ArtifactKind::Sqlite => 16,
        _ => 1,
    };
    let probe: u64 = match kind {
        ArtifactKind::Pe => 0x8_0000,
        ArtifactKind::Zip | ArtifactKind::Rar => 0x40_0000,
        ArtifactKind::SevenZip | ArtifactKind::Cab => 0x4_0000,
        _ => 0x20_0000,
    };
    if available < mark {
        None
    } else if available < probe {
        Some(available)
    } else {
        Some(probe)
    }
}

/// The runs of a candidate; without a free extent around it, what is left of the segment.
pub open spec fn candidate_runs(
    offset: u64,
    length: u64,
    scan_end: u64,
    extents: Seq<ByteRun>,
) -> Seq<ByteRun> {
    let runs = carve_runs(offset, length, extents);
    let available = if offset < scan_end {
        (scan_end - offset) as u64
    } else {
        0u64
    };
    if runs.len() > 0 {
        runs
    } else {
        seq![
            ByteRun {
                offset,
                length: if length < available {
                    length
                } else {
                    available
                },
                sparse: false,
            },
        ]
    }
}

/// The name of a carved file.
pub open spec fn carved_name(offset: u64, kind: ArtifactKind) -> Seq<char> {
    "carved_"@ + zero_padded(hexadecimal(offset as nat, true), 16) + "."@ + carved_extension(kind)
}

/// The mark of a fragment.
pub open spec fn carved_fragment_id(offset: u64, length: u64) -> Seq<char> {
    "frag-"@ + zero_padded(hexadecimal(offset as nat, true), 16) + "-"@ + hexadecimal(
        length as nat,
        true,
    )
}

/// The note on a file that is not whole.
pub open spec fn truncation_note() -> Seq<char> {
    "Carved object is truncated or validator could not determine a trustworthy end marker."@
}

/// `r` is the record of the file that `est` describes and that lies in `runs`.
pub open spec fn is_carved_record(
    r: ArtifactRecord,
    scan_id: Seq<char>,
    source: ScanSource,
    offset: u64,
    est: CarveEstimate,
    runs: Seq<ByteRun>,
) -> bool {
    let length = total_length(runs) as u64;
    let partial = length < est.length || !est.exact;
    &&& r.scan_id@ == scan_id
    &&& r.source_id@ == source.id@
    &&& r.name@ == carved_name(offset, est.kind)
    &&& r.original_path is None
    &&& r.probable_path is None
    &&& r.placement_kind == PlacementKind::UnknownParent
    &&& r.path_confidence == PathConfidence::Unknown
    &&& r.path_evidence@.len() == 0
    &&& r.name_source == NameSourceKind::Generated
    &&& r.content_source == if partial {
        ContentSourceKind::FragmentCandidate
    } else {
        ContentSourceKind::ContiguousCarve
    }
    &&& r.artifact_class == if partial {
        ArtifactClass::FragmentCandidate
    } else {
        ArtifactClass::CarvedHit
    }
    &&& r.preview_ready
    &&& r.is_fragment == partial
    &&& opt_view(r.fragment_id) == if partial {
        Some(carved_fragment_id(offset, length))
    } else {
        None
    }
    &&& r.extension is None
    &&& r.family == family_of(est.kind)
    &&& r.kind == est.kind
    &&& r.origin_type == if partial {
        OriginType::PartialFragment
    } else {
        OriginType::UnallocatedCarved
    }
    &&& r.confidence == est.confidence
    &&& r.recoverability == if partial {
        Recoverability::Partial
    } else {
        Recoverability::Good
    }
    &&& !r.deleted_entry
    &&& r.size == length
    &&& r.priority_score == family_score(family_of(est.kind))
    &&& r.filesystem_record is None
    &&& r.parent_reference is None
    &&& r.raw_offset == Some(offset)
    &&& r.raw_length == Some(length)
    &&& r.created_at is None
    &&& r.modified_at is None
    &&& r.deleted_at is None
    &&& r.deleted_time_source is None
    &&& r.deleted_time_confidence == DeletedTimeConfidence::Unknown
    &&& r.last_metadata_change_at is None
    &&& views(r.notes@) == if partial {
        seq![truncation_note()]
    } else {
        seq![]
    }
    &&& r.preview@.len() == 2
    &&& r.preview@[0].label@ == "Carve Offset"@
    &&& r.preview@[0].value@ == "0x"@ + hexadecimal(offset as nat, false)
    &&& r.preview@[1].label@ == "Estimated Size"@
    &&& r.preview@[1].value@ == decimal(est.length as nat) + " bytes"@
    &&& match r.recovery_plan {
        RecoveryPlan::RawRuns { source_path, runs: plan_runs, logical_size } => source_path@
            == source.device_path@ && plan_runs@ == runs && logical_size == length,
        _ => false,
    }
}

/// The total of runs that hold no more than 64 bits count.
fn sum_lengths(runs: &Vec<ByteRun>) -> (r: u64)
    requires
        total_length(runs@) <= u64::MAX,
    ensures
        r == total_length(runs@),
{
    let mut total: u64 = 0;
    let mut i: usize = 0;
    while i < runs.len()
        invariant
            i <= runs@.len(),
            total == total_length(runs@.subrange(0, i as int)),
            total_length(runs@) <= u64::MAX,
        decreases runs@.len() - i,
    {
        proof {
            let front = runs@.subrange(0, i + 1);
            assert(front.drop_last() =~= runs@.subrange(0, i as int));
            lemma_total_length_concat(front, runs@.subrange(i + 1, runs@.len() as int));
            assert(front + runs@.subrange(i + 1, runs@.len() as int) =~= runs@);
            lemma_total_length_nonnegative(runs@.subrange(i + 1, runs@.len() as int));
        }
        total = total + runs[i].length;
        i += 1;
    }
    assert(runs@.subrange(0, i as int) =~= runs@);
    total
}

pub proof fn lemma_total_length_nonnegative(runs: Seq<ByteRun>)
    ensures
        total_length(runs) >= 0,
    decreases runs.len(),
{
    if runs.len() > 0 {
        lemma_total_length_nonnegative(runs.drop_last());
    }
}

/// The record, with a given id, of a carved file.
pub fn carved_record(
    id: String,
    scan_id: &str,
    source: &ScanSource,
    offset: u64,
    est: CarveEstimate,
    runs: Vec<ByteRun>,
) -> (r: ArtifactRecord)
    requires
        total_length(runs@) <= u64::MAX,
    ensures
        r.id@ == id@,
        is_carved_record(r, scan_id@, *source, offset, est, runs@),
{
    let length: u64 = sum_lengths(&runs);
    let partial: bool = length < est.length || !est.exact;
    let digits = hex_string(offset, true, 16);
    let mut name = concat2("carved_", digits.as_str());
    name.append(".");
    name.append(extension_for_kind(est.kind));
    let fragment_id: Option<String> = if partial {
        let mut mark = concat3("frag-", digits.as_str(), "-");
        push_hex(&mut mark, length, true);
        Some(mark)
    } else {
        None
    };
    let mut shown_offset = owned("0x");
    push_hex(&mut shown_offset, offset, false);
    let mut shown_size = decimal_string(est.length);
    shown_size.append(" bytes");
    let mut notes: Vec<String> = Vec::new();
    if partial {
        notes.push(
            owned(
                "Carved object is truncated or validator could not determine a trustworthy end marker.",
            ),
        );
    }
    assert(views(notes@) =~= if partial {
        seq![truncation_note()]
    } else {
        seq![]
    });
    let mut record = ArtifactRecord::with_id(id, scan_id, source.id.as_str(), name.as_str());
    record.kind = est.kind;
    record.family = est.kind.family();
    record.priority_score = est.kind.priority_score();
    record.origin_type =
    if partial {
        OriginType::PartialFragment
    } else {
        OriginType::UnallocatedCarved
    };
    record.deleted_entry = false;
    record.confidence = est.confidence;
    record.recoverability =
    if partial {
        Recoverability::Partial
    } else {
        Recoverability::Good
    };
    record.placement_kind = PlacementKind::UnknownParent;
    record.path_confidence = PathConfidence::Unknown;
    record.name_source = NameSourceKind::Generated;
    record.content_source =
    if partial {
        ContentSourceKind::FragmentCandidate
    } else {
        ContentSourceKind::ContiguousCarve
    };
    record.artifact_class =
    if partial {
        ArtifactClass::FragmentCandidate
    } else {
        ArtifactClass::CarvedHit
    };
    record.preview_ready = true;
    record.is_fragment = partial;
    record.fragment_id = fragment_id;
    record.size = length;
    record.raw_offset = Some(offset);
    record.raw_length = Some(length);
    let mut preview: Vec<PreviewFact> = Vec::new();
    preview.push(PreviewFact { label: owned("Carve Offset"), value: shown_offset });
    preview.push(PreviewFact { label: owned("Estimated Size"), value: shown_size });
    record.preview = preview;
    record.notes = notes;
    record.recovery_plan =
    RecoveryPlan::RawRuns {
        source_path: source.device_path.clone(),
        runs,
        logical_size: length,
    };
    record
}

/// The record of the file behind a mark, if the bytes that were read confirm it: it needs an
/// estimate of 128 bytes or more.
pub fn carve_candidate(
    scan_id: &str,
    source: &ScanSource,
    kind: ArtifactKind,
    offset: u64,
    scan_end: u64,
    ordered_extents: &Vec<ByteRun>,
    probe: &[u8],
) -> (r: Option<ArtifactRecord>)
    requires
        extents_sorted(ordered_extents@),
        kind == ArtifactKind::SevenZip ==> seven_zip_size_fits(probe@),
    ensures
        match r {
            Some(record) => {
                &&& is_scan_id(record.id@)
                &&& probe@.len() > 0
                &&& estimate(kind, probe@) matches Some(est) && est.length >= 128
                    && is_carved_record(
                    record,
                    scan_id@,
                    *source,
                    offset,
                    est,
                    candidate_runs(offset, est.length, scan_end, ordered_extents@),
                )
            },
            None => probe@.len() == 0 || (estimate(kind, probe@) matches Some(est) ==> est.length
                < 128),
        },
{
    if probe.len() == 0 {
        return None;
    }
    let est = match estimate_candidate(kind, probe) {
        Some(est) => est,
        None => {
            return None;
        },
    };
    if est.length < 128 {
        return None;
    }
    let mut runs = build_carve_runs(offset, est.length, ordered_extents);
    proof {
        lemma_carve_runs_stay_in_extents(offset, est.length, ordered_extents@);
    }
    if runs.len() == 0 {
        let available: u64 = scan_end.saturating_sub(offset);
        let run = ByteRun {
            offset,
            length: if est.length < available {
                est.length
            } else {
                available
            },
            sparse: false,
        };
        runs.push(run);
        proof {
            lemma_total_length_one(run);
            assert(runs@ =~= seq![run]);
        }
    }
    Some(carved_record(new_scan_id(), scan_id, source, offset, est, runs))
}

// ---------------------------------------------------------------------------
// Finding the marks in a chunk.

/// `(p, start)` is an occurrence of pattern `p` at `start`.
pub open spec fn is_match(hay: Seq<u8>, patterns: Seq<Seq<u8>>, p: int, start: int) -> bool {
    0 <= p < patterns.len() && occurs_at(hay, patterns[p], start)
}

/// Where the match list stands after its first `k` matches: behind the last of them.
pub open spec fn matches_end(
    patterns: Seq<Seq<u8>>,
    found: Seq<(usize, usize)>,
    k: int,
) -> int {
    if k <= 0 {
        0
    } else {
        found[k - 1].1 + patterns[found[k - 1].0 as int].len()
    }
}

/// `found` lists matches from left to right without overlap: each is, of the matches that
/// start behind the one before it, one that ends first; behind the last there is none.
pub open spec fn matches_in_order(
    hay: Seq<u8>,
    patterns: Seq<Seq<u8>>,
    found: Seq<(usize, usize)>,
) -> bool {
    &&& forall|k: int|
        0 <= k < found.len() ==> {
            &&& is_match(hay, patterns, (#[trigger] found[k]).0 as int, found[k].1 as int)
            &&& matches_end(patterns, found, k) <= found[k].1
        }
    &&& forall|k: int, p: int, start: int|
        0 <= k < found.len() && matches_end(patterns, found, k) <= start && #[trigger] is_match(
            hay,
            patterns,
            p,
            start,
        ) ==> matches_end(patterns, found, k + 1) <= start + (#[trigger] patterns_len(
            patterns,
            p,
            k,
        ))
    &&& forall|p: int, start: int|
        matches_end(patterns, found, found.len() as int) <= start ==> !#[trigger] is_match(
            hay,
            patterns,
            p,
            start,
        )
}

/// The length of a pattern.
pub open spec fn patterns_len(patterns: Seq<Seq<u8>>, p: int, k: int) -> int {
    patterns[p].len() as int
}

/// `aho_corasick::AhoCorasick::new` and `find_iter`, with the standard match semantics: the
/// matches that do not overlap, reported as they are seen, each as the index of its pattern
/// and its start. `None` where the automaton would have too many states, which are at most one
/// for each byte of the patterns and a few more: not with 256 patterns of 256 bytes.
#[verifier::external_body]
pub(crate) fn find_patterns(patterns: &Vec<Vec<u8>>, hay: &[u8]) -> (r: Option<
    Vec<(usize, usize)>,
>)
    requires
        forall|i: int| 0 <= i < patterns@.len() ==> (#[trigger] patterns@[i])@.len() > 0,
    ensures
        r matches Some(found) ==> matches_in_order(hay@, pattern_views(patterns@), found@),
        patterns@.len() <= 256 && (forall|i: int|
            0 <= i < patterns@.len() ==> (#[trigger] patterns@[i])@.len() <= 256) ==> r is Some,
{
    let automaton = aho_corasick::AhoCorasick::new(patterns).ok()?;
    Some(automaton.find_iter(hay).map(|m| (m.pattern().as_usize(), m.start())).collect())
}

/// A mark that is worth a closer look.
#[derive(Debug, Clone, Copy, PartialEq, Eq, Structural)]
pub struct CarveHit {
    pub kind: ArtifactKind,
    pub offset: u64,
    pub extent_end: u64,
}

/// One read of a pass: `read_length` bytes at `offset`, of which marks in the first
/// `chunk_length` count.
#[derive(Debug, Clone, Copy, PartialEq, Eq, Structural)]
pub struct CarveChunk {
    pub offset: u64,
    pub chunk_length: u64,
    pub read_length: u64,
    pub extent_end: u64,
}

/// The hit that a match in a chunk makes, if it lies in the chunk and is plausible.
pub open spec fn hit_of(chunk: CarveChunk, bytes: Seq<u8>, m: (usize, usize)) -> Option<CarveHit> {
    let kind = signature_marks()[m.0 as int].0;
    if m.1 < chunk.chunk_length && plausible(
        kind,
        bytes.subrange(m.1 as int, bytes.len() as int),
    ) {
        Some(
            CarveHit {
                kind,
                offset: sat_add(chunk.offset, m.1 as u64),
                extent_end: chunk.extent_end,
            },
        )
    } else {
        None
    }
}

/// The hits of a list of matches whose offsets were not seen before.
pub open spec fn new_hits(
    chunk: CarveChunk,
    bytes: Seq<u8>,
    found: Seq<(usize, usize)>,
    seen: Set<u64>,
) -> Seq<CarveHit>
    decreases found.len(),
{
    if found.len() == 0 {
        seq![]
    } else {
        let front = new_hits(chunk, bytes, found.drop_last(), seen);
        match hit_of(chunk, bytes, found.last()) {
            Some(hit) => if seen_after(chunk, bytes, found.drop_last(), seen).contains(
                hit.offset,
            ) {
                front
            } else {
                front.push(hit)
            },
            None => front,
        }
    }
}

/// The offsets that were seen once a list of matches was looked at.
pub open spec fn seen_after(
    chunk: CarveChunk,
    bytes: Seq<u8>,
    found: Seq<(usize, usize)>,
    seen: Set<u64>,
) -> Set<u64>
    decreases found.len(),
{
    if found.len() == 0 {
        seen
    } else {
        let before = seen_after(chunk, bytes, found.drop_last(), seen);
        match hit_of(chunk, bytes, found.last()) {
            Some(hit) => before.insert(hit.offset),
            None => before,
        }
    }
}

/// Every match names a mark and lies in the bytes.
pub open spec fn matches_in_bounds(found: Seq<(usize, usize)>, bytes: Seq<u8>) -> bool {
    forall|k: int|
        0 <= k < found.len() ==> (#[trigger] found[k]).0 < signature_marks().len() && found[k].1
            <= bytes.len()
}

// ---------------------------------------------------------------------------
// The pass over all segments.

/// A carve pass: which segments there are, how far it has come, and what it found.
pub struct CarvePass {
    segments: Vec<ScanSegment>,
    index: usize,
    local: u64,
    scanned: u64,
    budget: u64,
    overlap: u64,
    last_reported: u64,
    seen: HashSet<u64>,
}

/// A pass over the free extents of a volume; the chunks that follow are methods of what it
/// gives.
pub fn carve_high_priority(extents: &Vec<ByteRun>, cluster_size: Option<u64>, budget_override: Option<u64>) -> (
r: CarvePass)
    ensures
        r.wf(),
        exists|sorted: Seq<ByteRun>| #[trigger]
            stable_sorted(free_extents(extents@), sorted, by_offset()) && r.spec_segments()
                == segments_of(sorted),
        r.spec_index() == 0,
        r.spec_local() == 0,
        r.spec_scanned() == 0,
        r.spec_last_reported() == 0,
        r.spec_seen() == Set::<u64>::empty(),
        r.spec_budget() == match budget_override {
            Some(n) => if n < MAX_SCAN_BUDGET {
                n
            } else {
                MAX_SCAN_BUDGET
            },
            None => MAX_SCAN_BUDGET,
        },
        r.spec_overlap() == match cluster_size {
            Some(n) => if n < 4096 {
                4096
            } else if n > CHUNK_SIZE {
                CHUNK_SIZE
            } else {
                n
            },
            None => 4096,
        },
{
    let segments = build_scan_segments(extents);
    proof {
        lemma_segments_not_empty(extents@, segments@);
    }
    let budget: u64 = match budget_override {
        Some(n) => if n < MAX_SCAN_BUDGET {
            n
        } else {
            MAX_SCAN_BUDGET
        },
        None => MAX_SCAN_BUDGET,
    };
    let overlap: u64 = match cluster_size {
        Some(n) => if n < 4096 {
            4096
        } else if n > CHUNK_SIZE {
            CHUNK_SIZE
        } else {
            n
        },
        None => 4096,
    };
    CarvePass {
        segments,
        index: 0,
        local: 0,
        scanned: 0,
        budget,
        overlap,
        last_reported: 0,
        seen: HashSet::new(),
    }
}

impl CarvePass {
    /// The segments in the order in which they are read.
    pub closed spec fn spec_segments(&self) -> Seq<ScanSegment> {
        self.segments@
    }

    /// Which segment is being read.
    pub closed spec fn spec_index(&self) -> int {
        self.index as int
    }

    /// How much of that segment has been read.
    pub closed spec fn spec_local(&self) -> u64 {
        self.local
    }

    /// How many bytes have been read.
    pub closed spec fn spec_scanned(&self) -> u64 {
        self.scanned
    }

    /// How many bytes may be read.
    pub closed spec fn spec_budget(&self) -> u64 {
        self.budget
    }

    /// How far a read reaches into the next chunk.
    pub closed spec fn spec_overlap(&self) -> u64 {
        self.overlap
    }

    /// How many bytes had been read at the last progress report.
    pub closed spec fn spec_last_reported(&self) -> u64 {
        self.last_reported
    }

    /// The offsets of the marks that were found.
    pub closed spec fn spec_seen(&self) -> Set<u64> {
        self.seen@
    }

    pub open spec fn wf(&self) -> bool {
        &&& self.spec_index() <= self.spec_segments().len()
        &&& forall|i: int|
            0 <= i < self.spec_segments().len() ==> (#[trigger] self.spec_segments()[i]).length > 0
        &&& self.spec_index() < self.spec_segments().len() ==> self.spec_local()
            < self.spec_segments()[self.spec_index()].length
        &&& self.spec_scanned() <= self.spec_budget() <= MAX_SCAN_BUDGET
        &&& 4096 <= self.spec_overlap() <= CHUNK_SIZE
        &&& self.spec_last_reported() <= self.spec_scanned()
        &&& 0 <= self.spec_index()
    }

    /// How many bytes have been read.
    pub fn scanned(&self) -> (r: u64)
        ensures
            r == self.spec_scanned(),
    {
        self.scanned
    }

    /// How many bytes may be read.
    pub fn budget(&self) -> (r: u64)
        ensures
            r == self.spec_budget(),
    {
        self.budget
    }

    /// How much of the current segment is left to read within the budget.
    pub open spec fn remaining(&self) -> u64 {
        let left = self.spec_segments()[self.spec_index()].length - self.spec_local();
        let allowed = self.spec_budget() - self.spec_scanned();
        if left < allowed {
            left as u64
        } else {
            allowed as u64
        }
    }

    /// The read that comes next.
    pub open spec fn spec_next_chunk(&self) -> Option<CarveChunk> {
        if self.spec_index() >= self.spec_segments().len() || self.spec_scanned()
            >= self.spec_budget() {
            None
        } else {
            let segment = self.spec_segments()[self.spec_index()];
            let chunk = if self.remaining() < CHUNK_SIZE {
                self.remaining()
            } else {
                CHUNK_SIZE
            };
            Some(
                CarveChunk {
                    offset: sat_add(segment.offset, self.spec_local()),
                    chunk_length: chunk,
                    read_length: if self.remaining() - chunk >= self.spec_overlap() {
                        (chunk + self.spec_overlap()) as u64
                    } else {
                        chunk
                    },
                    extent_end: segment.extent_end,
                },
            )
        }
    }

    /// The next read, or `None` where the pass is over.
    pub fn next_chunk(&self) -> (r: Option<CarveChunk>)
        requires
            self.wf(),
        ensures
            r == self.spec_next_chunk(),
    {
        if self.index >= self.segments.len() || self.scanned >= self.budget {
            return None;
        }
        let segment = self.segments[self.index];
        let left: u64 = segment.length - self.local;
        let allowed: u64 = self.budget - self.scanned;
        let remaining: u64 = if left < allowed {
            left
        } else {
            allowed
        };
        let chunk: u64 = if remaining < CHUNK_SIZE {
            remaining
        } else {
            CHUNK_SIZE
        };
        let read_length: u64 = if remaining - chunk >= self.overlap {
            chunk + self.overlap
        } else {
            chunk
        };
        Some(
            CarveChunk {
                offset: segment.offset.saturating_add(self.local),
                chunk_length: chunk,
                read_length,
                extent_end: segment.extent_end,
            },
        )
    }

    /// Moves behind a chunk, whether it could be read or not.
    pub fn complete_chunk(&mut self)
        requires
            old(self).wf(),
            old(self).spec_next_chunk() is Some,
        ensures
            final(self).wf(),
            final(self).spec_segments() == old(self).spec_segments(),
            final(self).spec_budget() == old(self).spec_budget(),
            final(self).spec_overlap() == old(self).spec_overlap(),
            final(self).spec_last_reported() == old(self).spec_last_reported(),
            final(self).spec_seen() == old(self).spec_seen(),
            ({
                let chunk = old(self).spec_next_chunk()->0.chunk_length;
                let segment = old(self).spec_segments()[old(self).spec_index()];
                &&& final(self).spec_scanned() == old(self).spec_scanned() + chunk
                &&& if old(self).spec_local() + chunk == segment.length {
                    final(self).spec_index() == old(self).spec_index() + 1
                        && final(self).spec_local() == 0
                } else {
                    final(self).spec_index() == old(self).spec_index()
                        && final(self).spec_local() == old(self).spec_local() + chunk
                }
            }),
    {
        let segment = self.segments[self.index];
        let left: u64 = segment.length - self.local;
        let allowed: u64 = self.budget - self.scanned;
        let remaining: u64 = if left < allowed {
            left
        } else {
            allowed
        };
        let chunk: u64 = if remaining < CHUNK_SIZE {
            remaining
        } else {
            CHUNK_SIZE
        };
        let count: usize = self.segments.len();
        assert(self.index < count);
        self.scanned = self.scanned + chunk;
        if chunk == left {
            self.index = self.index + 1;
            self.local = 0;
        } else {
            self.local = self.local + chunk;
        }
    }

    /// The new hits among matches that were found in a chunk.
    pub fn select_hits(
        &mut self,
        chunk: &CarveChunk,
        bytes: &[u8],
        found: &Vec<(usize, usize)>,
    ) -> (r: Vec<CarveHit>)
        requires
            old(self).wf(),
            matches_in_bounds(found@, bytes@),
        ensures
            r@ == new_hits(*chunk, bytes@, found@, old(self).spec_seen()),
            final(self).spec_seen() == seen_after(
                *chunk,
                bytes@,
                found@,
                old(self).spec_seen(),
            ),
            final(self).wf(),
            final(self).spec_segments() == old(self).spec_segments(),
            final(self).spec_index() == old(self).spec_index(),
            final(self).spec_local() == old(self).spec_local(),
            final(self).spec_scanned() == old(self).spec_scanned(),
            final(self).spec_budget() == old(self).spec_budget(),
            final(self).spec_overlap() == old(self).spec_overlap(),
            final(self).spec_last_reported() == old(self).spec_last_reported(),
    {
        let kinds = signature_kinds();
        let mut hits: Vec<CarveHit> = Vec::new();
        let mut i: usize = 0;
        let ghost start = *self;
        while i < found.len()
            invariant
                i <= found@.len(),
                matches_in_bounds(found@, bytes@),
                kinds@.len() == signature_marks().len(),
                forall|k: int| 0 <= k < kinds@.len() ==> #[trigger] kinds@[k] == signature_marks()[k].0,
                hits@ == new_hits(
                    *chunk,
                    bytes@,
                    found@.subrange(0, i as int),
                    start.spec_seen(),
                ),
                self.seen@ == seen_after(
                    *chunk,
                    bytes@,
                    found@.subrange(0, i as int),
                    start.spec_seen(),
                ),
                self.segments == start.segments,
                self.index == start.index,
                self.local == start.local,
                self.scanned == start.scanned,
                self.budget == start.budget,
                self.overlap == start.overlap,
                self.last_reported == start.last_reported,
            decreases found@.len() - i,
        {
            let (pattern, at) = found[i];
            proof {
                assert(found@[i as int].0 < signature_marks().len());
                assert(found@.subrange(0, i + 1).drop_last() =~= found@.subrange(0, i as int));
            }
            if (at as u64) < chunk.chunk_length {
                let kind = kinds[pattern];
                let rest = slice_to_vec(bytes, at, bytes.len());
                if quick_signature_plausible(kind, rest.as_slice()) {
                    let offset: u64 = chunk.offset.saturating_add(at as u64);
                    if self.seen.insert(offset) {
                        hits.push(CarveHit { kind, offset, extent_end: chunk.extent_end });
                    }
                }
            }
            i += 1;
        }
        assert(found@.subrange(0, i as int) =~= found@);
        hits
    }

    /// The new hits in the bytes of a chunk.
    pub fn chunk_hits(&mut self, chunk: &CarveChunk, bytes: &[u8]) -> (r: Vec<CarveHit>)
        requires
            old(self).wf(),
        ensures
            exists|found: Seq<(usize, usize)>| #[trigger]
                matches_in_order(bytes@, mark_bytes(), found) && r@ == new_hits(
                    *chunk,
                    bytes@,
                    found,
                    old(self).spec_seen(),
                ) && final(self).spec_seen() == seen_after(
                    *chunk,
                    bytes@,
                    found,
                    old(self).spec_seen(),
                ),
            final(self).wf(),
            final(self).spec_segments() == old(self).spec_segments(),
            final(self).spec_index() == old(self).spec_index(),
            final(self).spec_local() == old(self).spec_local(),
            final(self).spec_scanned() == old(self).spec_scanned(),
            final(self).spec_budget() == old(self).spec_budget(),
            final(self).spec_overlap() == old(self).spec_overlap(),
            final(self).spec_last_reported() == old(self).spec_last_reported(),
    {
        let patterns = signature_patterns();
        proof {
            assert forall|i: int| 0 <= i < patterns@.len() implies (
            #[trigger] patterns@[i])@.len() > 0 && patterns@[i]@.len() <= 256 by {
                assert(pattern_views(patterns@)[i] == patterns@[i]@);
                assert(mark_bytes().len() == signature_marks().len());
                assert(mark_bytes()[i] == signature_marks()[i].1);
                lemma_mark_length(i);
            }
        }
        assert(patterns@.len() == mark_bytes().len());
        match find_patterns(&patterns, bytes) {
            Some(found) => {
                proof {
                    assert forall|k: int| 0 <= k < found@.len() implies (
                    #[trigger] found@[k]).0 < signature_marks().len() && found@[k].1
                        <= bytes@.len() by {
                        assert(is_match(
                            bytes@,
                            mark_bytes(),
                            found@[k].0 as int,
                            found@[k].1 as int,
                        ));
                    }
                }
                let hits = self.select_hits(chunk, bytes, &found);
                assert(matches_in_order(bytes@, mark_bytes(), found@));
                hits
            },
            None => Vec::new(),
        }
    }

    /// Whether progress is reported now: at the end, with each new result, and otherwise
    /// once enough bytes and enough time have passed.
    pub fn should_emit_carve_progress(&mut self, new_result: bool, interval_elapsed: bool) -> (r:
        bool)
        requires
            old(self).wf(),
        ensures
            r == (old(self).spec_scanned() >= old(self).spec_budget() || new_result || (
            old(self).spec_scanned() - old(self).spec_last_reported() >= CARVE_PROGRESS_BYTES
                && interval_elapsed)),
            final(self).spec_last_reported() == if r {
                old(self).spec_scanned()
            } else {
                old(self).spec_last_reported()
            },
            final(self).wf(),
            final(self).spec_segments() == old(self).spec_segments(),
            final(self).spec_index() == old(self).spec_index(),
            final(self).spec_local() == old(self).spec_local(),
            final(self).spec_scanned() == old(self).spec_scanned(),
            final(self).spec_budget() == old(self).spec_budget(),
            final(self).spec_overlap() == old(self).spec_overlap(),
            final(self).spec_seen() == old(self).spec_seen(),
    {
        if self.scanned >= self.budget || new_result || (self.scanned - self.last_reported
            >= CARVE_PROGRESS_BYTES && interval_elapsed) {
            self.last_reported = self.scanned;
            true
        } else {
            false
        }
    }
}

proof fn lemma_segments_not_empty(extents: Seq<ByteRun>, segments: Seq<ScanSegment>)
    requires
        exists|sorted: Seq<ByteRun>| #[trigger]
            stable_sorted(free_extents(extents), sorted, by_offset()) && segments == segments_of(
                sorted,
            ),
    ensures
        forall|i: int| 0 <= i < segments.len() ==> (#[trigger] segments[i]).length > 0,
{
    let sorted = choose|sorted: Seq<ByteRun>| #[trigger]
        stable_sorted(free_extents(extents), sorted, by_offset()) && segments == segments_of(
            sorted,
        );
    assert(strict_weak_order(by_offset()));
    crate::sort::lemma_stable_sorted_keeps_items(free_extents(extents), sorted, by_offset());
    crate::seqs::lemma_kept_sound(extents, |e: ByteRun| readable_extent(e));
    assert forall|i: int| 0 <= i < sorted.len() implies (#[trigger] sorted[i]).length > 0 by {
        assert(free_extents(extents).contains(sorted[i]));
    }
    let heads = sorted.map_values(|e: ByteRun| head_segment(e));
    let tails = tails_of(sorted);
    let middles = middles_of(sorted);
    lemma_tails_not_empty(sorted);
    lemma_middles_not_empty(sorted);
    assert forall|i: int| 0 <= i < segments.len() implies (#[trigger] segments[i]).length > 0 by {
        if i < heads.len() {
            assert(segments[i] == head_segment(sorted[i]));
        } else if i < heads.len() + tails.len() {
            assert(segments[i] == tails[i - heads.len()]);
        } else {
            assert(segments[i] == middles[i - heads.len() - tails.len()]);
        }
    }
}

proof fn lemma_tails_not_empty(s: Seq<ByteRun>)
    ensures
        forall|i: int|
            0 <= i < tails_of(s).len() ==> (#[trigger] tails_of(s)[i]).length > 0,
    decreases s.len(),
{
    if s.len() > 0 {
        let front = tails_of(s.drop_last());
        lemma_tails_not_empty(s.drop_last());
        assert forall|i: int| 0 <= i < tails_of(s).len() implies (
        #[trigger] tails_of(s)[i]).length > 0 by {
            if i < front.len() {
                assert(tails_of(s)[i] == front[i]);
            }
        }
    }
}

proof fn lemma_middles_not_empty(s: Seq<ByteRun>)
    ensures
        forall|i: int|
            0 <= i < middles_of(s).len() ==> (#[trigger] middles_of(s)[i]).length > 0,
    decreases s.len(),
{
    if s.len() > 0 {
        let front = middles_of(s.drop_last());
        lemma_middles_not_empty(s.drop_last());
        assert forall|i: int| 0 <= i < middles_of(s).len() implies (
        #[trigger] middles_of(s)[i]).length > 0 by {
            if i < front.len() {
                assert(middles_of(s)[i] == front[i]);
            }
        }
    }
}

/// A pass never reads beyond its budget, and each of its reads stays in its segment.
pub proof fn lemma_reads_stay_in_segment(pass: &CarvePass)
    requires
        pass.wf(),
        pass.spec_next_chunk() is Some,
    ensures
        ({
            let chunk = pass.spec_next_chunk()->0;
            let segment = pass.spec_segments()[pass.spec_index()];
            &&& 0 < chunk.chunk_length <= chunk.read_length
            &&& pass.spec_scanned() + chunk.chunk_length <= pass.spec_budget()
            &&& pass.spec_local() + chunk.read_length <= segment.length
        }),
{
}

/// No two hits of a pass have the same offset, and each was counted as seen.
pub proof fn lemma_hits_are_new(
    chunk: CarveChunk,
    bytes: Seq<u8>,
    found: Seq<(usize, usize)>,
    seen: Set<u64>,
)
    ensures
        seen.subset_of(seen_after(chunk, bytes, found, seen)),
        forall|i: int|
            0 <= i < new_hits(chunk, bytes, found, seen).len() ==> !seen.contains(
                (#[trigger] new_hits(chunk, bytes, found, seen)[i]).offset,
            ) && seen_after(chunk, bytes, found, seen).contains(
                new_hits(chunk, bytes, found, seen)[i].offset,
            ),
        forall|i: int, j: int|
            0 <= i < j < new_hits(chunk, bytes, found, seen).len() ==> (#[trigger] new_hits(
                chunk,
                bytes,
                found,
                seen,
            )[i]).offset != (#[trigger] new_hits(chunk, bytes, found, seen)[j]).offset,
    decreases found.len(),
{
    if found.len() > 0 {
        lemma_hits_are_new(chunk, bytes, found.drop_last(), seen);
    }
}

/// The order of results: the higher score first.
pub open spec fn by_score() -> spec_fn(ArtifactRecord, ArtifactRecord) -> bool {
    |a: ArtifactRecord, b: ArtifactRecord| a.priority_score > b.priority_score
}

/// The results of a pass in the order in which they are shown.
pub fn order_carved(results: Vec<ArtifactRecord>) -> (r: Vec<ArtifactRecord>)
    ensures
        stable_sorted(results@, r@, by_score()),
{
    let before = |a: &ArtifactRecord, b: &ArtifactRecord| -> (r: bool)
        ensures
            r == (a.priority_score > b.priority_score),
        { a.priority_score > b.priority_score };
    assert(strict_weak_order(by_score()));
    stable_sort_by(results, before, Ghost(by_score()))
}

/// The warning about a device that cannot be opened.
pub fn device_warning(error: &str) -> (r: String)
    ensures
        r@
            == "High-priority carve pass was skipped because the raw device could not be opened: "@
            + error@,
{
    concat2(
        "High-priority carve pass was skipped because the raw device could not be opened: ",
        error,
    )
}

/// The warning about a chunk that cannot be read.
pub fn chunk_warning(offset: u64, display_name: &str, error: &str) -> (r: String)
    ensures
        r@ == "Skipped unreadable carve chunk at 0x"@ + hexadecimal(offset as nat, false) + " on "@
            + display_name@ + ": "@ + error@,
{
    let mut out = owned("Skipped unreadable carve chunk at 0x");
    push_hex(&mut out, offset, false);
    out.append(" on ");
    out.append(display_name);
    out.append(": ");
    out.append(error);
    out
}

/// The warning about a candidate that cannot be read.
pub fn candidate_warning(offset: u64, display_name: &str, error: &str) -> (r: String)
    ensures
        r@ == "Skipped carved candidate at 0x"@ + hexadecimal(offset as nat, false) + " on "@
            + display_name@ + " because a validation read failed: "@ + error@,
{
    let mut out = owned("Skipped carved candidate at 0x");
    push_hex(&mut out, offset, false);
    out.append(" on ");
    out.append(display_name);
    out.append(" because a validation read failed: ");
    out.append(error);
    out
}

} // verus!
