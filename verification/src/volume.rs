//! Free space, aligned reads and runs of data on a volume.

use crate::carver::{
    by_offset, count_starts_upto, extent_end, extents_sorted, sat_add, sort_extents, starts_upto,
};
use crate::bytes::slice_to_vec;
use crate::model::{message_of, ByteRun, RssError, ScanSource};
use crate::numbers::{decimal, push_decimal};
use crate::sort::{
    goes_first, lemma_stable_sorted_keeps_items, lemma_stable_sorted_loses_nothing, stable_sorted,
    stable_sorted_by, strict_weak_order,
};
use crate::text::{concat2, has_prefix, owned};
use vstd::prelude::*;
use vstd::string::*;

verus! {

// ---------------------------------------------------------------------------
// The free extents of a volume.

/// The free extents of a volume, in order of their offset.
#[derive(Debug)]
pub struct VolumeBitmap {
    pub cluster_size: u64,
    pub extents: Vec<ByteRun>,
}

/// The extent that starts last before `offset` reaches to `offset + length`.
pub open spec fn range_covered(extents: Seq<ByteRun>, offset: u64, length: u64) -> bool {
    let k = starts_upto(extents, offset) - 1;
    length == 0 || (k >= 0 && sat_add(offset, length) <= extent_end(extents[k]))
}

impl VolumeBitmap {
    pub open spec fn wf(&self) -> bool {
        extents_sorted(self.extents@)
    }

    /// Whether a range is free.
    pub fn covers_range(&self, offset: u64, length: u64) -> (r: bool)
        requires
            self.wf(),
        ensures
            r == range_covered(self.extents@, offset, length),
    {
        if length == 0 {
            return true;
        }
        let end: u64 = offset.saturating_add(length);
        let after: usize = count_starts_upto(&self.extents, offset);
        if after == 0 {
            return false;
        }
        let extent = self.extents[after - 1];
        end <= extent.offset.saturating_add(extent.length)
    }
}

/// A range that is covered lies within one extent.
pub proof fn lemma_covered_range_lies_in_an_extent(
    extents: Seq<ByteRun>,
    offset: u64,
    length: u64,
)
    requires
        extents_sorted(extents),
        range_covered(extents, offset, length),
        length > 0,
        offset + length <= u64::MAX,
    ensures
        exists|k: int|
            0 <= k < extents.len() && (#[trigger] extents[k]).offset <= offset && offset + length
                <= extent_end(extents[k]),
{
    let k = starts_upto(extents, offset) - 1;
    lemma_last_start(extents, offset);
    assert(extents[k].offset <= offset);
}

proof fn lemma_last_start(s: Seq<ByteRun>, x: u64)
    ensures
        0 <= starts_upto(s, x) <= s.len(),
        starts_upto(s, x) > 0 ==> s[starts_upto(s, x) - 1].offset <= x,
        forall|i: int| starts_upto(s, x) <= i < s.len() ==> s[i].offset > x,
    decreases s.len(),
{
    if s.len() > 0 && s.last().offset > x {
        lemma_last_start(s.drop_last(), x);
        assert forall|i: int| starts_upto(s, x) <= i < s.len() implies s[i].offset > x by {
            if i < s.len() - 1 {
                assert(s[i] == s.drop_last()[i]);
            }
        }
    }
}

/// Where extents do not overlap, every free range is recognised.
pub proof fn lemma_free_range_is_covered(
    extents: Seq<ByteRun>,
    offset: u64,
    length: u64,
    k: int,
)
    requires
        extents_sorted(extents),
        forall|i: int, j: int|
            0 <= i < j < extents.len() ==> extent_end(extents[i]) <= extents[j].offset,
        0 <= k < extents.len(),
        length > 0,
        extents[k].offset <= offset,
        sat_add(offset, length) <= extent_end(extents[k]),
        offset + length <= u64::MAX,
    ensures
        range_covered(extents, offset, length),
{
    lemma_last_start(extents, offset);
    let m = starts_upto(extents, offset) - 1;
    assert(k <= m);
    if k < m {
        assert(extent_end(extents[k]) <= extents[m].offset);
    }
}

/// The size of the clusters that a bitmap of the source tells of.
pub fn bitmap_cluster_size(source: &ScanSource) -> (r: Result<u64, RssError>)
    ensures
        match source.cluster_size {
            Some(size) => r == Ok::<u64, RssError>(size),
            None => r matches Err(e) && message_of(e) == "Cluster size is unknown for "@
                + source.display_name@,
        },
{
    match source.cluster_size {
        Some(size) => Ok(size),
        None => Err(
            RssError::Message(
                concat2("Cluster size is unknown for ", source.display_name.as_str()),
            ),
        ),
    }
}

/// The cluster from which the bitmap is asked for next, after a part of `bytes` bytes whose
/// first bit is that of cluster `base`; none where that part was the last.
pub fn next_bitmap_query(base: u64, bytes: u64, more: bool) -> (r: Option<u64>)
    ensures
        r == if !more {
            None::<u64>
        } else if base + 8 * bytes > u64::MAX {
            Some(u64::MAX)
        } else {
            Some((base + 8 * bytes) as u64)
        },
{
    if !more {
        None
    } else if bytes > (u64::MAX - base) / 8 {
        Some(u64::MAX)
    } else {
        Some(base + 8 * bytes)
    }
}

/// A scan of an allocation bitmap: the free run that it is in and the runs behind it, each
/// as its first cluster and its number of clusters.
#[derive(Debug)]
pub struct FreeSpaceScan {
    pub run: Option<(u64, u64)>,
    pub runs: Vec<(u64, u64)>,
}

/// What a scan knows.
pub struct FreeSpaceState {
    pub run: Option<(int, int)>,
    pub runs: Seq<(int, int)>,
}

/// One cluster more: a free one goes to the current run, an allocated one ends it.
pub open spec fn after_cluster(s: FreeSpaceState, lcn: int, allocated: bool) -> FreeSpaceState {
    match (s.run, allocated) {
        (Some(run), true) => FreeSpaceState { run: None, runs: s.runs.push(run) },
        (None, true) => s,
        (None, false) => FreeSpaceState { run: Some((lcn, 1)), runs: s.runs },
        (Some(run), false) => FreeSpaceState { run: Some((run.0, run.1 + 1)), runs: s.runs },
    }
}

/// The allocation of a cluster: one bit, lowest first.
pub open spec fn bit_set(bits: Seq<u8>, i: int) -> bool {
    bits[i / 8] & (1u8 << ((i % 8) as u8)) != 0
}

/// The state after the first `n` clusters of a bitmap that starts at cluster `base`.
pub open spec fn after_bits(s: FreeSpaceState, bits: Seq<u8>, base: int, n: int) -> FreeSpaceState
    decreases n,
{
    if n <= 0 {
        s
    } else {
        after_cluster(after_bits(s, bits, base, n - 1), base + n - 1, bit_set(bits, n - 1))
    }
}

/// All runs of a finished scan.
pub open spec fn all_runs(s: FreeSpaceState) -> Seq<(int, int)> {
    match s.run {
        Some(run) => s.runs.push(run),
        None => s.runs,
    }
}

/// A product that stays at the largest number where it would be larger.
pub open spec fn sat_mul(a: int, b: int) -> u64 {
    if a * b > u64::MAX {
        u64::MAX
    } else {
        (a * b) as u64
    }
}

/// The bytes of a run of clusters.
pub open spec fn run_bytes(run: (int, int), cluster_size: u64) -> ByteRun {
    ByteRun {
        offset: sat_mul(run.0, cluster_size as int),
        length: sat_mul(run.1, cluster_size as int),
        sparse: false,
    }
}

/// The extents of runs of clusters.
pub open spec fn runs_bytes(runs: Seq<(int, int)>, cluster_size: u64) -> Seq<ByteRun> {
    runs.map_values(|run: (int, int)| run_bytes(run, cluster_size))
}

/// A run as a pair of numbers.
pub open spec fn run_view(run: (u64, u64)) -> (int, int) {
    (run.0 as int, run.1 as int)
}

fn saturating_product(a: u64, b: u64) -> (r: u64)
    ensures
        r == sat_mul(a as int, b as int),
{
    match a.checked_mul(b) {
        Some(n) => n,
        None => u64::MAX,
    }
}

impl FreeSpaceScan {
    pub open spec fn state(&self) -> FreeSpaceState {
        FreeSpaceState {
            run: match self.run {
                Some(run) => Some(run_view(run)),
                None => None,
            },
            runs: self.runs@.map_values(|run: (u64, u64)| run_view(run)),
        }
    }

    /// The number of clusters in the current run.
    pub open spec fn run_clusters(&self) -> int {
        match self.run {
            Some(run) => run.1 as int,
            None => 0,
        }
    }

    pub fn new() -> (r: Self)
        ensures
            r.state() == (FreeSpaceState { run: None, runs: seq![] }),
            r.run is None,
    {
        let r = FreeSpaceScan { run: None, runs: Vec::new() };
        assert(r.state().runs =~= seq![]);
        r
    }

    /// Takes in one cluster.
    fn step(&mut self, lcn: u64, allocated: bool)
        requires
            old(self).run_clusters() < u64::MAX,
        ensures
            final(self).state() == after_cluster(old(self).state(), lcn as int, allocated),
            final(self).run_clusters() <= old(self).run_clusters() + 1,
    {
        match self.run {
            Some(run) => {
                if allocated {
                    self.runs.push(run);
                    self.run = None;
                    assert(self.state().runs =~= old(self).state().runs.push(run_view(run)));
                } else {
                    self.run = Some((run.0, run.1 + 1));
                }
            },
            None => {
                if !allocated {
                    self.run = Some((lcn, 1));
                }
            },
        }
    }

    /// Takes in a part of the bitmap, whose first bit is that of cluster `base`.
    pub fn feed(&mut self, base: u64, bits: &[u8])
        requires
            base + 8 * bits@.len() <= u64::MAX,
            old(self).run_clusters() + 8 * bits@.len() <= u64::MAX,
        ensures
            final(self).state() == after_bits(
                old(self).state(),
                bits@,
                base as int,
                8 * bits@.len() as int,
            ),
            final(self).run_clusters() <= old(self).run_clusters() + 8 * bits@.len(),
    {
        let ghost start = self.state();
        let ghost clusters = self.run_clusters();
        let mut index: usize = 0;
        while index < bits.len()
            invariant
                index <= bits@.len(),
                base + 8 * bits@.len() <= u64::MAX,
                self.state() == after_bits(start, bits@, base as int, 8 * index),
                self.run_clusters() <= clusters + 8 * index,
                clusters + 8 * bits@.len() <= u64::MAX,
            decreases bits@.len() - index,
        {
            let byte: u8 = bits[index];
            let first: u64 = base + 8 * (index as u64);
            let mut bit: u8 = 0;
            while bit < 8
                invariant
                    bit <= 8,
                    index < bits@.len(),
                    byte == bits@[index as int],
                    first == base + 8 * index,
                    base + 8 * bits@.len() <= u64::MAX,
                    self.state() == after_bits(start, bits@, base as int, 8 * index + bit),
                    self.run_clusters() <= clusters + 8 * index + bit,
                    clusters + 8 * bits@.len() <= u64::MAX,
                decreases 8 - bit,
            {
                let allocated: bool = byte & (1u8 << bit) != 0;
                proof {
                    assert((8 * index + bit) / 8 == index && (8 * index + bit) % 8 == bit);
                    assert(bit_set(bits@, 8 * index + bit) == allocated);
                }
                self.step(first + bit as u64, allocated);
                bit += 1;
            }
            index += 1;
        }
    }

    /// The free extents of a volume with clusters of the given size.
    pub fn finish(self, cluster_size: u64) -> (r: VolumeBitmap)
        ensures
            r.wf(),
            r.cluster_size == cluster_size,
            stable_sorted(
                runs_bytes(all_runs(self.state()), cluster_size),
                r.extents@,
                by_offset(),
            ),
    {
        let ghost wanted = all_runs(self.state());
        let mut runs = self.runs;
        if let Some(run) = self.run {
            runs.push(run);
        }
        let mut extents: Vec<ByteRun> = Vec::new();
        let mut i: usize = 0;
        assert(runs@.map_values(|run: (u64, u64)| run_view(run)) =~= wanted);
        while i < runs.len()
            invariant
                i <= runs@.len(),
                runs@.map_values(|run: (u64, u64)| run_view(run)) == wanted,
                extents@ == runs_bytes(wanted.subrange(0, i as int), cluster_size),
            decreases runs@.len() - i,
        {
            let (first, clusters) = runs[i];
            extents.push(
                ByteRun {
                    offset: saturating_product(first, cluster_size),
                    length: saturating_product(clusters, cluster_size),
                    sparse: false,
                },
            );
            proof {
                assert(wanted[i as int] == run_view(runs@[i as int]));
                assert(extents@ =~= runs_bytes(wanted.subrange(0, i + 1), cluster_size));
            }
            i += 1;
        }
        assert(wanted.subrange(0, i as int) =~= wanted);
        let ghost inp = extents@;
        let sorted = sort_extents(extents);
        proof {
            lemma_stable_sorted_keeps_items(inp, sorted@, by_offset());
            assert forall|i: int, j: int| 0 <= i <= j < sorted@.len() implies sorted@[i].offset
                <= sorted@[j].offset by {
                if i < j {
                    assert(!(by_offset())(sorted@[j], sorted@[i]));
                }
            }
        }
        VolumeBitmap { cluster_size, extents: sorted }
    }
}

/// Cluster `c` lies in a run.
pub open spec fn in_run(run: (int, int), c: int) -> bool {
    run.0 <= c < run.0 + run.1
}

/// Cluster `c` lies in one of the runs.
pub open spec fn in_runs(runs: Seq<(int, int)>, c: int) -> bool {
    exists|k: int| 0 <= k < runs.len() && in_run(#[trigger] runs[k], c)
}

/// A scan of one bitmap finds exactly the clusters whose bit is not set.
pub proof fn lemma_scan_finds_free_clusters(bits: Seq<u8>, base: int, n: int, c: int)
    requires
        0 <= n <= 8 * bits.len(),
    ensures
        in_runs(
            all_runs(after_bits(FreeSpaceState { run: None, runs: seq![] }, bits, base, n)),
            c,
        ) <==> base <= c < base + n && !bit_set(bits, c - base),
        after_bits(FreeSpaceState { run: None, runs: seq![] }, bits, base, n).run matches Some(
            run,
        ) ==> run.1 > 0 && run.0 + run.1 == base + n,
    decreases n,
{
    let empty = FreeSpaceState { run: None, runs: seq![] };
    let s = after_bits(empty, bits, base, n);
    if n > 0 {
        lemma_scan_finds_free_clusters(bits, base, n - 1, c);
        let p = after_bits(empty, bits, base, n - 1);
        let before = all_runs(p);
        let after = all_runs(s);
        if bit_set(bits, n - 1) {
            assert(after =~= before);
        } else {
            match p.run {
                None => {
                    assert(after =~= before.push((base + n - 1, 1)));
                    assert(in_runs(after, c) <==> in_runs(before, c) || c == base + n - 1) by {
                        if in_runs(before, c) {
                            let k = choose|k: int| 0 <= k < before.len() && in_run(
                                #[trigger] before[k],
                                c,
                            );
                            assert(in_run(after[k], c));
                        }
                        if c == base + n - 1 {
                            assert(in_run(after[before.len() as int], c));
                        }
                        if in_runs(after, c) {
                            let k = choose|k: int| 0 <= k < after.len() && in_run(
                                #[trigger] after[k],
                                c,
                            );
                            if k < before.len() {
                                assert(in_run(before[k], c));
                            }
                        }
                    }
                },
                Some(run) => {
                    let last = before.len() - 1;
                    assert(after =~= before.update(last, (run.0, run.1 + 1)));
                    assert(in_runs(after, c) <==> in_runs(before, c) || c == base + n - 1) by {
                        if in_runs(before, c) {
                            let k = choose|k: int| 0 <= k < before.len() && in_run(
                                #[trigger] before[k],
                                c,
                            );
                            assert(in_run(after[k], c));
                        }
                        if c == base + n - 1 {
                            assert(in_run(after[last], c));
                        }
                        if in_runs(after, c) {
                            let k = choose|k: int| 0 <= k < after.len() && in_run(
                                #[trigger] after[k],
                                c,
                            );
                            if k < last || c != base + n - 1 {
                                assert(in_run(before[k], c));
                            }
                        }
                    }
                },
            }
        }
    } else {
        assert(all_runs(s) =~= seq![]);
    }
}

/// The state after a bitmap that comes in pieces, each behind the one before.
pub open spec fn after_pieces(
    s: FreeSpaceState,
    pieces: Seq<Seq<u8>>,
    base: int,
) -> FreeSpaceState
    decreases pieces.len(),
{
    if pieces.len() == 0 {
        s
    } else {
        let n = 8 * pieces[0].len() as int;
        after_pieces(after_bits(s, pieces[0], base, n), pieces.drop_first(), base + n)
    }
}

/// Only the bits that are read count.
proof fn lemma_front_bits(s: FreeSpaceState, front: Seq<u8>, rest: Seq<u8>, base: int, n: int)
    requires
        n <= 8 * front.len(),
    ensures
        after_bits(s, front + rest, base, n) == after_bits(s, front, base, n),
    decreases n,
{
    if n > 0 {
        lemma_front_bits(s, front, rest, base, n - 1);
        assert((front + rest)[(n - 1) / 8] == front[(n - 1) / 8]);
    }
}

/// A bitmap may be cut in two between two bytes.
proof fn lemma_two_pieces(s: FreeSpaceState, front: Seq<u8>, rest: Seq<u8>, base: int, n: int)
    requires
        0 <= n <= 8 * rest.len(),
    ensures
        after_bits(s, front + rest, base, 8 * front.len() + n) == after_bits(
            after_bits(s, front, base, 8 * front.len() as int),
            rest,
            base + 8 * front.len(),
            n,
        ),
    decreases n,
{
    let m = 8 * front.len() as int;
    if n > 0 {
        lemma_two_pieces(s, front, rest, base, n - 1);
        let i = n - 1;
        assert((m + i) / 8 == front.len() + i / 8 && (m + i) % 8 == i % 8);
        assert((front + rest)[(m + i) / 8] == rest[i / 8]);
    } else {
        lemma_front_bits(s, front, rest, base, m);
    }
}

/// A bitmap that comes in pieces gives the same free extents as in one.
pub proof fn lemma_pieces_make_no_difference(s: FreeSpaceState, pieces: Seq<Seq<u8>>, base: int)
    ensures
        after_pieces(s, pieces, base) == after_bits(
            s,
            pieces.flatten(),
            base,
            8 * pieces.flatten().len() as int,
        ),
    decreases pieces.len(),
{
    if pieces.len() > 0 {
        let front = pieces[0];
        let n = 8 * front.len() as int;
        let rest = pieces.drop_first();
        lemma_pieces_make_no_difference(after_bits(s, front, base, n), rest, base + n);
        lemma_two_pieces(s, front, rest.flatten(), base, 8 * rest.flatten().len() as int);
    }
}

/// A cluster outside the bitmap, or one in use.
pub open spec fn not_free(bits: Seq<u8>, base: int, n: int, c: int) -> bool {
    c < base || c >= base + n || bit_set(bits, c - base)
}

/// Behind a run that is closed lies a cluster in use; without an open run, the last cluster is
/// in use.
proof fn lemma_run_reaches_end(bits: Seq<u8>, base: int, n: int)
    requires
        0 <= n <= 8 * bits.len(),
    ensures
        ({
            let s = after_bits(FreeSpaceState { run: None, runs: seq![] }, bits, base, n);
            &&& forall|k: int|
                0 <= k < s.runs.len() ==> (#[trigger] s.runs[k]).0 + s.runs[k].1 < base + n
            &&& s.run is None && n > 0 ==> bit_set(bits, n - 1)
            &&& s.run matches Some(run) ==> run.0 + run.1 == base + n
        }),
    decreases n,
{
    if n > 0 {
        lemma_run_reaches_end(bits, base, n - 1);
    }
}

/// The runs that a scan finds are maximal: none is empty, a cluster on either side of one is in
/// use or outside the bitmap, and they come in order with a gap between any two.
pub proof fn lemma_free_runs_are_maximal(bits: Seq<u8>, base: int, n: int)
    requires
        0 <= n <= 8 * bits.len(),
    ensures
        ({
            let runs = all_runs(
                after_bits(FreeSpaceState { run: None, runs: seq![] }, bits, base, n),
            );
            &&& forall|k: int|
                0 <= k < runs.len() ==> (#[trigger] runs[k]).1 > 0 && base <= runs[k].0
                    && runs[k].0 + runs[k].1 <= base + n && not_free(
                    bits,
                    base,
                    n,
                    runs[k].0 - 1,
                ) && not_free(bits, base, n, runs[k].0 + runs[k].1)
            &&& forall|k: int, l: int|
                0 <= k < l < runs.len() ==> (#[trigger] runs[k]).0 + runs[k].1 < (
                #[trigger] runs[l]).0
        }),
    decreases n,
{
    let empty = FreeSpaceState { run: None, runs: seq![] };
    let s = after_bits(empty, bits, base, n);
    if n > 0 {
        lemma_free_runs_are_maximal(bits, base, n - 1);
        let p = after_bits(empty, bits, base, n - 1);
        lemma_run_reaches_end(bits, base, n - 1);
        let before = all_runs(p);
        let after = all_runs(s);
        assert forall|k: int| 0 <= k < p.runs.len() implies #[trigger] before[k] == p.runs[k] by {}
        if bit_set(bits, n - 1) {
            assert(after =~= before);
        } else {
            match p.run {
                None => {
                    assert(after =~= before.push((base + n - 1, 1)));
                },
                Some(run) => {
                    assert(after =~= before.update(before.len() - 1, (run.0, run.1 + 1)));
                },
            }
        }
        assert forall|k: int| 0 <= k < after.len() implies (#[trigger] after[k]).1 > 0 && base
            <= after[k].0 && after[k].0 + after[k].1 <= base + n && not_free(
            bits,
            base,
            n,
            after[k].0 - 1,
        ) && not_free(bits, base, n, after[k].0 + after[k].1) by {
            if k < before.len() {
                assert(before[k].1 > 0);
            }
        }
        assert forall|k: int, l: int| 0 <= k < l < after.len() implies (#[trigger] after[k]).0
            + after[k].1 < (#[trigger] after[l]).0 by {
            assert(before[k] == p.runs[k]);
            if l < before.len() {
                assert(before[k].0 + before[k].1 < before[l].0);
            }
        }
    } else {
        assert(all_runs(s) =~= seq![]);
    }
}

/// The bytes of a run within the range of numbers.
proof fn lemma_run_bytes(run: (int, int), size: u64, limit: int)
    requires
        0 <= run.0,
        0 < run.1,
        run.0 + run.1 <= limit,
        limit * size <= u64::MAX,
        size > 0,
    ensures
        run_bytes(run, size).offset == run.0 * size,
        run_bytes(run, size).length == run.1 * size,
        extent_end(run_bytes(run, size)) == (run.0 + run.1) * size,
{
    let n = size as int;
    assert(run.0 * n <= limit * n && run.1 * n <= limit * n && run.0 * n + run.1 * n == (run.0
        + run.1) * n && (run.0 + run.1) * n <= limit * n && run.0 * n >= 0 && run.1 * n >= 0)
        by (nonlinear_arith)
        requires
            0 <= run.0,
            0 < run.1,
            run.0 + run.1 <= limit,
            n > 0,
    ;
}

/// The extents of runs that come in order with gaps come in order and do not overlap.
proof fn lemma_extents_of_runs(
    runs: Seq<(int, int)>,
    size: u64,
    limit: int,
    extents: Seq<ByteRun>,
)
    requires
        forall|k: int|
            0 <= k < runs.len() ==> (#[trigger] runs[k]).1 > 0 && 0 <= runs[k].0 && runs[k].0
                + runs[k].1 <= limit,
        forall|k: int, l: int|
            0 <= k < l < runs.len() ==> (#[trigger] runs[k]).0 + runs[k].1 < (#[trigger] runs[l]).0,
        limit * size <= u64::MAX,
        size > 0,
        stable_sorted(runs_bytes(runs, size), extents, by_offset()),
    ensures
        extents_sorted(extents),
        forall|i: int, j: int|
            0 <= i < j < extents.len() ==> extent_end(extents[i]) <= extents[j].offset,
{
    let inp = runs_bytes(runs, size);
    let perm = choose|perm: Seq<usize>| stable_sorted_by(inp, extents, perm, by_offset());
    let n = size as int;
    assert forall|k: int, l: int| 0 <= k < l < runs.len() implies extent_end(#[trigger] inp[k]) < (
    #[trigger] inp[l]).offset && inp[k].offset < inp[l].offset by {
        lemma_run_bytes(runs[k], size, limit);
        lemma_run_bytes(runs[l], size, limit);
        let end = runs[k].0 + runs[k].1;
        let start = runs[l].0;
        let first = runs[k].0;
        assert(end * n < start * n && first * n < start * n) by (nonlinear_arith)
            requires
                first < end < start,
                n > 0,
        ;
    }
    assert forall|i: int, j: int| 0 <= i < j < extents.len() implies extent_end(extents[i])
        <= extents[j].offset && extents[i].offset <= extents[j].offset by {
        let a = perm[i] as int;
        let b = perm[j] as int;
        assert(goes_first(inp, by_offset(), a, b));
        assert(extents[i] == inp[a] && extents[j] == inp[b]);
        if b < a {
            assert(inp[b].offset < inp[a].offset);
        }
        assert(extent_end(inp[a]) < inp[b].offset);
    }
}

/// A range is told to be free exactly where every cluster that it touches is free by the bitmap.
pub proof fn lemma_free_ranges_are_told(
    bits: Seq<u8>,
    base: int,
    n: int,
    size: u64,
    extents: Seq<ByteRun>,
    offset: u64,
    length: u64,
)
    requires
        0 <= base,
        0 <= n <= 8 * bits.len(),
        size > 0,
        (base + n) * size <= u64::MAX,
        stable_sorted(
            runs_bytes(
                all_runs(after_bits(FreeSpaceState { run: None, runs: seq![] }, bits, base, n)),
                size,
            ),
            extents,
            by_offset(),
        ),
        length > 0,
        offset + length <= u64::MAX,
    ensures
        range_covered(extents, offset, length) <==> forall|c: int|
            offset / size <= c <= (offset + length - 1) / (size as int) ==> !(#[trigger] not_free(
                bits,
                base,
                n,
                c,
            )),
{
    let runs = all_runs(after_bits(FreeSpaceState { run: None, runs: seq![] }, bits, base, n));
    let inp = runs_bytes(runs, size);
    let limit = base + n;
    let w = size as int;
    let first = offset as int / w;
    let last = (offset + length - 1) / w;
    lemma_free_runs_are_maximal(bits, base, n);
    lemma_extents_of_runs(runs, size, limit, extents);
    assert(strict_weak_order(by_offset()));
    lemma_stable_sorted_keeps_items(inp, extents, by_offset());
    if range_covered(extents, offset, length) {
        lemma_covered_range_lies_in_an_extent(extents, offset, length);
        let k = choose|k: int|
            0 <= k < extents.len() && (#[trigger] extents[k]).offset <= offset && offset + length
                <= extent_end(extents[k]);
        assert(inp.contains(extents[k]));
        let m = choose|m: int| 0 <= m < inp.len() && inp[m] == extents[k];
        let run = runs[m];
        lemma_run_bytes(run, size, limit);
        let end = run.0 + run.1;
        assert(run.0 <= first && last < end) by (nonlinear_arith)
            requires
                w > 0,
                run.0 * w <= offset,
                offset + length <= end * w,
                first == offset as int / w,
                last == (offset + length - 1) / w,
        ;
        assert forall|c: int| first <= c <= last implies !(#[trigger] not_free(bits, base, n, c)) by {
            lemma_scan_finds_free_clusters(bits, base, n, c);
            assert(in_run(runs[m], c));
        }
    }
    if forall|c: int| first <= c <= last ==> !(#[trigger] not_free(bits, base, n, c)) {
        assert(first <= last && first * w <= offset && offset + length <= (last + 1) * w)
            by (nonlinear_arith)
            requires
                w > 0,
                length > 0,
                first == offset as int / w,
                last == (offset + length - 1) / w,
        ;
        lemma_scan_finds_free_clusters(bits, base, n, first);
        assert(!not_free(bits, base, n, first));
        let m = choose|m: int| 0 <= m < runs.len() && in_run(#[trigger] runs[m], first);
        let run = runs[m];
        let end = run.0 + run.1;
        if last >= end {
            assert(!not_free(bits, base, n, end));
        }
        lemma_run_bytes(run, size, limit);
        lemma_stable_sorted_loses_nothing(inp, extents, by_offset(), m);
        let k = choose|k: int| 0 <= k < extents.len() && extents[k] == inp[m];
        assert(run.0 * w <= first * w && (last + 1) * w <= end * w) by (nonlinear_arith)
            requires
                w > 0,
                run.0 <= first,
                last + 1 <= end,
        ;
        lemma_free_range_is_covered(extents, offset, length, k);
    }
}

// ---------------------------------------------------------------------------
// Reads that a raw device accepts.

/// A read that starts and ends on the alignment of the device.
#[derive(Debug, Clone, Copy, PartialEq, Eq, Structural)]
pub struct ReadPlan {
    pub aligned_offset: u64,
    pub prefix: usize,
    pub aligned_length: usize,
}

/// The alignment of a device: raw devices are read in pages.
pub fn device_alignment(path: &str) -> (r: u64)
    ensures
        r == if "\\\\.\\"@.is_prefix_of(path@) {
            4096u64
        } else {
            1
        },
{
    if has_prefix(path, "\\\\.\\") {
        4096
    } else {
        1
    }
}

/// The aligned read that holds `length` bytes at `offset`.
pub fn plan_read(alignment: u64, offset: u64, length: usize) -> (r: ReadPlan)
    requires
        0 < alignment <= 4096,
        length <= usize::MAX - 2 * 4096,
    ensures
        r.aligned_offset + r.prefix == offset,
        r.prefix < alignment,
        r.aligned_offset % alignment == 0,
        r.aligned_length % (alignment as usize) == 0,
        r.prefix + length <= r.aligned_length < r.prefix + length + alignment,
{
    proof {
        vstd::arithmetic::div_mod::lemma_fundamental_div_mod(offset as int, alignment as int);
        vstd::arithmetic::mul::lemma_mul_is_commutative(
            (offset / alignment) as int,
            alignment as int,
        );
        vstd::arithmetic::div_mod::lemma_mod_multiples_basic(
            (offset / alignment) as int,
            alignment as int,
        );
        vstd::arithmetic::div_mod::lemma_div_pos_is_pos(offset as int, alignment as int);
    }
    assert(0 <= (offset / alignment) * alignment <= offset);
    let aligned_offset: u64 = offset / alignment * alignment;
    let prefix: usize = (offset - aligned_offset) as usize;
    let requested: usize = prefix + length;
    let unit: usize = alignment as usize;
    let rest: usize = requested % unit;
    let aligned_length: usize = if rest == 0 {
        requested
    } else {
        requested + (unit - rest)
    };
    proof {
        if rest != 0 {
            vstd::arithmetic::div_mod::lemma_fundamental_div_mod(requested as int, unit as int);
            let q = requested as int / unit as int;
            assert(aligned_length == unit * (q + 1)) by (nonlinear_arith)
                requires
                    requested == unit * q + rest,
                    aligned_length == requested + (unit - rest),
            ;
            assert(unit * (q + 1) == (q + 1) * unit) by (nonlinear_arith);
            vstd::arithmetic::div_mod::lemma_mod_multiples_basic(q + 1, unit as int);
        }
    }
    ReadPlan { aligned_offset, prefix, aligned_length }
}

/// The refusal of a window that reaches beyond what could be read.
pub open spec fn short_read_message(length: usize, path: Seq<char>) -> Seq<char> {
    "Failed to read "@ + decimal(length as nat) + " bytes from "@ + path
        + ": requested window extends past available data"@
}

/// The wanted bytes of an aligned read of which `total_read` bytes came.
pub fn read_bytes(plan: &ReadPlan, buffer: &Vec<u8>, total_read: usize, length: usize, path: &str) -> (
r: Result<Vec<u8>, RssError>)
    requires
        plan.prefix + length <= usize::MAX,
        total_read <= buffer@.len(),
    ensures
        match r {
            Ok(bytes) => plan.prefix + length <= total_read && bytes@ == buffer@.subrange(
                plan.prefix as int,
                plan.prefix + length,
            ),
            Err(RssError::Message(message)) => total_read < plan.prefix + length && message@
                == short_read_message(length, path@),
        },
{
    let required: usize = plan.prefix + length;
    if total_read < required {
        let mut message = owned("Failed to read ");
        push_decimal(&mut message, length as u64);
        message.append(" bytes from ");
        message.append(path);
        message.append(": requested window extends past available data");
        return Err(RssError::Message(message));
    }
    Ok(slice_to_vec(buffer.as_slice(), plan.prefix, required))
}

/// Where the buffer holds the device from the planned offset on, the result is what the
/// device holds at the wanted offset.
pub proof fn lemma_aligned_read_is_exact(
    device: Seq<u8>,
    plan: ReadPlan,
    offset: u64,
    length: usize,
    buffer: Seq<u8>,
    total_read: usize,
)
    requires
        plan.aligned_offset + plan.prefix == offset,
        total_read <= buffer.len(),
        plan.prefix + length <= total_read,
        plan.aligned_offset + total_read <= device.len(),
        buffer.subrange(0, total_read as int) == device.subrange(
            plan.aligned_offset as int,
            plan.aligned_offset + total_read,
        ),
    ensures
        buffer.subrange(plan.prefix as int, plan.prefix + length) == device.subrange(
            offset as int,
            offset + length,
        ),
{
    let head = buffer.subrange(0, total_read as int);
    let disk = device.subrange(plan.aligned_offset as int, plan.aligned_offset + total_read);
    assert forall|i: int| 0 <= i < length implies #[trigger] buffer.subrange(
        plan.prefix as int,
        plan.prefix + length,
    )[i] == device.subrange(offset as int, offset + length)[i] by {
        assert(head[plan.prefix + i] == disk[plan.prefix + i]);
    }
    assert(buffer.subrange(plan.prefix as int, plan.prefix + length) =~= device.subrange(
        offset as int,
        offset + length,
    ));
}

// ---------------------------------------------------------------------------
// The data of an NTFS file.

/// A run of a data stream: `lcn` is its byte offset on the volume.
#[derive(Debug, Clone, Copy, PartialEq, Eq, Structural)]
pub enum DataRun {
    Data { lcn: u64, length: u64 },
    Sparse { length: u64 },
}

/// The data stream of a file.
#[derive(Debug)]
pub enum NtfsDataStream {
    Resident(Vec<u8>),
    NonResident { logical_size: u64, runs: Vec<DataRun> },
}

pub open spec fn run_length(run: DataRun) -> u64 {
    match run {
        DataRun::Data { lcn, length } => length,
        DataRun::Sparse { length } => length,
    }
}

/// A piece of a window: a read from the volume, or zeros of a hole.
#[derive(Debug, Clone, Copy, PartialEq, Eq, Structural)]
pub enum WindowPiece {
    Read { offset: u64, length: u64 },
    Zeros { length: u64 },
}

pub open spec fn piece_length(piece: WindowPiece) -> u64 {
    match piece {
        WindowPiece::Read { offset, length } => length,
        WindowPiece::Zeros { length } => length,
    }
}

/// The piece of a run from `skip` on.
pub open spec fn run_piece(run: DataRun, skip: u64, length: u64) -> WindowPiece {
    match run {
        DataRun::Data { lcn, length: _ } => WindowPiece::Read {
            offset: sat_add(lcn, skip),
            length,
        },
        DataRun::Sparse { length: _ } => WindowPiece::Zeros { length },
    }
}

/// The pieces of the bytes from `offset` to `end` in the runs from `i` on, the first of which
/// starts at `cursor` in the file.
pub open spec fn window_pieces(
    runs: Seq<DataRun>,
    i: int,
    cursor: u64,
    offset: u64,
    end: u64,
) -> Seq<WindowPiece>
    decreases runs.len() - i,
{
    if i < 0 || i >= runs.len() {
        seq![]
    } else {
        let length = run_length(runs[i]);
        let run_end = sat_add(cursor, length);
        if run_end <= offset {
            window_pieces(runs, i + 1, run_end, offset, end)
        } else if cursor >= end {
            seq![]
        } else {
            let skip = if offset > cursor {
                (offset - cursor) as u64
            } else {
                0
            };
            let stop = if end - cursor < length {
                (end - cursor) as u64
            } else {
                length
            };
            let rest = window_pieces(runs, i + 1, run_end, offset, end);
            if stop <= skip {
                rest
            } else {
                seq![run_piece(runs[i], skip, (stop - skip) as u64)] + rest
            }
        }
    }
}

/// The end of a window: within the file.
pub open spec fn window_end(logical_size: u64, offset: u64, length: u64) -> u64 {
    if sat_add(offset, length) < logical_size {
        sat_add(offset, length)
    } else {
        logical_size
    }
}

/// The pieces of a window of a file.
pub open spec fn data_window(
    runs: Seq<DataRun>,
    logical_size: u64,
    offset: u64,
    length: u64,
) -> Seq<WindowPiece> {
    let end = window_end(logical_size, offset, length);
    if end <= offset {
        seq![]
    } else {
        window_pieces(runs, 0, 0, offset, end)
    }
}

/// Which parts of the volume hold a window of a file.
pub fn plan_data_window(runs: &Vec<DataRun>, logical_size: u64, offset: u64, length: u64) -> (r:
    Vec<WindowPiece>)
    ensures
        r@ == data_window(runs@, logical_size, offset, length),
{
    let wanted: u64 = offset.saturating_add(length);
    let end: u64 = if wanted < logical_size {
        wanted
    } else {
        logical_size
    };
    let mut pieces: Vec<WindowPiece> = Vec::new();
    if end <= offset {
        return pieces;
    }
    let ghost all = window_pieces(runs@, 0, 0, offset, end);
    let mut cursor: u64 = 0;
    let mut i: usize = 0;
    assert(pieces@ + all =~= all);
    while i < runs.len()
        invariant
            i <= runs@.len(),
            all == data_window(runs@, logical_size, offset, length),
            pieces@ + window_pieces(runs@, i as int, cursor, offset, end) == all,
        decreases runs@.len() - i,
    {
        let run = runs[i];
        let run_len: u64 = match run {
            DataRun::Data { lcn: _, length } => length,
            DataRun::Sparse { length } => length,
        };
        let run_end: u64 = cursor.saturating_add(run_len);
        if run_end <= offset {
            cursor = run_end;
            i += 1;
            continue;
        }
        if cursor >= end {
            assert(pieces@ + seq![] =~= pieces@);
            return pieces;
        }
        let skip: u64 = offset.saturating_sub(cursor);
        let stop: u64 = if end - cursor < run_len {
            end - cursor
        } else {
            run_len
        };
        if stop > skip {
            let piece = match run {
                DataRun::Data { lcn, length: _ } => WindowPiece::Read {
                    offset: lcn.saturating_add(skip),
                    length: stop - skip,
                },
                DataRun::Sparse { length: _ } => WindowPiece::Zeros { length: stop - skip },
            };
            let ghost before = pieces@;
            pieces.push(piece);
            assert(pieces@ + window_pieces(runs@, i + 1, run_end, offset, end) =~= before + (
            seq![piece] + window_pieces(runs@, i + 1, run_end, offset, end)));
        }
        cursor = run_end;
        i += 1;
    }
    assert(pieces@ + seq![] =~= pieces@);
    pieces
}

/// How many bytes runs hold from the `i`-th on.
pub open spec fn runs_total(runs: Seq<DataRun>, i: int) -> int
    decreases runs.len() - i,
{
    if i < 0 || i >= runs.len() {
        0
    } else {
        run_length(runs[i]) + runs_total(runs, i + 1)
    }
}

/// How many bytes pieces hold.
pub open spec fn pieces_total(pieces: Seq<WindowPiece>) -> int
    decreases pieces.len(),
{
    if pieces.len() == 0 {
        0
    } else {
        piece_length(pieces[0]) + pieces_total(pieces.drop_first())
    }
}

/// A window holds exactly the bytes that were asked for and that the runs have.
pub proof fn lemma_window_holds_what_runs_have(
    runs: Seq<DataRun>,
    i: int,
    cursor: u64,
    offset: u64,
    end: u64,
)
    requires
        0 <= i <= runs.len(),
        cursor + runs_total(runs, i) <= u64::MAX,
        offset < end,
    ensures
        runs_total(runs, i) >= 0,
        ({
            let last = if cursor + runs_total(runs, i) < end {
                cursor + runs_total(runs, i)
            } else {
                end as int
            };
            let first = if cursor > offset {
                cursor as int
            } else {
                offset as int
            };
            pieces_total(window_pieces(runs, i, cursor, offset, end)) == if last > first {
                last - first
            } else {
                0
            }
        }),
    decreases runs.len() - i,
{
    if i < runs.len() {
        let length = run_length(runs[i]);
        lemma_runs_total_nonnegative(runs, i + 1);
        let run_end = sat_add(cursor, length);
        lemma_window_holds_what_runs_have(runs, i + 1, run_end, offset, end);
        if run_end <= offset {
        } else if cursor >= end {
        } else {
            let skip = if offset > cursor {
                (offset - cursor) as u64
            } else {
                0
            };
            let stop = if end - cursor < length {
                (end - cursor) as u64
            } else {
                length
            };
            if stop > skip {
                let rest = window_pieces(runs, i + 1, run_end, offset, end);
                let pieces = seq![run_piece(runs[i], skip, (stop - skip) as u64)] + rest;
                assert(pieces.drop_first() =~= rest);
            }
        }
    }
}

proof fn lemma_runs_total_nonnegative(runs: Seq<DataRun>, i: int)
    ensures
        runs_total(runs, i) >= 0,
    decreases runs.len() - i,
{
    if 0 <= i < runs.len() {
        lemma_runs_total_nonnegative(runs, i + 1);
    }
}

/// The bytes of an optional read.
pub open spec fn read_view(read: Option<Vec<u8>>) -> Option<Seq<u8>> {
    match read {
        Some(bytes) => Some(bytes@),
        None => None,
    }
}

/// The outcomes of the reads.
pub open spec fn read_views(reads: Seq<Option<Vec<u8>>>) -> Seq<Option<Seq<u8>>> {
    reads.map_values(|read: Option<Vec<u8>>| read_view(read))
}

/// The bytes of the pieces from `i` on, where the reads from `k` on are their outcomes: a
/// failed read ends the window, and makes it fail where no byte came before.
pub open spec fn assembled(
    pieces: Seq<WindowPiece>,
    i: int,
    reads: Seq<Option<Seq<u8>>>,
    k: int,
    out: Seq<u8>,
) -> Option<Seq<u8>>
    decreases pieces.len() - i,
{
    if i < 0 || i >= pieces.len() {
        Some(out)
    } else {
        match pieces[i] {
            WindowPiece::Zeros { length } => assembled(
                pieces,
                i + 1,
                reads,
                k,
                out + Seq::new(length as nat, |j: int| 0u8),
            ),
            WindowPiece::Read { offset, length } => if k < reads.len() && reads[k] is Some {
                assembled(pieces, i + 1, reads, k + 1, out + reads[k]->0)
            } else if out.len() == 0 {
                None
            } else {
                Some(out)
            },
        }
    }
}

/// Puts a window together from the reads of its pieces; the list of reads ends with the
/// first one that failed.
pub fn read_ntfs_data_window(pieces: &Vec<WindowPiece>, reads: &Vec<Option<Vec<u8>>>) -> (r: Option<
    Vec<u8>,
>)
    ensures
        read_view(r) == assembled(pieces@, 0, read_views(reads@), 0, seq![]),
{
    let mut out: Vec<u8> = Vec::new();
    let mut i: usize = 0;
    let mut k: usize = 0;
    while i < pieces.len()
        invariant
            i <= pieces@.len(),
            k <= reads@.len(),
            assembled(pieces@, 0, read_views(reads@), 0, seq![]) == assembled(
                pieces@,
                i as int,
                read_views(reads@),
                k as int,
                out@,
            ),
        decreases pieces@.len() - i,
    {
        match pieces[i] {
            WindowPiece::Zeros { length } => {
                let ghost before = out@;
                let mut n: u64 = 0;
                while n < length
                    invariant
                        n <= length,
                        out@ == before + Seq::new(n as nat, |j: int| 0u8),
                    decreases length - n,
                {
                    out.push(0);
                    assert(out@ =~= before + Seq::new((n + 1) as nat, |j: int| 0u8));
                    n += 1;
                }
            },
            WindowPiece::Read { offset: _, length: _ } => {
                if k >= reads.len() {
                    return if out.len() == 0 {
                        None
                    } else {
                        Some(out)
                    };
                }
                assert(read_views(reads@)[k as int] == read_view(reads@[k as int]));
                match &reads[k] {
                    Some(bytes) => {
                        let mut piece = slice_to_vec(bytes.as_slice(), 0, bytes.len());
                        assert(piece@ =~= bytes@);
                        out.append(&mut piece);
                        k += 1;
                    },
                    None => {
                        return if out.len() == 0 {
                            None
                        } else {
                            Some(out)
                        };
                    },
                }
            },
        }
        i += 1;
    }
    Some(out)
}

/// A window of resident data.
pub fn resident_window(bytes: &Vec<u8>, offset: u64, length: u64) -> (r: Vec<u8>)
    ensures
        ({
            let n = bytes@.len();
            let first = if offset < n {
                offset as int
            } else {
                n as int
            };
            let last = if offset + length < n {
                offset + length
            } else {
                n as int
            };
            r@ == bytes@.subrange(first, last)
        }),
{
    let n: u64 = bytes.len() as u64;
    let first: u64 = if offset < n {
        offset
    } else {
        n
    };
    let wanted: u64 = offset.saturating_add(length);
    let last: u64 = if wanted < n {
        wanted
    } else {
        n
    };
    slice_to_vec(bytes.as_slice(), first as usize, last as usize)
}

/// A data attribute of a file record: whether it has a name, its size, and its stream where
/// it could be read.
#[derive(Debug)]
pub struct DataAttribute {
    pub named: bool,
    pub size: u64,
    pub stream: Option<NtfsDataStream>,
}

/// Attribute `i` is one of the wanted kind that can be read.
pub open spec fn stream_candidate(attributes: Seq<DataAttribute>, named: bool, i: int) -> bool {
    0 <= i < attributes.len() && attributes[i].named == named && attributes[i].stream is Some
}

/// Attribute `i` is the first of the largest of its kind.
pub open spec fn is_best_of(attributes: Seq<DataAttribute>, named: bool, i: int) -> bool {
    &&& stream_candidate(attributes, named, i)
    &&& forall|j: int| #[trigger]
        stream_candidate(attributes, named, j) ==> attributes[j].size <= attributes[i].size && (j
            < i ==> attributes[j].size < attributes[i].size)
}

/// No attribute of the kind can be read.
pub open spec fn no_stream(attributes: Seq<DataAttribute>, named: bool) -> bool {
    forall|j: int| !#[trigger] stream_candidate(attributes, named, j)
}

fn best_of_kind(attributes: &Vec<DataAttribute>, named: bool) -> (r: Option<usize>)
    ensures
        match r {
            Some(i) => is_best_of(attributes@, named, i as int),
            None => no_stream(attributes@, named),
        },
{
    let mut best: Option<usize> = None;
    let mut i: usize = 0;
    while i < attributes.len()
        invariant
            i <= attributes@.len(),
            match best {
                Some(b) => b < i && stream_candidate(attributes@, named, b as int) && forall|j: int|
                    #[trigger] stream_candidate(attributes@, named, j) && j < i
                        ==> attributes@[j].size <= attributes@[b as int].size && (j < b
                        ==> attributes@[j].size < attributes@[b as int].size),
                None => forall|j: int|
                    #[trigger] stream_candidate(attributes@, named, j) ==> j >= i,
            },
        decreases attributes@.len() - i,
    {
        if attributes[i].named == named && attributes[i].stream.is_some() {
            let replace: bool = match best {
                Some(b) => attributes[i].size > attributes[b].size,
                None => true,
            };
            assert(stream_candidate(attributes@, named, i as int));
            if replace {
                best = Some(i);
            }
        }
        i += 1;
    }
    best
}

/// The stream that holds the content of a file: the largest without a name, else the largest
/// with one.
pub fn best_ntfs_data_stream(attributes: &Vec<DataAttribute>) -> (r: Option<usize>)
    ensures
        match r {
            Some(i) => is_best_of(attributes@, false, i as int) || (no_stream(attributes@, false)
                && is_best_of(attributes@, true, i as int)),
            None => no_stream(attributes@, false) && no_stream(attributes@, true),
        },
{
    match best_of_kind(attributes, false) {
        Some(i) => Some(i),
        None => best_of_kind(attributes, true),
    }
}

/// What is known of a file record.
#[derive(Debug)]
pub struct NtfsRecordContent {
    pub is_directory: bool,
    pub data: Option<NtfsDataStream>,
}

/// How a range of a file record is had: at once, or from reads.
#[derive(Debug)]
pub enum NtfsRangePlan {
    Ready(Vec<u8>),
    Read(Vec<WindowPiece>),
}

/// The bytes from `offset` on of resident data.
pub open spec fn resident_range(bytes: Seq<u8>, offset: u64, length: u64) -> Seq<u8> {
    let n = bytes.len();
    bytes.subrange(
        if offset < n {
            offset as int
        } else {
            n as int
        },
        if offset + length < n {
            offset + length
        } else {
            n as int
        },
    )
}

/// How a range of the content of a file record is read.
pub fn read_ntfs_record_range_for_source(
    record: &Option<NtfsRecordContent>,
    record_number: u64,
    offset: u64,
    length: u64,
) -> (r: Result<NtfsRangePlan, RssError>)
    ensures
        match record {
            None => r matches Err(RssError::Message(m)) && m@ == "NTFS record "@ + decimal(
                record_number as nat,
            ) + " is unavailable"@,
            Some(content) => if content.is_directory {
                r matches Err(RssError::Message(m)) && m@
                    == "Directories do not expose byte preview"@
            } else {
                match content.data {
                    None => r matches Err(RssError::Message(m)) && m@ == "NTFS record "@ + decimal(
                        record_number as nat,
                    ) + " has no readable $DATA attribute"@,
                    Some(NtfsDataStream::Resident(bytes)) => r matches Ok(NtfsRangePlan::Ready(out))
                        && out@ == resident_range(bytes@, offset, length),
                    Some(NtfsDataStream::NonResident { logical_size, runs }) => r matches Ok(
                        NtfsRangePlan::Read(pieces),
                    ) && pieces@ == data_window(runs@, logical_size, offset, length),
                }
            },
        },
{
    match record {
        None => {
            let mut message = owned("NTFS record ");
            push_decimal(&mut message, record_number);
            message.append(" is unavailable");
            Err(RssError::Message(message))
        },
        Some(content) => {
            if content.is_directory {
                return Err(RssError::Message(owned("Directories do not expose byte preview")));
            }
            match &content.data {
                None => {
                    let mut message = owned("NTFS record ");
                    push_decimal(&mut message, record_number);
                    message.append(" has no readable $DATA attribute");
                    Err(RssError::Message(message))
                },
                Some(NtfsDataStream::Resident(bytes)) => Ok(
                    NtfsRangePlan::Ready(resident_window(bytes, offset, length)),
                ),
                Some(NtfsDataStream::NonResident { logical_size, runs }) => Ok(
                    NtfsRangePlan::Read(plan_data_window(runs, *logical_size, offset, length)),
                ),
            }
        },
    }
}

} // verus!
