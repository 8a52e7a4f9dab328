//! What the recycle bin keeps of a deleted file.

use crate::bytes::{
    laid_at, le16, le32, le64, le_bytes, lemma_le32_reads_back, lemma_le64_reads_back, read_le16,
    read_le32, read_le64,
};
use crate::clock::{filetime_text, format_ntfs_filetime};
use crate::codec::{base64_bytes, decode_base64};
use crate::i30::stored_text;
use crate::utf16::{char_units, decode_utf16, lemma_utf16_reads_back, utf16_text, written_utf16};
use crate::model::{
    ArtifactRecord, Confidence, DeletedTimeConfidence, DeletedTimeSource, PathConfidence,
    PathEvidence, PathEvidenceSource, PlacementKind, RecoveryPlan,
};
use crate::records::{evidence_views, record_views, ArtifactView, EvidenceView, PlanView};
use crate::table::Table;
use crate::text::{
    ascii_lower, chars_of, clone_opt, concat2, has_prefix, opt_view, owned, string_of,
    to_ascii_lowercase,
};
use vstd::prelude::*;
use vstd::string::*;

verus! {

/// Where a file lay before it was moved to the recycle bin, and when it was moved.
#[derive(Debug)]
pub struct RecycleBinMetadata {
    pub original_path: String,
    pub deleted_at: Option<String>,
}

pub struct RecycleView {
    pub original_path: Seq<char>,
    pub deleted_at: Option<Seq<char>>,
}

impl View for RecycleBinMetadata {
    type V = RecycleView;

    open spec fn view(&self) -> RecycleView {
        RecycleView { original_path: self.original_path@, deleted_at: opt_view(self.deleted_at) }
    }
}

/// The UTF-16 code units of some bytes, up to the first zero.
pub open spec fn units_before_zero(bytes: Seq<u8>) -> Seq<u16>
    decreases bytes.len(),
{
    if bytes.len() < 2 || le16(bytes, 0) == 0 {
        seq![]
    } else {
        seq![le16(bytes, 0) as u16] + units_before_zero(bytes.subrange(2, bytes.len() as int))
    }
}

pub fn utf16_null_terminated(bytes: &[u8], from: usize, to: usize) -> (r: Option<String>)
    requires
        from <= to <= bytes@.len(),
    ensures
        opt_view(r) == utf16_text(units_before_zero(bytes@.subrange(from as int, to as int))),
{
    let mut units: Vec<u16> = Vec::new();
    let mut i: usize = from;
    let ghost all = units_before_zero(bytes@.subrange(from as int, to as int));
    assert(units@ + all =~= all);
    while to - i >= 2
        invariant_except_break
            all == units@ + units_before_zero(bytes@.subrange(i as int, to as int)),
        invariant
            from <= i <= to <= bytes@.len(),
        ensures
            all == units@,
        decreases to - i,
    {
        let ghost rest = bytes@.subrange(i as int, to as int);
        let unit: u16 = read_le16(bytes, i);
        assert(le16(rest, 0) == unit);
        if unit == 0 {
            assert(units@ + seq![] =~= units@);
            break;
        }
        let ghost before = units@;
        units.push(unit);
        i += 2;
        proof {
            assert(rest.subrange(2, rest.len() as int) =~= bytes@.subrange(i as int, to as int));
            let more = units_before_zero(bytes@.subrange(i as int, to as int));
            assert(before + (seq![unit] + more) =~= units@ + more);
        }
    }
    decode_utf16(units.as_slice())
}

/// The range of the path in an information record: behind its length in the newer form, behind
/// the header in the older one.
pub open spec fn path_range(bytes: Seq<u8>) -> (int, int) {
    let n = bytes.len() as int;
    if le64(bytes, 0) >= 2 && n >= 28 {
        let end = 28 + 2 * le32(bytes, 24);
        (
            28,
            if end < n {
                end
            } else {
                n
            },
        )
    } else {
        (24, n)
    }
}

/// What an information record of the recycle bin says.
pub open spec fn recycle_info(bytes: Seq<u8>) -> Option<RecycleView> {
    if bytes.len() < 24 {
        None
    } else {
        let (from, to) = path_range(bytes);
        match utf16_text(units_before_zero(bytes.subrange(from, to))) {
            None => None,
            Some(path) => if path.len() == 0 {
                None
            } else {
                Some(
                    RecycleView {
                        original_path: path,
                        deleted_at: filetime_text(le64(bytes, 16) as u64),
                    },
                )
            },
        }
    }
}

pub fn parse_recycle_bin_info(bytes: &[u8]) -> (r: Option<RecycleBinMetadata>)
    ensures
        match recycle_info(bytes@) {
            Some(info) => r matches Some(m) && m@ == info,
            None => r is None,
        },
{
    let n: usize = bytes.len();
    if n < 24 {
        return None;
    }
    let version: u64 = read_le64(bytes, 0);
    let deleted_at = format_ntfs_filetime(read_le64(bytes, 16));
    let mut from: usize = 24;
    let mut to: usize = n;
    if version >= 2 && n >= 28 {
        from = 28;
        let chars: u32 = read_le32(bytes, 24);
        if chars as u64 <= ((n - 28) / 2) as u64 {
            to = 28 + chars as usize * 2;
        }
    }
    match utf16_null_terminated(bytes, from, to) {
        None => None,
        Some(original_path) => if original_path.as_str().is_empty() {
            None
        } else {
            Some(RecycleBinMetadata { original_path, deleted_at })
        },
    }
}

/// The name of the file that an information record is about.
pub open spec fn payload_name(name: Seq<char>) -> Option<Seq<char>> {
    if ("$I"@.is_prefix_of(name) || "$i"@.is_prefix_of(name)) && name.len() > 2 {
        Some(ascii_lower("$r"@ + name.subrange(2, name.len() as int)))
    } else {
        None
    }
}

pub fn recycle_payload_name_for_info_record(name: &str) -> (r: Option<String>)
    ensures
        opt_view(r) == payload_name(name@),
{
    proof {
        reveal_strlit("$I");
        reveal_strlit("$i");
    }
    if has_prefix(name, "$I") || has_prefix(name, "$i") {
        let chars = chars_of(name);
        let n: usize = chars.len();
        if n > 2 {
            let suffix = string_of(&chars, 2, n);
            let payload = concat2("$r", suffix.as_str());
            return Some(to_ascii_lowercase(payload.as_str()));
        }
    }
    None
}

pub open spec fn resident_bytes(plan: PlanView) -> Option<Seq<u8>> {
    match plan {
        PlanView::ResidentBase64 { base64, logical_size } => base64_bytes(base64),
        _ => None,
    }
}

pub fn resident_recovery_bytes(record: &ArtifactRecord) -> (r: Option<Vec<u8>>)
    ensures
        match resident_bytes(record@.recovery_plan) {
            Some(bytes) => r matches Some(v) && v@ == bytes,
            None => r is None,
        },
{
    match &record.recovery_plan {
        RecoveryPlan::ResidentBase64 { base64, logical_size: _ } => decode_base64(base64.as_str()),
        _ => None,
    }
}

/// The file that a record tells of, where it is an information record of the recycle bin.
pub open spec fn told_by(v: ArtifactView) -> Option<(Seq<char>, RecycleView)> {
    match (payload_name(v.name), resident_bytes(v.recovery_plan)) {
        (Some(name), Some(bytes)) => match recycle_info(bytes) {
            Some(info) => Some((name, info)),
            None => None,
        },
        _ => None,
    }
}

fn tells(record: &ArtifactRecord) -> (r: Option<(String, RecycleBinMetadata)>)
    ensures
        match told_by(record@) {
            Some((name, info)) => r matches Some((n, m)) && n@ == name && m@ == info,
            None => r is None,
        },
{
    match recycle_payload_name_for_info_record(record.name.as_str()) {
        Some(name) => match resident_recovery_bytes(record) {
            Some(bytes) => match parse_recycle_bin_info(bytes.as_slice()) {
                Some(info) => Some((name, info)),
                None => None,
            },
            None => None,
        },
        None => None,
    }
}

pub open spec fn recycle_note() -> Seq<char> {
    "$Recycle.Bin $I metadata preserved the original path and deletion timestamp."@
}

/// The record with the path that the recycle bin kept, where it has none.
pub open spec fn path_kept_view(v: ArtifactView, info: RecycleView) -> ArtifactView {
    if v.original_path is None {
        ArtifactView {
            original_path: Some(info.original_path),
            probable_path: None,
            placement_kind: PlacementKind::OriginalPath,
            path_confidence: PathConfidence::Exact,
            confidence: Confidence::High,
            ..v
        }
    } else {
        v
    }
}

/// The record with the time that the recycle bin kept.
pub open spec fn time_kept_view(v: ArtifactView, info: RecycleView) -> ArtifactView {
    match info.deleted_at {
        Some(time) => ArtifactView {
            deleted_at: Some(time),
            deleted_time_source: Some(DeletedTimeSource::RecycleBin),
            deleted_time_confidence: DeletedTimeConfidence::Exact,
            ..v
        },
        None => v,
    }
}

pub open spec fn evidence_kept_view(v: ArtifactView) -> ArtifactView {
    ArtifactView {
        path_evidence: v.path_evidence.push(
            EvidenceView {
                source: PathEvidenceSource::RecycleBin,
                path: v.original_path,
                confidence: PathConfidence::Exact,
                note: recycle_note(),
            },
        ),
        ..v
    }
}

/// The record with what the recycle bin kept of it.
pub open spec fn recycled_view(v: ArtifactView, info: RecycleView) -> ArtifactView {
    evidence_kept_view(time_kept_view(path_kept_view(v, info), info))
}

fn keep_path(record: &mut ArtifactRecord, metadata: &RecycleBinMetadata)
    ensures
        final(record)@ == path_kept_view(old(record)@, metadata@),
{
    if record.original_path.is_none() {
        record.original_path = Some(metadata.original_path.clone());
        record.probable_path = None;
        record.placement_kind = PlacementKind::OriginalPath;
        record.path_confidence = PathConfidence::Exact;
        record.confidence = Confidence::High;
    }
}

fn keep_time(record: &mut ArtifactRecord, metadata: &RecycleBinMetadata)
    ensures
        final(record)@ == time_kept_view(old(record)@, metadata@),
{
    if let Some(time) = &metadata.deleted_at {
        record.deleted_at = Some(time.clone());
        record.deleted_time_source = Some(DeletedTimeSource::RecycleBin);
        record.deleted_time_confidence = DeletedTimeConfidence::Exact;
    }
}

fn keep_evidence(record: &mut ArtifactRecord)
    ensures
        final(record)@ == evidence_kept_view(old(record)@),
{
    let evidence = PathEvidence {
        source: PathEvidenceSource::RecycleBin,
        path: clone_opt(&record.original_path),
        confidence: PathConfidence::Exact,
        note: owned("$Recycle.Bin $I metadata preserved the original path and deletion timestamp."),
    };
    record.path_evidence.push(evidence);
    assert(evidence_views(record.path_evidence@) =~= evidence_kept_view(
        old(record)@,
    ).path_evidence);
}

pub fn apply_recycle_metadata(record: &mut ArtifactRecord, metadata: &RecycleBinMetadata)
    ensures
        final(record)@ == recycled_view(old(record)@, metadata@),
{
    keep_path(record, metadata);
    keep_time(record, metadata);
    keep_evidence(record);
}

/// What the information records among some records tell, by the name of the file; the last one
/// counts.
pub open spec fn told(records: Seq<ArtifactView>) -> Map<Seq<char>, RecycleView>
    decreases records.len(),
{
    if records.len() == 0 {
        Map::empty()
    } else {
        let rest = told(records.drop_last());
        match told_by(records.last()) {
            Some((name, info)) => rest.insert(name, info),
            None => rest,
        }
    }
}

/// An information record gets the path that it keeps itself.
pub open spec fn self_told_view(v: ArtifactView) -> ArtifactView {
    match told_by(v) {
        Some((name, info)) => recycled_view(v, info),
        None => v,
    }
}

/// A record once the recycle bin has been read.
pub open spec fn recycle_applied(v: ArtifactView, told: Map<Seq<char>, RecycleView>) -> ArtifactView {
    let w = self_told_view(v);
    let key = ascii_lower(w.name);
    if told.contains_key(key) {
        recycled_view(w, told[key])
    } else {
        w
    }
}

pub open spec fn table_views(table: Map<Seq<char>, RecycleBinMetadata>) -> Map<
    Seq<char>,
    RecycleView,
> {
    table.map_values(|m: RecycleBinMetadata| m@)
}

/// Gives the records what the recycle bin keeps of them.
pub fn apply_recycle_bin_metadata(results: &mut Vec<ArtifactRecord>)
    ensures
        final(results)@.len() == old(results)@.len(),
        forall|i: int|
            0 <= i < old(results)@.len() ==> #[trigger] final(results)@[i]@ == recycle_applied(
                old(results)@[i]@,
                told(record_views(old(results)@)),
            ),
{
    let ghost start = record_views(results@);
    let n: usize = results.len();
    let mut by_payload_name: Table<RecycleBinMetadata> = Table::new();
    let mut i: usize = 0;
    proof {
        assert(start.subrange(0, 0) =~= seq![]);
        assert(table_views(by_payload_name@) =~= Map::<Seq<char>, RecycleView>::empty());
    }
    while i < n
        invariant
            i <= n,
            n == results@.len(),
            n == start.len(),
            start == record_views(old(results)@),
            by_payload_name.wf(),
            table_views(by_payload_name@) == told(start.subrange(0, i as int)),
            forall|j: int| 0 <= j < i ==> (#[trigger] results@[j])@ == self_told_view(start[j]),
            forall|j: int| i <= j < n ==> (#[trigger] results@[j])@ == start[j],
        decreases n - i,
    {
        proof {
            let now = start.subrange(0, i + 1);
            assert(now.drop_last() =~= start.subrange(0, i as int));
            assert(now.last() == results@[i as int]@);
        }
        if let Some((name, metadata)) = tells(&results[i]) {
            let ghost before = by_payload_name@;
            apply_recycle_metadata(&mut results[i], &metadata);
            by_payload_name.insert(name.as_str(), metadata);
            assert(table_views(by_payload_name@) =~= table_views(before).insert(
                name@,
                metadata@,
            ));
        }
        i += 1;
    }
    assert(start.subrange(0, i as int) =~= start);
    let mut i: usize = 0;
    while i < n
        invariant
            i <= n,
            n == results@.len(),
            n == start.len(),
            start == record_views(old(results)@),
            by_payload_name.wf(),
            table_views(by_payload_name@) == told(start),
            forall|j: int|
                0 <= j < i ==> (#[trigger] results@[j])@ == recycle_applied(start[j], told(start)),
            forall|j: int| i <= j < n ==> (#[trigger] results@[j])@ == self_told_view(start[j]),
        decreases n - i,
    {
        let key = to_ascii_lowercase(results[i].name.as_str());
        proof {
            assert(table_views(by_payload_name@).contains_key(key@)
                == by_payload_name@.contains_key(key@));
        }
        if let Some(metadata) = by_payload_name.get(key.as_str()) {
            apply_recycle_metadata(&mut results[i], metadata);
        }
        i += 1;
    }
    assert forall|i: int| 0 <= i < old(results)@.len() implies #[trigger] results@[i]@
        == recycle_applied(old(results)@[i]@, told(record_views(old(results)@))) by {
        assert(start[i] == old(results)@[i]@);
    }
}

// ---------------------------------------------------------------------------
// Laws.

/// What the recycle bin says never replaces a path that is known, and always gives one.
pub proof fn lemma_recycling_keeps_known_paths(v: ArtifactView, info: RecycleView)
    ensures
        v.original_path is Some ==> recycled_view(v, info).original_path == v.original_path,
        v.original_path is None ==> recycled_view(v, info).original_path == Some(
            info.original_path,
        ),
        info.deleted_at is Some ==> recycled_view(v, info).deleted_time_confidence
            == DeletedTimeConfidence::Exact,
{
}

/// Units of text, each with its low byte first, up to a zero or the end.
proof fn lemma_units_read_back(bytes: Seq<u8>, units: Seq<u16>)
    requires
        bytes.len() >= 2 * units.len(),
        forall|i: int|
            0 <= i < units.len() ==> bytes[2 * i] == (#[trigger] units[i]) % 256 && bytes[2 * i + 1]
                == units[i] / 256,
        forall|i: int| 0 <= i < units.len() ==> #[trigger] units[i] != 0,
        bytes.len() < 2 * units.len() + 2 || (bytes[2 * units.len() as int] == 0 && bytes[2int
            * units.len() + 1] == 0),
    ensures
        units_before_zero(bytes) == units,
    decreases units.len(),
{
    if units.len() > 0 {
        assert(bytes[2int * 0] == units[0] % 256 && bytes[2int * 0 + 1] == units[0] / 256);
        assert(le16(bytes, 0) == units[0]);
        let rest = bytes.subrange(2, bytes.len() as int);
        let more = units.drop_first();
        assert forall|i: int| 0 <= i < more.len() implies rest[2 * i] == (#[trigger] more[i]) % 256
            && rest[2 * i + 1] == more[i] / 256 && more[i] != 0 by {
            assert(more[i] == units[i + 1]);
            assert(rest[2 * i] == bytes[2 * (i + 1)]);
            assert(rest[2 * i + 1] == bytes[2 * (i + 1) + 1]);
        }
        lemma_units_read_back(rest, more);
        assert(seq![units[0]] + more =~= units);
    }
}

proof fn lemma_char_units_are_set(c: char)
    requires
        c != '\0',
    ensures
        forall|i: int| 0 <= i < char_units(c).len() ==> #[trigger] char_units(c)[i] != 0,
{
    assert(c as u32 != 0);
}

proof fn lemma_units_are_set(text: Seq<char>)
    requires
        forall|i: int| 0 <= i < text.len() ==> #[trigger] text[i] != '\0',
    ensures
        forall|i: int| 0 <= i < written_utf16(text).len() ==> #[trigger] written_utf16(text)[i] != 0,
    decreases text.len(),
{
    if text.len() > 0 {
        let rest = text.drop_first();
        assert forall|i: int| 0 <= i < rest.len() implies #[trigger] rest[i] != '\0' by {
            assert(rest[i] == text[i + 1]);
        }
        assert(text[0] != '\0');
        lemma_char_units_are_set(text[0]);
        lemma_units_are_set(rest);
        let (head, more) = (char_units(text[0]), written_utf16(rest));
        assert forall|i: int| 0 <= i < written_utf16(text).len() implies #[trigger] written_utf16(
            text,
        )[i] != 0 by {
            if i < head.len() {
                assert(written_utf16(text)[i] == head[i]);
            } else {
                assert(written_utf16(text)[i] == more[i - head.len()]);
            }
        }
    }
}

/// An information record gives back the path and the time that it was written with, in the older
/// form with the path behind the header and in the newer one with its length in between, whatever
/// the size that it notes.
pub proof fn lemma_info_record_reads_back(
    s: Seq<u8>,
    newer: bool,
    size: u64,
    deleted: u64,
    path: Seq<char>,
)
    requires
        path.len() > 0,
        forall|i: int| 0 <= i < path.len() ==> #[trigger] path[i] != '\0',
        laid_at(
            s,
            0,
            le_bytes(
                if newer {
                    2
                } else {
                    1
                },
                8,
            ),
        ),
        laid_at(s, 8, le_bytes(size as int, 8)),
        laid_at(s, 16, le_bytes(deleted as int, 8)),
        newer ==> written_utf16(path).len() < 0xffff_ffff && laid_at(
            s,
            24,
            le_bytes(1int + written_utf16(path).len(), 4),
        ) && laid_at(s, 28, stored_text(path) + seq![0u8, 0]),
        !newer ==> laid_at(s, 24, stored_text(path) + seq![0u8, 0]),
    ensures
        recycle_info(s) matches Some(info) && info.original_path == path && info.deleted_at
            == filetime_text(deleted),
{
    lemma_le64_reads_back(
        s,
        0,
        if newer {
            2
        } else {
            1
        },
    );
    lemma_le64_reads_back(s, 16, deleted as int);
    let units = written_utf16(path);
    let stored = stored_text(path) + seq![0u8, 0];
    if newer {
        lemma_le32_reads_back(s, 24, 1int + units.len());
    }
    let (from, to) = path_range(s);
    let range = s.subrange(from, to);
    assert(range.len() >= 2 * units.len() + 2);
    assert forall|i: int| 0 <= i < units.len() implies range[2 * i] == (#[trigger] units[i]) % 256
        && range[2 * i + 1] == units[i] / 256 by {
        assert(stored[2 * i] == units[i] % 256 && stored[2 * i + 1] == units[i] / 256);
        assert(s[from + 2 * i] == stored[2 * i]);
        assert(s[from + (2 * i + 1)] == stored[2 * i + 1]);
    }
    assert(stored[2 * units.len() as int] == 0 && stored[2int * units.len() + 1] == 0);
    assert(s[from + 2 * units.len()] == stored[2 * units.len() as int]);
    assert(s[from + (2 * units.len() + 1)] == stored[2int * units.len() + 1]);
    lemma_units_are_set(path);
    lemma_units_read_back(range, units);
    lemma_utf16_reads_back(path);
}

/// The recycle bin tells when a file was deleted and where it lay, and nothing else of it changes
/// but what follows from that.
pub proof fn lemma_recycling_tells_time_and_path(v: ArtifactView, info: RecycleView)
    ensures
        ({
            let r = recycled_view(v, info);
            &&& info.deleted_at is Some ==> r.deleted_at == info.deleted_at && r.deleted_time_source
                == Some(DeletedTimeSource::RecycleBin)
            &&& info.deleted_at is None ==> r.deleted_at == v.deleted_at
            &&& r.created_at == v.created_at && r.modified_at == v.modified_at
            &&& r.last_metadata_change_at == v.last_metadata_change_at
            &&& r.name == v.name && r.id == v.id && r.size == v.size && r.kind == v.kind
            &&& r.recovery_plan == v.recovery_plan && r.recoverability == v.recoverability
            &&& r.path_evidence.len() == v.path_evidence.len() + 1
            &&& r.path_evidence.last().source == PathEvidenceSource::RecycleBin
            &&& r.path_evidence.last().path == r.original_path
        }),
{
}

/// A file is told of by the information record whose name differs from its own in the second
/// character alone, upper and lower case alike.
pub proof fn lemma_payload_has_the_name_of_its_record(rest: Seq<char>)
    requires
        rest.len() > 0,
    ensures
        payload_name("$I"@ + rest) == Some(ascii_lower("$R"@ + rest)),
        payload_name("$i"@ + rest) == Some(ascii_lower("$R"@ + rest)),
        payload_name("$R"@ + rest) is None,
{
    reveal_strlit("$I");
    reveal_strlit("$i");
    reveal_strlit("$R");
    reveal_strlit("$r");
    let upper = "$I"@ + rest;
    let lower = "$i"@ + rest;
    let other = "$R"@ + rest;
    assert("$I"@.is_prefix_of(upper));
    assert("$i"@.is_prefix_of(lower));
    assert(upper.subrange(2, upper.len() as int) =~= rest);
    assert(lower.subrange(2, lower.len() as int) =~= rest);
    assert(ascii_lower("$r"@ + rest) =~= ascii_lower("$R"@ + rest));
    assert(other[1] == 'R' && "$I"@[1] == 'I' && "$i"@[1] == 'i');
    assert(!"$I"@.is_prefix_of(other)) by {
        if "$I"@.is_prefix_of(other) {
            assert(other.subrange(0, 2)[1] == "$I"@[1]);
        }
    }
    assert(!"$i"@.is_prefix_of(other)) by {
        if "$i"@.is_prefix_of(other) {
            assert(other.subrange(0, 2)[1] == "$i"@[1]);
        }
    }
}

/// A file in the bin has, once the bin was read, the time of the last information record that
/// tells of it.
pub proof fn lemma_files_get_what_their_record_keeps(
    records: Seq<ArtifactView>,
    v: ArtifactView,
    info: RecycleView,
    k: int,
)
    requires
        0 <= k < records.len(),
        told_by(records[k]) == Some((ascii_lower(v.name), info)),
        forall|j: int|
            k < j < records.len() ==> match told_by(#[trigger] records[j]) {
                Some((name, other)) => name != ascii_lower(v.name),
                None => true,
            },
        told_by(v) is None,
    ensures
        ({
            let r = recycle_applied(v, told(records));
            &&& v.original_path is None ==> r.original_path == Some(info.original_path)
            &&& info.deleted_at is Some ==> r.deleted_at == info.deleted_at
        }),
{
    lemma_last_record_counts(records, ascii_lower(v.name), info, k);
}

proof fn lemma_last_record_counts(
    records: Seq<ArtifactView>,
    key: Seq<char>,
    info: RecycleView,
    k: int,
)
    requires
        0 <= k < records.len(),
        told_by(records[k]) == Some((key, info)),
        forall|j: int|
            k < j < records.len() ==> match told_by(#[trigger] records[j]) {
                Some((name, other)) => name != key,
                None => true,
            },
    ensures
        told(records).contains_key(key) && told(records)[key] == info,
    decreases records.len(),
{
    if k < records.len() - 1 {
        let front = records.drop_last();
        assert(front[k] == records[k]);
        assert forall|j: int| k < j < front.len() implies match told_by(#[trigger] front[j]) {
            Some((name, other)) => name != key,
            None => true,
        } by {
            assert(front[j] == records[j]);
        }
        lemma_last_record_counts(front, key, info, k);
        assert(records.last() == records[records.len() - 1]);
    }
}

} // verus!
