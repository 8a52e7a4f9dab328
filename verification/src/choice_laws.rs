//! Which name a deleted file gets, which files a scan keeps, and in what order it shows them.

use crate::browse_cache::plain_extension;
use crate::browse_paths::byte_length;
use crate::bytes::{laid_at, le_bytes, lemma_le16_reads_back, lemma_le32_reads_back};
use crate::clock::{filetime_text, rfc3339_text};
use crate::kind_laws::lemma_extensions_stand_for_kinds;
use crate::kinds::{extension_kind, inferred_kind};
use crate::model::{ArtifactKind, ArtifactRecord, ScanMode};
use crate::ntfs_names::{
    best_candidate, fallback_candidate, fits_kind, lemma_best_candidate, name_source_of,
    named_candidate, names_seen, CandidateView, FileNameAttribute, NameContext,
};
use crate::ntfs_paths::lemma_record_number_is_low_part;
use crate::ntfs_records::{
    assessed, default_extension, generated_confidence, kept_by_fast_scan, machine_name, pe_facts,
    preview_wanted, probe_length, record_class, worth_enriching,
};
use crate::ntfs_scan::{lemma_result_order, report_due, result_order};
use crate::records::ArtifactView;
use crate::sort::{lemma_stable_sorted_keeps_items, stable_sorted, text_before};
use crate::text::ascii_lower;
use crate::volume::{NtfsDataStream, VolumeBitmap};
use vstd::prelude::*;
use vstd::string::*;

verus! {

// ---------------------------------------------------------------------------
// Names.

/// A name of a deleted file comes with the folder, the name space and the times that stand beside
/// it, and lies at one place at most.
pub proof fn lemma_candidates_show_the_attribute(
    ctx: NameContext,
    cache: Map<u64, Seq<char>>,
    attribute: FileNameAttribute,
)
    ensures
        ({
            let c = named_candidate(ctx, cache, attribute);
            &&& c.name == attribute.name@
            &&& c.parent_reference == attribute.parent_reference % 0x1_0000_0000_0000
            &&& c.namespace == attribute.namespace
            &&& c.created_at == filetime_text(attribute.created)
            &&& c.modified_at == filetime_text(attribute.modified)
            &&& c.last_metadata_change_at == filetime_text(attribute.changed)
            &&& !(c.original_path is Some && c.probable_path is Some)
            &&& c.original_path is None && c.probable_path is None ==> c.path_evidence.len() == 0
                && c.placement_kind is UnknownParent && c.path_confidence is Unknown
            &&& c.original_path is Some ==> c.path_evidence.len() == 1 && c.path_evidence[0].path
                == c.original_path && c.path_evidence[0].confidence == c.path_confidence
            &&& c.probable_path is Some ==> c.path_evidence.len() == 1 && c.path_evidence[0].path
                == c.probable_path && c.path_evidence[0].confidence == c.path_confidence
        }),
{
    lemma_record_number_is_low_part(attribute.parent_reference);
}

/// Every name of a file with characters in it, other than that of a link, is a candidate.
pub proof fn lemma_every_name_is_a_candidate(
    ctx: NameContext,
    cache: Map<u64, Seq<char>>,
    attributes: Seq<FileNameAttribute>,
    k: int,
)
    requires
        0 <= k < attributes.len(),
        !attributes[k].reparse_point,
        attributes[k].name@.len() > 0,
    ensures
        exists|i: int|
            0 <= i < names_seen(ctx, cache, attributes).1.len() && (#[trigger] names_seen(
                ctx,
                cache,
                attributes,
            ).1[i]).name == attributes[k].name@,
    decreases attributes.len(),
{
    let front = attributes.drop_last();
    let (known, list) = names_seen(ctx, cache, front);
    let whole = names_seen(ctx, cache, attributes).1;
    if k < front.len() {
        lemma_every_name_is_a_candidate(ctx, cache, front, k);
        let i = choose|i: int|
            0 <= i < names_seen(ctx, cache, front).1.len() && (#[trigger] names_seen(
                ctx,
                cache,
                front,
            ).1[i]).name == front[k].name@;
        assert(whole[i].name == attributes[k].name@);
    } else {
        let c = named_candidate(ctx, known, attributes.last());
        if crate::ntfs_names::listed_before(list, c) {
            let i = choose|i: int|
                0 <= i < list.len() && crate::ntfs_names::same_name_and_paths(
                    #[trigger] list[i],
                    c,
                );
            assert(whole[i].name == attributes[k].name@);
        } else {
            assert(whole[list.len() as int].name == attributes[k].name@);
        }
    }
}

/// A file without a name of its own gets the name that it is given, at the place that it is given.
pub proof fn lemma_nameless_files_get_the_given_name(
    name: Seq<char>,
    original_path: Option<Seq<char>>,
)
    ensures
        ({
            let c = fallback_candidate(name, original_path);
            &&& c.name == name
            &&& c.original_path == original_path
            &&& c.probable_path is None
            &&& c.path_evidence.len() == 0
            &&& c.created_at is None && c.modified_at is None && c.last_metadata_change_at is None
            &&& original_path is Some <==> c.placement_kind is OriginalPath
            &&& original_path is None <==> c.placement_kind is UnknownParent
            &&& original_path is Some <==> c.path_confidence is Reconstructed
            &&& original_path is None <==> c.path_confidence is Unknown
        }),
{
}

/// A kind fits itself, and a program image fits the kinds of programs; nothing fits an unknown
/// kind.
pub proof fn lemma_kinds_fit_themselves(kind: ArtifactKind, seen: ArtifactKind)
    ensures
        seen is Unknown ==> !fits_kind(kind, seen),
        !(seen is Unknown) && kind == seen ==> fits_kind(kind, seen),
        seen is Pe && (kind is Exe || kind is Dll || kind is Sys || kind is Scr || kind is Ocx
            || kind is Cpl) ==> fits_kind(kind, seen),
        !(seen is Pe) && kind != seen ==> !fits_kind(kind, seen),
        seen is Pe && (kind is Msi || kind is Jar || kind is Zip || kind is Unknown || kind is Txt
            || kind is Bat) ==> !fits_kind(kind, seen),
{
}

/// No name fits the content better than the chosen one; of names that fit alike none tells more
/// of the kind; of names that tell alike none is better placed; of names placed alike none is of
/// a better name space; and of names of one name space none is longer.
pub proof fn lemma_best_name_is_chosen(list: Seq<CandidateView>, seen: ArtifactKind, i: int)
    requires
        0 <= i < list.len(),
    ensures
        0 <= best_candidate(list, seen) < list.len(),
        ({
            let b = list[best_candidate(list, seen)];
            let c = list[i];
            let kb = inferred_kind(b.name, None);
            let kc = inferred_kind(c.name, None);
            let dull_b = kb is Unknown || kb is Bin || kb is Dat;
            let dull_c = kc is Unknown || kc is Bin || kc is Dat;
            &&& fits_kind(kc, seen) ==> fits_kind(kb, seen)
            &&& fits_kind(kc, seen) == fits_kind(kb, seen) ==> {
                &&& dull_b ==> dull_c
                &&& dull_b && plain_extension(c.name) is Some ==> plain_extension(b.name) is Some
                &&& dull_b == dull_c && (dull_b ==> plain_extension(c.name) is Some
                    == plain_extension(b.name) is Some) ==> {
                    &&& c.original_path is Some ==> b.original_path is Some
                    &&& c.probable_path is Some ==> b.original_path is Some
                        || b.probable_path is Some
                    &&& c.original_path is Some == b.original_path is Some
                        && c.probable_path is Some == b.probable_path is Some ==> {
                        &&& c.namespace == 3 ==> b.namespace == 3
                        &&& c.namespace == 1 ==> b.namespace == 3 || b.namespace == 1
                        &&& c.namespace == 0 ==> b.namespace == 3 || b.namespace == 1
                            || b.namespace == 0
                        &&& c.namespace == b.namespace ==> byte_length(c.name) <= byte_length(
                            b.name,
                        )
                    }
                }
            }
        }),
{
    lemma_best_candidate(list, seen);
    assert(list[i] == list[i]);
}

/// A generated name is known for one; a name of the DOS name space, a name other than the one
/// that was given, and the given name itself are told apart.
pub proof fn lemma_names_tell_where_they_come_from(c: CandidateView, given: Seq<char>)
    ensures
        name_source_of(c, given) is Generated <==> "deleted_record_"@.is_prefix_of(c.name),
        !("deleted_record_"@.is_prefix_of(c.name)) ==> {
            &&& c.namespace == 2 <==> name_source_of(c, given) is DosName
            &&& c.namespace != 2 && c.name == given ==> name_source_of(c, given) is LongName
            &&& c.namespace != 2 && c.name != given ==> name_source_of(c, given) is Reconstructed
        },
{
}

// ---------------------------------------------------------------------------
// Records.

/// What a file can be recovered to is unknown without the free space; a file without a place is
/// lost; and a file is whole only where some of it lies on the volume and all of that is free.
pub proof fn lemma_recoverability_goes_by_free_space(
    bitmap: Option<VolumeBitmap>,
    runs: Seq<crate::model::ByteRun>,
)
    ensures
        assessed(bitmap, runs) is Unknown <==> bitmap is None,
        bitmap is Some ==> (assessed(bitmap, runs) is Poor <==> runs.len() == 0),
        assessed(bitmap, runs) is Good ==> exists|i: int|
            0 <= i < runs.len() && !(#[trigger] runs[i]).sparse,
        bitmap matches Some(b) ==> assessed(bitmap, runs) is Good ==> forall|i: int|
            0 <= i < runs.len() && !(#[trigger] runs[i]).sparse ==> crate::volume::range_covered(
                b.extents@,
                runs[i].offset,
                runs[i].length,
            ),
        bitmap matches Some(b) ==> assessed(bitmap, runs) is Partial && (exists|i: int|
            0 <= i < runs.len() && !(#[trigger] runs[i]).sparse) ==> exists|i: int|
            0 <= i < runs.len() && !(#[trigger] runs[i]).sparse && !crate::volume::range_covered(
                b.extents@,
                runs[i].offset,
                runs[i].length,
            ),
{
    if let Some(b) = bitmap {
        if assessed(bitmap, runs) is Good {
            assert forall|i: int| 0 <= i < runs.len() && !(#[trigger] runs[i]).sparse implies
                crate::volume::range_covered(b.extents@, runs[i].offset, runs[i].length) by {
                assert(!crate::ntfs_records::is_taken(b.extents@, runs[i]));
            }
            let i = choose|i: int|
                0 <= i < runs.len() && crate::ntfs_records::is_data(#[trigger] runs[i]);
            assert(!runs[i].sparse);
        }
        if assessed(bitmap, runs) is Partial && (exists|i: int|
            0 <= i < runs.len() && !(#[trigger] runs[i]).sparse) {
            let d = choose|i: int| 0 <= i < runs.len() && !(#[trigger] runs[i]).sparse;
            assert(crate::ntfs_records::is_data(runs[d]));
            let t = choose|i: int|
                0 <= i < runs.len() && crate::ntfs_records::is_taken(
                    b.extents@,
                    #[trigger] runs[i],
                );
            assert(!runs[t].sparse);
        }
    }
}

/// A fast scan keeps every deleted file with a record of its own; of the others it keeps what can
/// be recovered, what is of a telling family and what has a name and a size, and drops what has
/// neither a name, a place, a kind nor content.
pub proof fn lemma_fast_scans_keep_what_tells(v: ArtifactView)
    ensures
        v.deleted_entry && v.filesystem_record is Some ==> kept_by_fast_scan(v),
        v.recoverability is Good || v.recoverability is Partial ==> kept_by_fast_scan(v),
        v.original_path is Some && v.size > 0 ==> kept_by_fast_scan(v),
        v.original_path is Some && v.filesystem_record is Some ==> kept_by_fast_scan(v),
        v.original_path is Some && !(v.family is Binary) && !(v.family is Unknown)
            ==> kept_by_fast_scan(v),
        !(v.kind is Unknown) && !(v.kind is Bin) && !(v.kind is Dat) ==> kept_by_fast_scan(v),
        !v.deleted_entry && "deleted_record_"@.is_prefix_of(v.name) && v.original_path is None && (
        v.kind is Unknown || v.kind is Bin || v.kind is Dat) && (v.recoverability is Poor
            || v.recoverability is Unknown) ==> !kept_by_fast_scan(v),
        !v.deleted_entry && v.size == 0 && v.extension is None && v.original_path is None && (
        v.kind is Unknown || v.kind is Bin || v.kind is Dat) && (v.family is Binary
            || v.family is Unknown) && (v.recoverability is Poor || v.recoverability is Unknown)
            ==> !kept_by_fast_scan(v),
{
}

/// A record is looked at more closely where its place is not known, where it can be recovered,
/// and where its family tells something or its kind nothing.
pub proof fn lemma_closer_looks(v: ArtifactView)
    ensures
        worth_enriching(v) <==> v.original_path is None || (!(v.family is Binary) && !(
        v.family is Unknown)) || v.kind is Unknown || v.kind is Bin || v.kind is Dat
            || v.recoverability is Good || v.recoverability is Partial,
{
}

/// Nothing is read of a file without content. Of others a deep scan reads always; a fast one
/// where the content lies in the record, where the place or the kind is not known, and of
/// programs.
pub proof fn lemma_previews_are_read_where_they_tell(
    mode: ScanMode,
    v: ArtifactView,
    stream: Option<NtfsDataStream>,
)
    ensures
        stream is None || v.size == 0 ==> !preview_wanted(mode, v, stream),
        stream is Some && v.size > 0 && mode is Deep ==> preview_wanted(mode, v, stream),
        stream is Some && v.size > 0 && stream->0 is Resident ==> preview_wanted(mode, v, stream),
        stream is Some && v.size > 0 && (v.original_path is None || v.extension is None)
            ==> preview_wanted(mode, v, stream),
        stream is Some && v.size > 0 && (v.kind is Unknown || v.kind is Bin || v.kind is Dat)
            ==> preview_wanted(mode, v, stream),
        stream is Some && v.size > 0 && v.family is Executable ==> preview_wanted(mode, v, stream),
        stream is Some && v.size > 0 && !(v.family is Binary) && !(v.family is Unknown)
            && stream->0 is NonResident && 0 < stream->0->logical_size <= 256 * 1024
            ==> preview_wanted(mode, v, stream),
        mode is Fast && stream is Some && stream->0 is NonResident && stream->0->logical_size > 256
            * 1024 && v.original_path is Some && !(v.family is Executable) && !(v.kind is Unknown)
            && !(v.kind is Bin) && !(v.kind is Dat) && !("deleted_record_"@.is_prefix_of(v.name))
            && (v.extension matches Some(e) && ascii_lower(e) == "mp3"@) ==> !preview_wanted(
            mode,
            v,
            stream,
        ),
{
    reveal_strlit("mp3");
    reveal_strlit("bin");
    reveal_strlit("dat");
    reveal_strlit("dll");
    reveal_strlit("exe");
    reveal_strlit("sys");
    reveal_strlit("ocx");
    reveal_strlit("scr");
    reveal_strlit("cpl");
    reveal_strlit("mui");
    reveal_strlit("cat");
    assert("mp3"@[0] == 'm' && "mp3"@[1] == 'p');
    assert(ascii_lower("bin"@)[0] == 'b');
    assert(ascii_lower("dat"@)[0] == 'd');
    assert("dll"@[0] == 'd' && "exe"@[0] == 'e' && "sys"@[0] == 's' && "ocx"@[0] == 'o'
        && "scr"@[0] == 's' && "cpl"@[0] == 'c' && "mui"@[1] == 'u' && "cat"@[0] == 'c');
}

/// A deep scan reads sixteen times as much as a fast one of an unknown file, and never less; disk
/// images are read furthest.
pub proof fn lemma_deep_scans_read_more(kind: ArtifactKind)
    ensures
        probe_length(ScanMode::Fast, kind) < probe_length(ScanMode::Deep, kind),
        probe_length(ScanMode::Deep, kind) <= probe_length(ScanMode::Deep, ArtifactKind::Iso),
        probe_length(ScanMode::Deep, ArtifactKind::Iso) == 40 * 1024,
        !(kind is Iso) ==> probe_length(ScanMode::Deep, kind) == 32 * 1024,
        probe_length(ScanMode::Deep, ArtifactKind::Unknown) == 16 * probe_length(
            ScanMode::Fast,
            ArtifactKind::Unknown,
        ),
        kind is Exe || kind is Dll || kind is Zip || kind is Pdf || kind is Sqlite || kind is Iso
            ==> probe_length(ScanMode::Fast, kind) == 4 * 1024,
        kind is Txt || kind is Json || kind is Bat || kind is Log ==> probe_length(
            ScanMode::Fast,
            kind,
        ) == 8 * 1024,
        kind is Png || kind is Jpg || kind is Gif || kind is Bin || kind is Dat || kind is Unknown
            ==> probe_length(ScanMode::Fast, kind) == 2 * 1024,
{
}

/// Pieces are told from files, files that can be recovered from those that cannot, and among
/// those the ones of which something is known.
pub proof fn lemma_records_are_told_apart(v: ArtifactView)
    ensures
        record_class(v) is FragmentCandidate <==> v.is_fragment || v.origin_type is PartialFragment,
        record_class(v) is Recoverable <==> !(v.is_fragment || v.origin_type is PartialFragment)
            && (v.recoverability is Good || v.recoverability is Partial),
        !(v.is_fragment || v.origin_type is PartialFragment) && (v.recoverability is Poor
            || v.recoverability is Unknown) ==> {
            &&& v.preview_ready ==> record_class(v) is ValidatedHit
            &&& !v.preview_ready && (v.kind is Unknown || v.kind is Bin || v.kind is Dat)
                ==> record_class(v) is NamedMetadataCandidate
            &&& !(v.kind is Unknown || v.kind is Bin || v.kind is Dat) ==> record_class(
                v,
            ) is ValidatedHit
        },
{
}

/// A made-up name makes a file less sure, and one without a place the least; any other name
/// leaves it as sure as it was.
pub proof fn lemma_made_up_names_are_less_sure(v: ArtifactView)
    ensures
        !(v.name_source is Generated) ==> generated_confidence(v) == v.confidence,
        v.name_source is Generated && v.original_path is Some ==> generated_confidence(v) is Medium,
        v.name_source is Generated && v.original_path is None ==> generated_confidence(v) is Low,
{
}

/// The extension that a file of a kind is given stands for that kind; a program image is given
/// that of a program.
pub proof fn lemma_given_extension_stands_for_the_kind(kind: ArtifactKind)
    ensures
        default_extension(kind) is Some && !(kind is Pe) && !(kind is Sqlite) ==> extension_kind(
            default_extension(kind)->0,
        ) == Some(kind),
        kind is Sqlite ==> extension_kind(default_extension(kind)->0) == Some(kind),
        kind is Pe ==> default_extension(kind) == default_extension(ArtifactKind::Exe),
        kind is Unknown || kind is Bin || kind is Dat || kind is OleCompound ==> default_extension(
            kind,
        ) is None,
        kind is Exe || kind is Dll || kind is Zip || kind is Pdf || kind is Png || kind is Jpg
            || kind is Txt || kind is Json ==> default_extension(kind) is Some,
{
    lemma_extensions_stand_for_kinds();
}

/// A program tells the machine that it was made for, when it was made and how many sections it
/// has, where its header says so.
pub proof fn lemma_programs_tell_of_themselves(
    s: Seq<u8>,
    at: int,
    machine: int,
    sections: int,
    made: int,
)
    requires
        0x40 <= s.len(),
        0 <= at < 0x1_0000_0000,
        at + 24 <= s.len(),
        0 <= machine < 0x1_0000,
        0 <= sections < 0x1_0000,
        0 <= made < 0x1_0000_0000,
        laid_at(s, 0x3c, le_bytes(at, 4)),
        laid_at(s, at, seq![0x50u8, 0x45u8, 0u8, 0u8]),
        laid_at(s, at + 4, le_bytes(machine, 2)),
        laid_at(s, at + 6, le_bytes(sections, 2)),
        laid_at(s, at + 8, le_bytes(made, 4)),
    ensures
        pe_facts(s) is Some <==> rfc3339_text((made * 1_000_000_000) as i128) is Some,
        pe_facts(s) matches Some(f) ==> f.0 == machine_name(machine) && Some(f.1) == rfc3339_text(
            (made * 1_000_000_000) as i128,
        ) && f.2 == sections,
        machine_name(0x014c) == "x86"@,
        machine_name(0x8664) == "x64"@,
        machine_name(0x01c4) == "ARM"@,
        machine_name(0xaa64) == "ARM64"@,
        machine != 0x014c && machine != 0x8664 && machine != 0x01c4 && machine != 0xaa64
            ==> machine_name(machine) == "unknown"@,
{
    lemma_le32_reads_back(s, 0x3c, at);
    lemma_le16_reads_back(s, at + 4, machine);
    lemma_le16_reads_back(s, at + 6, sections);
    lemma_le32_reads_back(s, at + 8, made);
    let mark = seq![0x50u8, 0x45u8, 0u8, 0u8];
    assert forall|k: int| 0 <= k < 4 implies s.subrange(at, at + 4)[k] == mark[k] by {
        assert(s[at + k] == mark[k]);
    }
    assert(s.subrange(at, at + 4) =~= mark);
}

// ---------------------------------------------------------------------------
// Results.

/// Results come by score, the higher first; then the surer ones, then those of a surer place,
/// then those of a better name; then those whose times are known, those of which more can be had,
/// and last by name.
pub proof fn lemma_results_come_in_order(
    results: Seq<ArtifactRecord>,
    r: Seq<ArtifactRecord>,
    i: int,
    j: int,
)
    requires
        stable_sorted(results, r, result_order()),
        0 <= i < j < r.len(),
    ensures
        r.len() == results.len(),
        r[i].priority_score >= r[j].priority_score,
        r[i].priority_score == r[j].priority_score ==> {
            &&& r[j].confidence is High ==> r[i].confidence is High
            &&& r[i].confidence is Low ==> r[j].confidence is Low
            &&& r[i].confidence == r[j].confidence ==> {
                &&& r[j].path_confidence is Exact ==> r[i].path_confidence is Exact
                &&& r[i].path_confidence is Partial ==> r[j].path_confidence is Partial
                    || r[j].path_confidence is Unknown
                &&& r[i].path_confidence is Unknown ==> r[j].path_confidence is Unknown
                &&& r[i].path_confidence == r[j].path_confidence ==> {
                    &&& r[j].name_source is LongName ==> r[i].name_source is LongName
                    &&& r[i].name_source is DosName ==> r[j].name_source is DosName
                        || r[j].name_source is Generated
                    &&& r[i].name_source is Generated ==> r[j].name_source is Generated
                    &&& r[i].name_source == r[j].name_source ==> {
                        &&& r[j].created_at is Some ==> r[i].created_at is Some
                        &&& r[i].created_at is Some == r[j].created_at is Some ==> {
                            &&& r[j].modified_at is Some ==> r[i].modified_at is Some
                            &&& r[i].modified_at is Some == r[j].modified_at is Some ==> {
                                &&& r[j].recoverability is Good ==> r[i].recoverability is Good
                                &&& r[i].recoverability is Poor ==> r[j].recoverability is Poor
                                    || r[j].recoverability is Unknown
                                &&& r[i].recoverability is Unknown
                                    ==> r[j].recoverability is Unknown
                                &&& r[i].recoverability == r[j].recoverability ==> !text_before(
                                    r[j].name@,
                                    r[i].name@,
                                )
                            }
                        }
                    }
                }
            }
        },
{
    lemma_result_order();
    lemma_stable_sorted_keeps_items(results, r, result_order());
    assert(!result_order()(r[j], r[i]));
}

/// A report comes when enough was found or enough time went by, at round numbers of records and
/// at the last one; a deep scan reports more often than a fast one.
pub proof fn lemma_reports_come_in_time(
    record_number: u64,
    max_record: u64,
    result_count: usize,
    reported: usize,
)
    requires
        record_number < max_record,
        reported <= result_count,
    ensures
        forall|mode: ScanMode| #[trigger]
            report_due(mode, record_number, max_record, result_count, reported, true),
        forall|mode: ScanMode, e: bool|
            record_number + 1 == max_record ==> #[trigger] report_due(
                mode,
                record_number,
                max_record,
                result_count,
                reported,
                e,
            ),
        report_due(ScanMode::Fast, record_number, max_record, result_count, reported, false) <==> (
        result_count - reported >= 16384 || (record_number + 1) % 262144 == 0 || record_number + 1
            == max_record),
        report_due(ScanMode::Deep, record_number, max_record, result_count, reported, false) <==> (
        result_count - reported >= 256 || (record_number + 1) % 16384 == 0 || record_number + 1
            == max_record),
{
}

/// What was read of a file makes it ready to be shown; a deep scan notes what it says, a fast one
/// leaves what was known.
pub proof fn lemma_read_files_are_ready(
    v: ArtifactView,
    mode: ScanMode,
    bytes: Seq<u8>,
    captured_at: Seq<char>,
)
    ensures
        ({
            let r = crate::ntfs_inspect::shown_view(v, mode, bytes, captured_at);
            &&& r.preview_ready <==> bytes.len() > 0
            &&& mode is Deep && bytes.len() > 0 ==> r.preview == crate::ntfs_records::facts_of(
                bytes,
                captured_at,
            )
            &&& mode is Fast || bytes.len() == 0 ==> r.preview == v.preview
            &&& r.kind == v.kind && r.name == v.name && r.size == v.size
        }),
{
}

/// What was read tells the kind of a file. Where it tells none, a known kind stays; a deep scan
/// is less sure then of a file whose kind has a header.
pub proof fn lemma_content_tells_the_kind(v: ArtifactView, mode: ScanMode, bytes: Seq<u8>)
    ensures
        ({
            let r = crate::ntfs_inspect::kind_checked_view(v, mode, bytes);
            let seen = crate::ntfs_inspect::previewed_kind(v.name, bytes);
            let with_header = v.family is Executable || v.family is Archive || v.family is Database
                || v.family is Container;
            &&& bytes.len() == 0 && !(v.kind is Unknown) ==> r == v
            &&& bytes.len() > 0 && !(seen is Unknown) ==> r.kind == seen && r.confidence
                == v.confidence && r.notes == v.notes
            &&& bytes.len() > 0 && seen is Unknown && !(v.kind is Unknown) ==> {
                &&& r.kind == v.kind && r.notes.len() > v.notes.len()
                &&& mode is Deep && with_header && v.confidence is High ==> r.confidence is Medium
                &&& mode is Fast || !with_header || !(v.confidence is High) ==> r.confidence
                    == v.confidence
            }
        }),
{
}

/// A new record knows its name and what the name tells, and nothing else.
pub proof fn lemma_new_records_know_their_name(
    id: Seq<char>,
    scan_id: Seq<char>,
    source_id: Seq<char>,
    name: Seq<char>,
)
    ensures
        ({
            let r = crate::records::fresh_view(id, scan_id, source_id, name);
            &&& r.id == id && r.scan_id == scan_id && r.source_id == source_id && r.name == name
            &&& r.kind == inferred_kind(name, None)
            &&& r.name_source is Generated <==> "deleted_record_"@.is_prefix_of(name)
            &&& r.name_source is LongName <==> !("deleted_record_"@.is_prefix_of(name))
            &&& r.original_path is None && r.probable_path is None && r.size == 0
            &&& r.deleted_entry && !r.is_fragment && !r.preview_ready
            &&& r.confidence is Medium && r.recoverability is Unknown
            &&& r.created_at is None && r.modified_at is None && r.deleted_at is None
            &&& r.recovery_plan is Unrecoverable
            &&& r.filesystem_record is None && r.parent_reference is None && r.raw_offset is None
        }),
{
}

} // verus!
