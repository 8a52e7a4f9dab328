//! What previews show of a content, told of its bytes.

use crate::codec::{base64_bytes, json_text_at};
use crate::model::{ArtifactSignatureStatus, ByteRun, RecoveryPlan, SourceEntry};
use crate::numbers::{hex_digit, hexadecimal, zero_padded};
use crate::pages::{page_end, page_size, page_start};
use crate::preview_reads::{artifact_range, data_run, data_runs, entry_facts, stored_range};
use crate::preview_text::{byte_digits, hex_row, hex_rows};
use crate::signature::{char_bytes, printed, status_named, wide_bytes};
use crate::text::joined;
use crate::volume::{
    assembled, data_window, resident_range, run_length, window_end, window_pieces, DataRun,
    WindowPiece,
};
use vstd::prelude::*;
use vstd::string::*;

verus! {

// ---------------------------------------------------------------------------
// Windows of a file.

/// The byte at a place of a file whose runs go on from the `i`-th: that of the device where the run
/// lies, zero in a hole.
pub open spec fn byte_of_file(
    device: spec_fn(int) -> u8,
    runs: Seq<DataRun>,
    i: int,
    at: int,
) -> u8
    decreases runs.len() - i,
{
    if i < 0 || i >= runs.len() {
        0
    } else {
        match runs[i] {
            DataRun::Data { lcn, length } => if at < length {
                device(lcn + at)
            } else {
                byte_of_file(device, runs, i + 1, at - length)
            },
            DataRun::Sparse { length } => if at < length {
                0
            } else {
                byte_of_file(device, runs, i + 1, at - length)
            },
        }
    }
}

/// The bytes of a piece.
pub open spec fn bytes_of_piece(device: spec_fn(int) -> u8, piece: WindowPiece) -> Seq<u8> {
    match piece {
        WindowPiece::Read { offset, length } => Seq::new(length as nat, |j: int| device(offset + j)),
        WindowPiece::Zeros { length } => Seq::new(length as nat, |j: int| 0u8),
    }
}

/// The bytes of pieces, one behind the other.
pub open spec fn bytes_of_pieces(device: spec_fn(int) -> u8, pieces: Seq<WindowPiece>) -> Seq<u8>
    decreases pieces.len(),
{
    if pieces.len() == 0 {
        seq![]
    } else {
        bytes_of_piece(device, pieces[0]) + bytes_of_pieces(device, pieces.drop_first())
    }
}

/// The runs end on the volume.
pub open spec fn runs_fit(runs: Seq<DataRun>) -> bool {
    forall|i: int|
        0 <= i < runs.len() ==> match #[trigger] runs[i] {
            DataRun::Data { lcn, length } => lcn + length <= u64::MAX,
            DataRun::Sparse { length } => true,
        }
}

/// The bytes that the runs hold from the `i`-th on.
pub open spec fn bytes_from(runs: Seq<DataRun>, i: int) -> int
    decreases runs.len() - i,
{
    if i < 0 || i >= runs.len() {
        0
    } else {
        (match runs[i] {
            DataRun::Data { lcn, length } => length,
            DataRun::Sparse { length } => length,
        }) + bytes_from(runs, i + 1)
    }
}

proof fn lemma_bytes_from_is_positive(runs: Seq<DataRun>, i: int)
    ensures
        bytes_from(runs, i) >= 0,
    decreases runs.len() - i,
{
    if 0 <= i < runs.len() {
        lemma_bytes_from_is_positive(runs, i + 1);
    }
}

proof fn lemma_window_bytes(
    device: spec_fn(int) -> u8,
    runs: Seq<DataRun>,
    i: int,
    cursor: u64,
    offset: u64,
    end: u64,
)
    requires
        0 <= i <= runs.len(),
        runs_fit(runs),
        cursor + bytes_from(runs, i) <= u64::MAX,
        offset < end,
    ensures
        ({
            let bytes = bytes_of_pieces(device, window_pieces(runs, i, cursor, offset, end));
            let last = if cursor + bytes_from(runs, i) < end {
                cursor + bytes_from(runs, i)
            } else {
                end as int
            };
            let first = if cursor > offset {
                cursor as int
            } else {
                offset as int
            };
            &&& bytes.len() == if last > first {
                last - first
            } else {
                0
            }
            &&& forall|q: int|
                0 <= q < bytes.len() ==> #[trigger] bytes[q] == byte_of_file(
                    device,
                    runs,
                    i,
                    first - cursor + q,
                )
        }),
    decreases runs.len() - i,
{
    lemma_bytes_from_is_positive(runs, i);
    if i < runs.len() {
        lemma_bytes_from_is_positive(runs, i + 1);
        let length = run_length(runs[i]);
        let run_end = (cursor + length) as u64;
        lemma_window_bytes(device, runs, i + 1, run_end, offset, end);
        let rest = window_pieces(runs, i + 1, run_end, offset, end);
        let more = bytes_of_pieces(device, rest);
        let pieces = window_pieces(runs, i, cursor, offset, end);
        let bytes = bytes_of_pieces(device, pieces);
        let first = if cursor > offset {
            cursor as int
        } else {
            offset as int
        };
        if run_end <= offset {
            assert forall|q: int| 0 <= q < bytes.len() implies #[trigger] bytes[q] == byte_of_file(
                device,
                runs,
                i,
                first - cursor + q,
            ) by {
                assert(more[q] == byte_of_file(device, runs, i + 1, offset - run_end + q));
            }
        } else if cursor >= end {
        } else {
            let skip = first - cursor;
            let stop = if end - cursor < length {
                end - cursor
            } else {
                length as int
            };
            if stop <= skip {
                assert(length == 0 && pieces == rest);
                assert forall|q: int| 0 <= q < bytes.len() implies #[trigger] bytes[q]
                    == byte_of_file(device, runs, i, first - cursor + q) by {
                    assert(more[q] == byte_of_file(device, runs, i + 1, q));
                }
            } else {
                let piece = pieces[0];
                assert(pieces.drop_first() =~= rest);
                let head = bytes_of_piece(device, piece);
                assert(head.len() == stop - skip);
                assert(bytes == head + more);
                assert forall|q: int| 0 <= q < bytes.len() implies #[trigger] bytes[q] == byte_of_file(
                    device,
                    runs,
                    i,
                    first - cursor + q,
                ) by {
                    if q < head.len() {
                        assert(bytes[q] == head[q]);
                    } else {
                        assert(stop == length);
                        assert(bytes[q] == more[q - head.len()]);
                    }
                }
            }
        }
    }
}

/// A window of a file holds the bytes of the file from its offset on, as many as were asked for and
/// as the file and its runs have: those of a run from where it lies, zeros for a hole.
pub proof fn lemma_window_shows_the_file(
    device: spec_fn(int) -> u8,
    runs: Seq<DataRun>,
    size: u64,
    offset: u64,
    length: u64,
)
    requires
        runs_fit(runs),
        size <= bytes_from(runs, 0) <= u64::MAX,
        offset + length <= u64::MAX,
    ensures
        ({
            let bytes = bytes_of_pieces(device, data_window(runs, size, offset, length));
            &&& offset >= size ==> bytes.len() == 0
            &&& offset + length <= size ==> bytes.len() == length
            &&& offset <= size < offset + length ==> bytes.len() == size - offset
            &&& forall|q: int|
                0 <= q < bytes.len() ==> #[trigger] bytes[q] == byte_of_file(
                    device,
                    runs,
                    0,
                    offset + q,
                )
        }),
{
    let end = window_end(size, offset, length);
    if end > offset {
        lemma_window_bytes(device, runs, 0, 0, offset, end);
    }
}

/// The reads from `k` on give what the device holds at the pieces from `i` on.
pub open spec fn reads_give(
    device: spec_fn(int) -> u8,
    pieces: Seq<WindowPiece>,
    reads: Seq<Option<Seq<u8>>>,
    i: int,
    k: int,
) -> bool
    decreases pieces.len() - i,
{
    if i < 0 || i >= pieces.len() {
        true
    } else {
        match pieces[i] {
            WindowPiece::Zeros { length } => reads_give(device, pieces, reads, i + 1, k),
            WindowPiece::Read { offset, length } => 0 <= k < reads.len() && reads[k] == Some(
                bytes_of_piece(device, pieces[i]),
            ) && reads_give(device, pieces, reads, i + 1, k + 1),
        }
    }
}

/// Reads that all came give the window, piece by piece.
pub proof fn lemma_reads_make_the_window(
    device: spec_fn(int) -> u8,
    pieces: Seq<WindowPiece>,
    reads: Seq<Option<Seq<u8>>>,
    i: int,
    k: int,
    out: Seq<u8>,
)
    requires
        0 <= i <= pieces.len(),
        reads_give(device, pieces, reads, i, k),
    ensures
        assembled(pieces, i, reads, k, out) == Some(
            out + bytes_of_pieces(device, pieces.subrange(i, pieces.len() as int)),
        ),
    decreases pieces.len() - i,
{
    let left = pieces.subrange(i, pieces.len() as int);
    if i == pieces.len() {
        assert(left =~= seq![]);
        assert(out + seq![] =~= out);
    } else {
        assert(left.drop_first() =~= pieces.subrange(i + 1, pieces.len() as int));
        let head = bytes_of_piece(device, pieces[i]);
        let next = match pieces[i] {
            WindowPiece::Zeros { length } => k,
            WindowPiece::Read { offset, length } => k + 1,
        };
        lemma_reads_make_the_window(device, pieces, reads, i + 1, next, out + head);
        let more = bytes_of_pieces(device, left.drop_first());
        assert(out + head + more =~= out + (head + more));
    }
}

/// A run of a plan is read where the plan says it lies.
pub proof fn lemma_plans_are_read_where_they_say(run: ByteRun)
    ensures
        run.sparse ==> data_run(run) == (DataRun::Sparse { length: run.length }),
        !run.sparse ==> data_run(run) == (DataRun::Data { lcn: run.offset, length: run.length }),
{
}

/// A range of resident content is that part of it.
pub proof fn lemma_resident_ranges_are_parts(bytes: Seq<u8>, offset: u64, length: u64)
    requires
        bytes.len() <= u64::MAX,
    ensures
        offset + length <= bytes.len() ==> resident_range(bytes, offset, length) == bytes.subrange(
            offset as int,
            offset + length,
        ) && stored_range(bytes, bytes.len() as u64, offset, length) == bytes.subrange(
            offset as int,
            offset + length,
        ),
        offset <= bytes.len() < offset + length ==> resident_range(bytes, offset, length)
            == bytes.subrange(offset as int, bytes.len() as int) && stored_range(
            bytes,
            bytes.len() as u64,
            offset,
            length,
        ) == bytes.subrange(offset as int, bytes.len() as int),
        offset > bytes.len() ==> resident_range(bytes, offset, length).len() == 0 && stored_range(
            bytes,
            bytes.len() as u64,
            offset,
            length,
        ).len() == 0,
{
}

/// A range of a recovery plan with runs is that window of its file; one of resident content is
/// that part of it; without a plan the reason is told.
pub proof fn lemma_ranges_follow_the_plan(
    plan: RecoveryPlan,
    offset: u64,
    length: u64,
    reads: Seq<Option<Seq<u8>>>,
    device: spec_fn(int) -> u8,
)
    requires
        length > 0,
    ensures
        plan matches RecoveryPlan::RawRuns { source_path, runs, logical_size } ==> {
            let pieces = data_window(data_runs(runs@), logical_size, offset, length);
            reads_give(device, pieces, reads, 0, 0) ==> artifact_range(plan, offset, length, reads)
                == Ok::<Seq<u8>, Seq<char>>(bytes_of_pieces(device, pieces))
        },
        plan matches RecoveryPlan::ResidentBase64 { base64, logical_size } ==> (base64_bytes(
            base64@,
        ) matches Some(bytes) ==> artifact_range(plan, offset, length, reads) == Ok::<
            Seq<u8>,
            Seq<char>,
        >(stored_range(bytes, logical_size, offset, length))),
        plan matches RecoveryPlan::Unrecoverable { reason } ==> artifact_range(
            plan,
            offset,
            length,
            reads,
        ) == Err::<Seq<u8>, Seq<char>>(reason@),
{
    if let RecoveryPlan::RawRuns { source_path, runs, logical_size } = plan {
        let pieces = data_window(data_runs(runs@), logical_size, offset, length);
        if reads_give(device, pieces, reads, 0, 0) {
            lemma_reads_make_the_window(device, pieces, reads, 0, 0, seq![]);
            assert(pieces.subrange(0, pieces.len() as int) =~= pieces);
            assert(seq![] + bytes_of_pieces(device, pieces) =~= bytes_of_pieces(device, pieces));
        }
    }
}

// ---------------------------------------------------------------------------
// Rows of bytes.

/// A byte is shown as its two hexadecimal digits, the higher one first.
pub proof fn lemma_bytes_have_two_digits(b: u8)
    ensures
        byte_digits(b) == seq![hex_digit((b / 16) as int, true), hex_digit((b % 16) as int, true)],
{
    reveal_with_fuel(hexadecimal, 2);
    assert(zero_padded(hexadecimal(b as nat, true), 2) =~= seq![
        hex_digit((b / 16) as int, true),
        hex_digit((b % 16) as int, true),
    ]);
}

proof fn lemma_row_text(chunk: Seq<u8>, j: int)
    requires
        0 <= j < chunk.len(),
    ensures
        ({
            let hex = joined(chunk.map_values(|b: u8| byte_digits(b)), " "@);
            &&& hex.len() == 3 * chunk.len() - 1
            &&& hex[3 * j] == hex_digit((chunk[j] / 16) as int, true)
            &&& hex[3 * j + 1] == hex_digit((chunk[j] % 16) as int, true)
            &&& j + 1 < chunk.len() ==> hex[3 * j + 2] == ' '
        }),
    decreases chunk.len(),
{
    reveal_strlit(" ");
    let parts = chunk.map_values(|b: u8| byte_digits(b));
    lemma_bytes_have_two_digits(chunk[j]);
    lemma_bytes_have_two_digits(chunk.last());
    if chunk.len() > 1 {
        let front = chunk.drop_last();
        assert(parts.drop_last() =~= front.map_values(|b: u8| byte_digits(b)));
        let before = joined(parts.drop_last(), " "@);
        if j < front.len() {
            lemma_row_text(front, j);
            assert(front[j] == chunk[j]);
        } else {
            lemma_row_text(front, 0);
        }
        assert(parts.last() == byte_digits(chunk.last()));
    } else {
        assert(parts[0] == byte_digits(chunk[0]));
    }
}

/// The rows of bytes show every byte in its place: sixteen to a row, under the offset of the first,
/// as two digits and, where it can be shown, as a character.
pub proof fn lemma_rows_show_the_bytes(base: u64, bytes: Seq<u8>, p: int)
    requires
        0 <= p < bytes.len(),
        base + bytes.len() <= u64::MAX,
    ensures
        ({
            let rows = hex_rows(base, bytes);
            let row = rows[p / 16];
            let j = p % 16;
            &&& rows.len() * 16 >= bytes.len() > (rows.len() - 1) * 16
            &&& row.offset == base + p - j
            &&& row.hex[3 * j] == hex_digit((bytes[p] / 16) as int, true)
            &&& row.hex[3 * j + 1] == hex_digit((bytes[p] % 16) as int, true)
            &&& 0x20 <= bytes[p] <= 0x7e ==> row.ascii[j] == bytes[p] as char
            &&& bytes[p] < 0x20 || bytes[p] > 0x7e ==> row.ascii[j] == '.'
        }),
{
    let i = p / 16;
    let j = p % 16;
    let last = if 16 * (i + 1) <= bytes.len() {
        16 * (i + 1)
    } else {
        bytes.len() as int
    };
    let chunk = bytes.subrange(16 * i, last);
    assert(chunk[j] == bytes[p]);
    lemma_row_text(chunk, j);
    assert(hex_rows(base, bytes)[i] == hex_row((base + 16 * i) as u64, chunk));
}

/// The digits below ten are the numerals, those above are letters.
pub proof fn lemma_hex_digits(d: int)
    requires
        0 <= d < 16,
    ensures
        d < 10 ==> hex_digit(d, true) as int == '0' as int + d && hex_digit(d, false) as int == '0'
            as int + d,
        d >= 10 ==> hex_digit(d, true) as int == 'A' as int + (d - 10) && hex_digit(d, false) as int
            == 'a' as int + (d - 10),
{
}

// ---------------------------------------------------------------------------
// Pages.

/// A page holds 256 entries where nothing else is asked for, one at least and 1024 at most; it is
/// full unless the list ends on it.
pub proof fn lemma_pages_are_as_large_as_asked(limit: Option<usize>, total: int, offset: int)
    requires
        0 <= offset,
        0 <= total,
    ensures
        limit is None ==> page_size(limit) == 256,
        limit matches Some(n) ==> (1 <= n <= 1024 ==> page_size(limit) == n) && (n == 0
            ==> page_size(limit) == 1) && (n > 1024 ==> page_size(limit) == 1024),
        ({
            let n = page_size(limit) as int;
            let (start, end) = (page_start(total, offset), page_end(total, offset, n));
            &&& 0 <= start <= end <= total
            &&& offset <= total ==> start == offset
            &&& end - start == n || end == total && end - start < n
        }),
{
}

// ---------------------------------------------------------------------------
// Signatures.

/// What the verification answers is what is shown: a valid signature as valid, a missing one as
/// unsigned, one that does not fit as invalid.
pub proof fn lemma_answers_keep_their_meaning()
    ensures
        status_named("Valid"@) == ArtifactSignatureStatus::Valid,
        status_named("NotSigned"@) == ArtifactSignatureStatus::Unsigned,
        status_named("HashMismatch"@) == ArtifactSignatureStatus::Invalid,
        status_named("NotTrusted"@) == ArtifactSignatureStatus::Invalid,
        status_named("UnknownError"@) == ArtifactSignatureStatus::Invalid,
        status_named("NotSupportedFileFormat"@) == ArtifactSignatureStatus::NotApplicable,
        status_named("Incompatible"@) == ArtifactSignatureStatus::Indeterminate,
{
    reveal_strlit("Valid");
    reveal_strlit("NotSigned");
    reveal_strlit("HashMismatch");
    reveal_strlit("NotTrusted");
    reveal_strlit("UnknownError");
    reveal_strlit("NotSupportedFileFormat");
    reveal_strlit("Incompatible");
    assert("Valid"@.len() == 5 && "NotSigned"@.len() == 9 && "HashMismatch"@.len() == 12
        && "NotTrusted"@.len() == 10 && "UnknownError"@.len() == 12
        && "NotSupportedFileFormat"@.len() == 22);
    assert("Incompatible"@[0] == 'I' && "HashMismatch"@[0] == 'H' && "UnknownError"@[0] == 'U');
}

/// A reply is shown under the names of its parts.
pub proof fn lemma_replies_are_shown(stdout: Seq<u8>, stderr: Seq<u8>)
    ensures
        printed(true, stdout, stderr) matches Ok(v) ==> json_text_at(stdout, "Subject"@) == Some(
            v.subject,
        ) && json_text_at(stdout, "Issuer"@) == Some(v.issuer) && json_text_at(
            stdout,
            "Timestamp"@,
        ) == Some(v.timestamp) && (json_text_at(stdout, "Status"@) matches Some(Some(status))
            ==> v.status == status_named(status)),
        printed(false, stdout, stderr) matches Ok(v) && v.status
            == ArtifactSignatureStatus::Indeterminate && v.subject is None,
{
}

/// A script goes out in UTF-16, each unit with its low byte first.
pub proof fn lemma_scripts_are_wide(s: Seq<char>, c: char)
    ensures
        wide_bytes(s.push(c)) == wide_bytes(s) + char_bytes(c),
        (c as u32) < 0x1_0000 ==> char_bytes(c) =~= seq![
            (c as u32 % 256) as u8,
            (c as u32 / 256) as u8,
        ],
        wide_bytes(seq![]).len() == 0,
{
    assert(s.push(c).drop_last() =~= s);
}

// ---------------------------------------------------------------------------
// Facts.

/// The facts of a file name its path, its type and its size.
pub proof fn lemma_facts_tell_the_entry(entry: SourceEntry)
    ensures
        ({
            let facts = entry_facts(entry);
            &&& facts.len() == 3 || facts.len() == 4
            &&& facts[0].label == "Path"@ && facts[0].value == entry.path@
            &&& facts[1].label == "Type"@ && (entry.is_directory ==> facts[1].value == "directory"@)
            &&& facts[2].label == "Size"@ && facts[2].value == crate::numbers::decimal(
                entry.size as nat,
            )
        }),
{
}

} // verus!
