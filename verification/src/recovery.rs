//! Recovery: how the content of an artifact is put together and what is said of it afterwards.

use crate::bytes::{push_zeros, slice_to_vec, zero_bytes};
use crate::codec::{
    base64_bytes, decode_base64, is_forbidden, is_safe_file_name, kept_chars,
    lemma_allowed_names_are_kept, lemma_safe_rest_is_the_name, lemma_sanitized_name_is_a_front,
    sanitize_name, sanitized, sha256_text,
};
use crate::digests::{
    blake3_fed, blake3_finish, blake3_start, blake3_text, blake3_update, sha256_fed, sha256_finish,
    sha256_start, sha256_update, Sha256Feed,
};
use crate::model::{
    message_of, ArtifactRecord, ByteRun, RecoveryItemResult, RecoveryPlan, RecoveryRequest,
    RecoveryStatus, RecoverySummary, RssError,
};
use crate::numbers::{decimal, decimal_string};
use crate::text::{concat2, concat3, opt_view, owned, replace_char, replaced, views};
use vstd::prelude::*;
use vstd::string::*;
use vstd::utf8::encode_utf8;

verus! {

/// How many bytes are copied at once.
pub const COPY_CHUNK: u64 = 1048576;

// ---------------------------------------------------------------------------
// Names of output files.

/// Names that are tried for an output file before the time is put in its name.
pub const NAME_TRIES: u32 = 1000;

/// The name under which a content is written first: the artifact's own name, without what the
/// system does not take in a name. The system's path rules then split it into stem and extension
/// for the names that follow.
pub fn output_name(name: &str) -> (r: String)
    ensures
        r@ == sanitized(name@, true) || r@ == sanitized(name@, false),
        r@.is_prefix_of(kept_chars(name@)),
        forall|i: int|
            0 <= i < r@.len() ==> name@.contains(#[trigger] r@[i]) && !is_forbidden(r@[i]),
        r@.len() <= name@.len(),
        encode_utf8(r@).len() <= 255,
        is_safe_file_name(kept_chars(name@)) ==> r@ == kept_chars(name@),
        is_safe_file_name(name@) ==> r@ == name@,
{
    proof {
        lemma_sanitized_name_is_a_front(name@, true);
        lemma_sanitized_name_is_a_front(name@, false);
        if is_safe_file_name(name@) {
            lemma_allowed_names_are_kept(name@);
        }
        if is_safe_file_name(kept_chars(name@)) {
            lemma_safe_rest_is_the_name(name@, true);
            lemma_safe_rest_is_the_name(name@, false);
        }
    }
    sanitize_name(name)
}

/// The stem of a name; one that has none is called `recovered`.
pub open spec fn stem_text(stem: Option<&str>) -> Seq<char> {
    match stem {
        Some(s) => s@,
        None => "recovered"@,
    }
}

/// The name that is tried next, where the first one is taken.
pub open spec fn numbered_name(stem: Seq<char>, extension: Option<&str>, index: u32) -> Seq<char> {
    let numbered = stem + "_"@ + decimal(index as nat);
    match extension {
        Some(e) => if e@.len() == 0 {
            numbered
        } else {
            numbered + "."@ + e@
        },
        None => numbered,
    }
}

/// The name that is tried next, where the first one is taken.
pub fn output_candidate(stem: Option<&str>, extension: Option<&str>, index: u32) -> (r: String)
    ensures
        r@ == numbered_name(stem_text(stem), extension, index),
{
    let stem: &str = match stem {
        Some(s) => s,
        None => "recovered",
    };
    let number = decimal_string(index as u64);
    let numbered = concat3(stem, "_", number.as_str());
    match extension {
        Some(e) => if e.is_empty() {
            numbered
        } else {
            concat3(numbered.as_str(), ".", e)
        },
        None => numbered,
    }
}

/// A time that can stand in a file name.
pub fn artifact_safe_suffix(now: &str) -> (r: String)
    ensures
        r@ == replaced(now@, ':', '-'),
{
    replace_char(now, ':', '-')
}

/// The name where all that were tried are taken.
pub fn last_output_name(stem: Option<&str>, now: &str) -> (r: String)
    ensures
        r@ == stem_text(stem) + "_"@ + replaced(now@, ':', '-'),
{
    let stem: &str = match stem {
        Some(s) => s,
        None => "recovered",
    };
    let suffix = artifact_safe_suffix(now);
    concat3(stem, "_", suffix.as_str())
}

/// The extension of the file with the metadata of a recovered file.
pub fn metadata_extension(extension: Option<&str>) -> (r: String)
    ensures
        r@ == match extension {
            Some(e) => e@,
            None => "bin"@,
        } + ".metadata.json"@,
{
    match extension {
        Some(e) => concat2(e, ".metadata.json"),
        None => concat2("bin", ".metadata.json"),
    }
}

// ---------------------------------------------------------------------------
// Contents in runs.

/// What is known of a copy on its way: the runs to come, how much of the one in front is left
/// and where it lies, how much of the content has no run yet, and what has been written.
#[verifier::ext_equal]
pub ghost struct CopyView {
    pub runs: Seq<ByteRun>,
    pub left: u64,
    pub offset: u64,
    pub missing: u64,
    pub notes: Seq<Seq<char>>,
    pub written: Seq<u8>,
}

/// A copy of a content in runs.
pub struct RunCopy {
    runs: Vec<ByteRun>,
    next: usize,
    left: u64,
    offset: u64,
    missing: u64,
    notes: Vec<String>,
    sha256: Sha256Feed,
    blake3: blake3::Hasher,
}

impl View for RunCopy {
    type V = CopyView;

    closed spec fn view(&self) -> CopyView {
        CopyView {
            runs: self.runs@.subrange(self.next as int, self.runs@.len() as int),
            left: self.left,
            offset: self.offset,
            missing: self.missing,
            notes: views(self.notes@),
            written: sha256_fed(self.sha256),
        }
    }
}

/// What the copy does next.
#[derive(Debug)]
pub enum CopyStep {
    /// Zeros are written.
    Write(Vec<u8>),
    /// So many bytes are read at an offset, and written.
    Read { offset: u64, length: usize },
    /// The copy is over.
    Done,
}

pub open spec fn least(a: u64, b: u64) -> u64 {
    if a < b {
        a
    } else {
        b
    }
}

/// The run in front is begun, where none is. A run of no length ends the copy.
pub open spec fn run_begun(v: CopyView) -> CopyView {
    if v.left > 0 || v.runs.len() == 0 || least(v.missing, v.runs[0].length) == 0 {
        v
    } else {
        let taken = least(v.missing, v.runs[0].length);
        CopyView {
            left: taken,
            offset: v.runs[0].offset,
            missing: (v.missing - taken) as u64,
            notes: if v.runs[0].sparse {
                v.notes.push("Sparse NTFS run materialized as zeroes."@)
            } else {
                v.notes
            },
            ..v
        }
    }
}

/// Bytes of the run in front were written.
pub open spec fn chunk_written(v: CopyView, bytes: Seq<u8>) -> CopyView {
    let left = (v.left - bytes.len()) as u64;
    CopyView {
        runs: if left == 0 {
            v.runs.drop_first()
        } else {
            v.runs
        },
        left,
        offset: if v.offset + bytes.len() > u64::MAX {
            u64::MAX
        } else {
            (v.offset + bytes.len()) as u64
        },
        written: v.written + bytes,
        ..v
    }
}

/// The notes on a copy that is over.
pub open spec fn last_notes(v: CopyView) -> Seq<Seq<char>> {
    if v.missing == 0 {
        v.notes
    } else {
        v.notes.push(
            "Recovery stopped early with "@ + decimal(v.missing as nat)
                + " bytes missing from the logical size."@,
        )
    }
}

/// How a copy that is over turned out.
pub open spec fn copy_status(v: CopyView) -> RecoveryStatus {
    if v.missing > 0 {
        RecoveryStatus::Partial
    } else if v.notes.len() == 0 {
        RecoveryStatus::Recovered
    } else {
        RecoveryStatus::RecoveredWithWarnings
    }
}

/// What is said of a recovered content.
pub open spec fn is_recovered_item(
    r: RecoveryItemResult,
    artifact_id: Seq<char>,
    file_path: Seq<char>,
    metadata_path: Seq<char>,
    bytes: Seq<u8>,
    status: RecoveryStatus,
    notes: Seq<Seq<char>>,
) -> bool {
    &&& r.artifact_id@ == artifact_id
    &&& opt_view(r.file_path) == Some(file_path)
    &&& opt_view(r.metadata_path) == Some(metadata_path)
    &&& opt_view(r.sha256) == Some(sha256_text(bytes))
    &&& opt_view(r.blake3) == Some(blake3_text(bytes))
    &&& r.status == status
    &&& views(r.notes@) == notes
}

impl RunCopy {
    pub closed spec fn wf(&self) -> bool {
        &&& self.next <= self.runs@.len()
        &&& self.left > 0 ==> self.next < self.runs@.len()
        &&& blake3_fed(self.blake3) == sha256_fed(self.sha256)
    }

    /// A copy of `logical_size` bytes from runs.
    pub fn new(runs: Vec<ByteRun>, logical_size: u64) -> (r: Self)
        ensures
            r.wf(),
            r@ == (CopyView {
                runs: runs@,
                left: 0,
                offset: 0,
                missing: logical_size,
                notes: seq![],
                written: seq![],
            }),
    {
        let r = RunCopy {
            runs,
            next: 0,
            left: 0,
            offset: 0,
            missing: logical_size,
            notes: Vec::new(),
            sha256: sha256_start(),
            blake3: blake3_start(),
        };
        assert(r@.runs =~= runs@);
        assert(r@.notes =~= seq![]);
        assert(r@.written =~= seq![]);
        r
    }

    fn begin_run(&mut self)
        requires
            old(self).wf(),
        ensures
            final(self).wf(),
            final(self)@ == run_begun(old(self)@),
    {
        if self.left > 0 || self.next >= self.runs.len() {
            return;
        }
        let run = self.runs[self.next];
        assert(self@.runs[0] == run);
        let taken: u64 = if self.missing < run.length {
            self.missing
        } else {
            run.length
        };
        if taken == 0 {
            return;
        }
        self.left = taken;
        self.offset = run.offset;
        self.missing = self.missing - taken;
        if run.sparse {
            let ghost before = views(self.notes@);
            self.notes.push(owned("Sparse NTFS run materialized as zeroes."));
            assert(views(self.notes@) =~= before.push("Sparse NTFS run materialized as zeroes."@));
        }
    }

    fn take_in(&mut self, bytes: &[u8])
        requires
            old(self).wf(),
            0 < bytes@.len() <= old(self)@.left,
        ensures
            final(self).wf(),
            final(self)@ == chunk_written(old(self)@, bytes@),
    {
        let ghost before = self@;
        let ghost at = self.next as int;
        let ghost total = self.runs@.len() as int;
        sha256_update(&mut self.sha256, bytes);
        blake3_update(&mut self.blake3, bytes);
        let count: u64 = bytes.len() as u64;
        self.left = self.left - count;
        self.offset = self.offset.saturating_add(count);
        let n: usize = self.runs.len();
        assert(self.next < n);
        if self.left == 0 {
            self.next = self.next + 1;
            assert(self.runs@.subrange(at + 1, total) =~= before.runs.drop_first());
        }
    }

    /// What is done next. Zeros that are written are taken in at once; bytes that are read are
    /// handed in with `supply`.
    pub fn next_step(&mut self) -> (r: CopyStep)
        requires
            old(self).wf(),
        ensures
            final(self).wf(),
            ({
                let v = run_begun(old(self)@);
                let chunk = least(v.left, COPY_CHUNK);
                if v.left == 0 {
                    r is Done && final(self)@ == v
                } else if v.runs[0].sparse {
                    &&& r matches CopyStep::Write(bytes)
                    &&& bytes@ == zero_bytes(chunk as int)
                    &&& final(self)@ == chunk_written(v, bytes@)
                } else {
                    &&& r matches CopyStep::Read { offset, length }
                    &&& offset == v.offset
                    &&& length == chunk
                    &&& final(self)@ == v
                }
            }),
    {
        self.begin_run();
        if self.left == 0 {
            return CopyStep::Done;
        }
        let chunk: u64 = if self.left < COPY_CHUNK {
            self.left
        } else {
            COPY_CHUNK
        };
        let run = self.runs[self.next];
        assert(self@.runs[0] == run);
        if run.sparse {
            let mut zeros: Vec<u8> = Vec::new();
            push_zeros(&mut zeros, chunk as usize);
            assert(zeros@ =~= zero_bytes(chunk as int));
            self.take_in(zeros.as_slice());
            return CopyStep::Write(zeros);
        }
        CopyStep::Read { offset: self.offset, length: chunk as usize }
    }

    /// Takes in bytes that were read and written.
    pub fn supply(&mut self, bytes: &[u8])
        requires
            old(self).wf(),
            0 < bytes@.len() <= old(self)@.left,
        ensures
            final(self).wf(),
            final(self)@ == chunk_written(old(self)@, bytes@),
    {
        self.take_in(bytes);
    }

    /// What is said of the copied content.
    pub fn finish(self, artifact_id: &str, file_path: &str, metadata_path: &str) -> (r:
        RecoveryItemResult)
        requires
            self.wf(),
        ensures
            is_recovered_item(
                r,
                artifact_id@,
                file_path@,
                metadata_path@,
                self@.written,
                copy_status(self@),
                last_notes(self@),
            ),
    {
        let ghost v = self@;
        assert(v.notes.len() == self.notes@.len());
        let status: RecoveryStatus = if self.missing > 0 {
            RecoveryStatus::Partial
        } else if self.notes.len() == 0 {
            RecoveryStatus::Recovered
        } else {
            RecoveryStatus::RecoveredWithWarnings
        };
        let mut notes = self.notes;
        if self.missing > 0 {
            let number = decimal_string(self.missing);
            let said = concat3(
                "Recovery stopped early with ",
                number.as_str(),
                " bytes missing from the logical size.",
            );
            let ghost text = said@;
            notes.push(said);
            assert(views(notes@) =~= v.notes.push(text));
        }
        RecoveryItemResult {
            artifact_id: owned(artifact_id),
            file_path: Some(owned(file_path)),
            metadata_path: Some(owned(metadata_path)),
            sha256: Some(sha256_finish(self.sha256)),
            blake3: Some(blake3_finish(self.blake3)),
            status,
            notes,
        }
    }
}

// ---------------------------------------------------------------------------
// One artifact.

/// How an artifact is recovered.
pub enum RecoveryStart {
    /// There is nothing to recover.
    Over(RecoveryItemResult),
    /// The content is known.
    Write(Vec<u8>),
    /// The content is copied from runs of a device.
    Copy { source_path: String, copy: RunCopy },
}

/// The content that a record itself holds: what its base64 text stands for, at most so many bytes
/// as the file has.
pub open spec fn resident_content(base64: Seq<char>, logical_size: u64) -> Option<Seq<u8>> {
    match base64_bytes(base64) {
        Some(bytes) => Some(file_part(bytes, logical_size)),
        None => None,
    }
}

/// The part of stored bytes that belongs to a file of so many bytes.
pub open spec fn file_part(bytes: Seq<u8>, logical_size: u64) -> Seq<u8> {
    if bytes.len() <= logical_size {
        bytes
    } else {
        bytes.subrange(0, logical_size as int)
    }
}

/// The part of stored bytes that belongs to a file of so many bytes.
pub fn resident_bytes(bytes: Vec<u8>, logical_size: u64) -> (r: Vec<u8>)
    ensures
        r@ == file_part(bytes@, logical_size),
{
    let n: usize = bytes.len();
    if n as u64 <= logical_size {
        bytes
    } else {
        slice_to_vec(bytes.as_slice(), 0, logical_size as usize)
    }
}

/// How an artifact is recovered.
pub fn recover_one(artifact: &ArtifactRecord) -> (r: Result<RecoveryStart, RssError>)
    ensures
        match artifact.recovery_plan {
            RecoveryPlan::Unrecoverable { reason } => {
                &&& r matches Ok(RecoveryStart::Over(item))
                &&& item.artifact_id@ == artifact.id@
                &&& item.file_path is None
                &&& item.metadata_path is None
                &&& item.sha256 is None
                &&& item.blake3 is None
                &&& item.status == RecoveryStatus::Unrecoverable
                &&& views(item.notes@) == seq![reason@]
            },
            RecoveryPlan::ResidentBase64 { base64, logical_size } => match resident_content(
                base64@,
                logical_size,
            ) {
                Some(content) => r matches Ok(RecoveryStart::Write(bytes)) && bytes@ == content,
                None => r matches Err(e) && message_of(e) == "Resident data could not be decoded"@,
            },
            RecoveryPlan::RawRuns { source_path, runs, logical_size } => {
                &&& r matches Ok(RecoveryStart::Copy { source_path: path, copy })
                &&& path@ == source_path@
                &&& copy.wf()
                &&& copy@ == (CopyView {
                    runs: runs@,
                    left: 0,
                    offset: 0,
                    missing: logical_size,
                    notes: seq![],
                    written: seq![],
                })
            },
        },
{
    match &artifact.recovery_plan {
        RecoveryPlan::Unrecoverable { reason } => {
            let mut notes: Vec<String> = Vec::new();
            notes.push(reason.clone());
            assert(views(notes@) =~= seq![reason@]);
            Ok(
                RecoveryStart::Over(
                    RecoveryItemResult {
                        artifact_id: artifact.id.clone(),
                        file_path: None,
                        metadata_path: None,
                        sha256: None,
                        blake3: None,
                        status: RecoveryStatus::Unrecoverable,
                        notes,
                    },
                ),
            )
        },
        RecoveryPlan::ResidentBase64 { base64, logical_size } => {
            match decode_base64(base64.as_str()) {
                Some(bytes) => Ok(RecoveryStart::Write(resident_bytes(bytes, *logical_size))),
                None => Err(RssError::Message(owned("Resident data could not be decoded"))),
            }
        },
        RecoveryPlan::RawRuns { source_path, runs, logical_size } => {
            let mut copied: Vec<ByteRun> = Vec::new();
            let mut i: usize = 0;
            while i < runs.len()
                invariant
                    i <= runs@.len(),
                    copied@ == runs@.subrange(0, i as int),
                decreases runs@.len() - i,
            {
                copied.push(runs[i]);
                assert(copied@ =~= runs@.subrange(0, i + 1));
                i += 1;
            }
            assert(copied@ =~= runs@);
            Ok(
                RecoveryStart::Copy {
                    source_path: source_path.clone(),
                    copy: RunCopy::new(copied, *logical_size),
                },
            )
        },
    }
}

/// What is said of a content that was written whole.
pub fn persist_recovered(
    artifact_id: &str,
    file_path: &str,
    metadata_path: &str,
    bytes: &[u8],
    status: RecoveryStatus,
    notes: Vec<String>,
) -> (r: RecoveryItemResult)
    ensures
        is_recovered_item(
            r,
            artifact_id@,
            file_path@,
            metadata_path@,
            bytes@,
            status,
            views(notes@),
        ),
{
    let mut sha256 = sha256_start();
    sha256_update(&mut sha256, bytes);
    let mut blake3 = blake3_start();
    blake3_update(&mut blake3, bytes);
    assert(Seq::<u8>::empty() + bytes@ =~= bytes@);
    RecoveryItemResult {
        artifact_id: owned(artifact_id),
        file_path: Some(owned(file_path)),
        metadata_path: Some(owned(metadata_path)),
        sha256: Some(sha256_finish(sha256)),
        blake3: Some(blake3_finish(blake3)),
        status,
        notes,
    }
}

/// What is said of a recovery of several artifacts.
pub fn recover_selected(
    request: &RecoveryRequest,
    items: Vec<RecoveryItemResult>,
    started_at: &str,
    finished_at: &str,
) -> (r: RecoverySummary)
    ensures
        r.scan_id@ == request.scan_id@,
        r.destination@ == request.destination@,
        r.started_at@ == started_at@,
        r.finished_at@ == finished_at@,
        r.items@ == items@,
{
    RecoverySummary {
        scan_id: request.scan_id.clone(),
        destination: request.destination.clone(),
        started_at: owned(started_at),
        finished_at: owned(finished_at),
        items,
    }
}

// ---------------------------------------------------------------------------
// Laws.

/// The size of the content that a copy accounts for.
pub open spec fn accounted(v: CopyView) -> int {
    v.missing + v.left + v.written.len()
}

/// No byte is lost or written twice on the way: what was written, what is left of the run in
/// front and what has no run yet make up the content at every step.
pub proof fn lemma_copy_accounts_for_every_byte(v: CopyView, bytes: Seq<u8>)
    requires
        bytes.len() <= v.left,
    ensures
        accounted(run_begun(v)) == accounted(v),
        accounted(chunk_written(v, bytes)) == accounted(v),
{
}

/// So many bytes of a run from an offset on: those of the device, or zeros.
pub open spec fn bytes_of_run(device: spec_fn(int) -> u8, run: ByteRun, offset: int, n: int) -> Seq<
    u8,
> {
    if run.sparse {
        zero_bytes(n)
    } else {
        Seq::new(n as nat, |i: int| device(offset + i))
    }
}

/// What the runs of a content hold on a device, up to its size; a run of no length ends it.
pub open spec fn content_on_device(
    device: spec_fn(int) -> u8,
    runs: Seq<ByteRun>,
    size: u64,
) -> Seq<u8>
    decreases runs.len(),
{
    if runs.len() == 0 || least(size, runs[0].length) == 0 {
        seq![]
    } else {
        let taken = least(size, runs[0].length);
        bytes_of_run(device, runs[0], runs[0].offset as int, taken as int) + content_on_device(
            device,
            runs.drop_first(),
            (size - taken) as u64,
        )
    }
}

/// What a copy has written when it is over, where every read gives what the device holds.
pub open spec fn copied_from(device: spec_fn(int) -> u8, v: CopyView) -> Seq<u8> {
    if v.left == 0 {
        v.written + content_on_device(device, v.runs, v.missing)
    } else {
        v.written + bytes_of_run(device, v.runs[0], v.offset as int, v.left as int)
            + content_on_device(device, v.runs.drop_first(), v.missing)
    }
}

/// A copy writes what the runs hold on the device, byte for byte and in their order, whatever
/// the chunks in which it is read: no step changes what will have been written, at the start
/// that is the content, and at the end it is what was written.
pub proof fn lemma_copy_writes_what_runs_hold(
    device: spec_fn(int) -> u8,
    v: CopyView,
    n: int,
    runs: Seq<ByteRun>,
    logical_size: u64,
)
    requires
        v.left > 0 ==> v.runs.len() > 0 && v.offset + v.left <= u64::MAX,
        0 <= n <= v.left,
    ensures
        copied_from(
            device,
            (CopyView {
                runs,
                left: 0,
                offset: 0,
                missing: logical_size,
                notes: seq![],
                written: seq![],
            }),
        ) == content_on_device(device, runs, logical_size),
        copied_from(device, run_begun(v)) == copied_from(device, v),
        n > 0 ==> copied_from(
            device,
            chunk_written(v, bytes_of_run(device, v.runs[0], v.offset as int, n)),
        ) == copied_from(device, v),
        run_begun(v).left == 0 ==> copied_from(device, v) == v.written,
{
    let start = seq![] + content_on_device(device, runs, logical_size);
    assert(start =~= content_on_device(device, runs, logical_size));
    let begun = run_begun(v);
    if begun.left == 0 {
        assert(v.written + seq![] =~= v.written);
    } else if v.left == 0 {
        let part = bytes_of_run(device, v.runs[0], v.runs[0].offset as int, begun.left as int);
        let rest = content_on_device(device, v.runs.drop_first(), begun.missing);
        assert(v.written + (part + rest) =~= v.written + part + rest);
    }
    if n > 0 {
        let chunk = bytes_of_run(device, v.runs[0], v.offset as int, n);
        let after = chunk_written(v, chunk);
        let whole = bytes_of_run(device, v.runs[0], v.offset as int, v.left as int);
        let rest = content_on_device(device, v.runs.drop_first(), v.missing);
        if n == v.left {
            assert(after.left == 0);
        } else {
            let behind = bytes_of_run(device, v.runs[0], v.offset + n, v.left - n);
            assert(whole =~= chunk + behind);
            assert(v.written + chunk + behind + rest =~= v.written + (chunk + behind) + rest);
        }
    }
}

/// A content counts as recovered only where all of it was written, and as recovered without
/// warning only where no part of it was made up.
pub proof fn lemma_recovered_contents_are_whole(v: CopyView, logical_size: u64)
    requires
        accounted(v) == logical_size,
        v.left == 0,
    ensures
        copy_status(v) == RecoveryStatus::Partial <==> v.written.len() < logical_size,
        copy_status(v) == RecoveryStatus::Recovered ==> v.written.len() == logical_size
            && v.notes.len() == 0,
        last_notes(v).len() == 0 <==> copy_status(v) == RecoveryStatus::Recovered,
{
}

/// A copy never asks for more than it holds, and what it asks for is not nothing.
pub proof fn lemma_copy_chunks_are_bounded(v: CopyView)
    ensures
        least(v.left, COPY_CHUNK) <= v.left,
        v.left > 0 ==> 0 < least(v.left, COPY_CHUNK) <= COPY_CHUNK,
{
}

/// The bytes that runs hold together.
pub open spec fn held_by_runs(runs: Seq<ByteRun>) -> int
    decreases runs.len(),
{
    if runs.len() == 0 {
        0
    } else {
        runs[0].length + held_by_runs(runs.drop_first())
    }
}

/// The content of runs that hold enough is as long as was asked for.
pub proof fn lemma_content_has_its_size(
    device: spec_fn(int) -> u8,
    runs: Seq<ByteRun>,
    size: u64,
)
    requires
        forall|k: int| 0 <= k < runs.len() ==> (#[trigger] runs[k]).length > 0,
        held_by_runs(runs) >= size,
    ensures
        content_on_device(device, runs, size).len() == size,
    decreases runs.len(),
{
    if runs.len() > 0 && size > 0 {
        let rest = runs.drop_first();
        let taken = least(size, runs[0].length);
        assert forall|k: int| 0 <= k < rest.len() implies (#[trigger] rest[k]).length > 0 by {
            assert(rest[k] == runs[k + 1]);
        }
        if size == taken {
            assert(content_on_device(device, rest, 0u64).len() == 0);
        } else {
            lemma_content_has_its_size(device, rest, (size - taken) as u64);
        }
    }
}

/// Each byte of a content comes from the place in its run, and those of a hole are zero.
pub proof fn lemma_content_lies_where_runs_say(
    device: spec_fn(int) -> u8,
    runs: Seq<ByteRun>,
    size: u64,
    k: int,
    q: int,
)
    requires
        forall|i: int| 0 <= i < runs.len() ==> (#[trigger] runs[i]).length > 0,
        0 <= k < runs.len(),
        0 <= q < runs[k].length,
        held_by_runs(runs.subrange(0, k)) + q < size,
    ensures
        ({
            let content = content_on_device(device, runs, size);
            let at = held_by_runs(runs.subrange(0, k)) + q;
            &&& 0 <= at < content.len()
            &&& content[at] == if runs[k].sparse {
                0u8
            } else {
                device(runs[k].offset + q)
            }
        }),
    decreases runs.len(),
{
    let front = runs.subrange(0, k);
    lemma_held_is_positive(front);
    if k == 0 {
        assert(front =~= seq![]);
    } else {
        let rest = runs.drop_first();
        assert(front.drop_first() =~= rest.subrange(0, k - 1));
        assert(front[0] == runs[0]);
        lemma_held_is_positive(rest.subrange(0, k - 1));
        assert forall|i: int| 0 <= i < rest.len() implies (#[trigger] rest[i]).length > 0 by {
            assert(rest[i] == runs[i + 1]);
        }
        assert(rest[k - 1] == runs[k]);
        let taken = least(size, runs[0].length);
        lemma_content_lies_where_runs_say(device, rest, (size - taken) as u64, k - 1, q);
    }
}

proof fn lemma_held_is_positive(runs: Seq<ByteRun>)
    ensures
        held_by_runs(runs) >= 0,
    decreases runs.len(),
{
    if runs.len() > 0 {
        lemma_held_is_positive(runs.drop_first());
    }
}

} // verus!
