//! Signatures of programs: which files have one, how it is asked for, and what the answer says.

use crate::codec::{base64_text, encode_base64, json_text, json_text_at};
use crate::kinds::{decode_utf8_lossy, infer_artifact_kind, inferred_kind, utf8_lossy};
use crate::model::{
    message_of, ArtifactKind, ArtifactRecord, ArtifactSignatureStatus, ArtifactSignatureSummary,
    RssError, SourceEntry,
};
use crate::numbers::{decimal, decimal_string};
use crate::preview_reads::{
    never_read, over_budget, over_budget_of, should_skip_live_signature_inspection,
};
use crate::text::{chars_of, concat3, concat4, opt_view, owned, trim, trimmed};
use vstd::prelude::*;
use vstd::string::*;

verus! {

/// What a signature check says.
#[verifier::ext_equal]
pub ghost struct SignatureView {
    pub status: ArtifactSignatureStatus,
    pub subject: Option<Seq<char>>,
    pub issuer: Option<Seq<char>>,
    pub timestamp: Option<Seq<char>>,
    pub verification_source: Seq<char>,
    pub note: Option<Seq<char>>,
}

impl View for ArtifactSignatureSummary {
    type V = SignatureView;

    open spec fn view(&self) -> SignatureView {
        SignatureView {
            status: self.status,
            subject: opt_view(self.subject),
            issuer: opt_view(self.issuer),
            timestamp: opt_view(self.timestamp),
            verification_source: self.verification_source@,
            note: opt_view(self.note),
        }
    }
}

// ---------------------------------------------------------------------------
// Which files are asked about.

/// The largest file whose signature is checked from a copy.
pub const MAX_SIGNATURE_BYTES: u64 = 536870912;

/// A kind of file that can be signed.
pub open spec fn can_be_signed(kind: ArtifactKind) -> bool {
    match kind {
        ArtifactKind::Exe
        | ArtifactKind::Dll
        | ArtifactKind::Sys
        | ArtifactKind::Scr
        | ArtifactKind::Ocx
        | ArtifactKind::Cpl
        | ArtifactKind::Pe
        | ArtifactKind::Msi => true,
        _ => false,
    }
}

fn is_signable(kind: ArtifactKind) -> (r: bool)
    ensures
        r == can_be_signed(kind),
{
    match kind {
        ArtifactKind::Exe
        | ArtifactKind::Dll
        | ArtifactKind::Sys
        | ArtifactKind::Scr
        | ArtifactKind::Ocx
        | ArtifactKind::Cpl
        | ArtifactKind::Pe
        | ArtifactKind::Msi => true,
        _ => false,
    }
}

/// The answer for a file that cannot be signed.
pub open spec fn not_applicable() -> SignatureView {
    SignatureView {
        status: ArtifactSignatureStatus::NotApplicable,
        subject: None,
        issuer: None,
        timestamp: None,
        verification_source: "n/a"@,
        note: Some(
            "Authenticode verification applies only to PE-family binaries and MSI packages."@,
        ),
    }
}

/// The answer for a live file that is not read.
pub open spec fn skipped(path: Seq<char>) -> SignatureView {
    SignatureView {
        status: ArtifactSignatureStatus::Indeterminate,
        subject: None,
        issuer: None,
        timestamp: None,
        verification_source: "policy:live-system-file"@,
        note: Some(
            "Signature verification is skipped for protected live system file "@ + path
                + " to avoid blocking the UI."@,
        ),
    }
}

fn plain_answer(status: ArtifactSignatureStatus, source: &str, note: String) -> (r:
    ArtifactSignatureSummary)
    ensures
        r@ == (SignatureView {
            status,
            subject: None,
            issuer: None,
            timestamp: None,
            verification_source: source@,
            note: Some(note@),
        }),
{
    ArtifactSignatureSummary {
        status,
        subject: None,
        issuer: None,
        timestamp: None,
        verification_source: owned(source),
        note: Some(note),
    }
}

fn not_applicable_answer() -> (r: ArtifactSignatureSummary)
    ensures
        r@ == not_applicable(),
{
    plain_answer(
        ArtifactSignatureStatus::NotApplicable,
        "n/a",
        owned("Authenticode verification applies only to PE-family binaries and MSI packages."),
    )
}

/// A name that a temporary file can have: letters, digits, dots, dashes and underscores stay.
pub open spec fn safe_char(c: char) -> char {
    if ('a' <= c && c <= 'z') || ('A' <= c && c <= 'Z') || ('0' <= c && c <= '9') || c == '.' || c
        == '_' || c == '-' {
        c
    } else {
        '_'
    }
}

pub open spec fn safe_name(name: Seq<char>) -> Seq<char> {
    name.map_values(|c: char| safe_char(c))
}

pub fn sanitize_temp_name(name: &str) -> (r: String)
    ensures
        r@ == safe_name(name@),
{
    let chars = chars_of(name);
    let mut out: String = String::new();
    let mut i: usize = 0;
    while i < chars.len()
        invariant
            i <= chars@.len(),
            chars@ == name@,
            out@ == safe_name(name@).subrange(0, i as int),
        decreases chars@.len() - i,
    {
        let c = chars[i];
        if ('a' <= c && c <= 'z') || ('A' <= c && c <= 'Z') || ('0' <= c && c <= '9') || c == '.'
            || c == '_' || c == '-' {
            out.push(c);
        } else {
            out.push('_');
        }
        assert(out@ =~= safe_name(name@).subrange(0, i + 1));
        i += 1;
    }
    assert(out@ =~= safe_name(name@));
    out
}

/// A safe name has no separator, and is safe as it is.
pub proof fn lemma_safe_names_stay(name: Seq<char>)
    ensures
        safe_name(safe_name(name)) == safe_name(name),
        safe_name(name).len() == name.len(),
        !safe_name(name).contains('\\'),
        !safe_name(name).contains('/'),
{
    assert(safe_name(safe_name(name)) =~= safe_name(name));
}

/// What follows for the signature of a file: an answer at once, or a check of the file, from a
/// copy with the given name where it cannot be read in place.
#[derive(Debug)]
pub enum SignatureStep {
    Answer(ArtifactSignatureSummary),
    Check { temp_name: String },
}

/// What is to be done for the signature of a deleted file.
pub fn inspect_signature(artifact: &ArtifactRecord) -> (r: Result<SignatureStep, RssError>)
    ensures
        if !can_be_signed(artifact.kind) {
            r matches Ok(SignatureStep::Answer(answer)) && answer@ == not_applicable()
        } else if artifact.size > MAX_SIGNATURE_BYTES {
            r matches Err(e) && message_of(e) == over_budget(
                "Artifact is "@,
                artifact.size,
                "signature-verification"@,
                MAX_SIGNATURE_BYTES,
            )
        } else {
            r matches Ok(SignatureStep::Check { temp_name }) && temp_name@ == artifact.id@ + "_"@
                + safe_name(artifact.name@)
        },
{
    if !is_signable(artifact.kind) {
        return Ok(SignatureStep::Answer(not_applicable_answer()));
    }
    if artifact.size > MAX_SIGNATURE_BYTES {
        return Err(
            RssError::Message(
                over_budget_of(
                    "Artifact is ",
                    artifact.size,
                    "signature-verification",
                    MAX_SIGNATURE_BYTES,
                ),
            ),
        );
    }
    let safe = sanitize_temp_name(artifact.name.as_str());
    Ok(SignatureStep::Check { temp_name: concat3(artifact.id.as_str(), "_", safe.as_str()) })
}

/// The name of the copy of a live file.
pub open spec fn entry_copy_name(entry: SourceEntry) -> Seq<char> {
    "entry_"@ + safe_name(entry.name@) + "_"@ + match entry.mft_reference {
        Some(n) => decimal(n as nat),
        None => "path"@,
    }
}

/// What is to be done for the signature of a live entry.
pub fn inspect_entry_signature(entry: &SourceEntry) -> (r: SignatureStep)
    ensures
        if never_read(*entry) {
            r matches SignatureStep::Answer(answer) && answer@ == skipped(entry.path@)
        } else if !can_be_signed(inferred_kind(entry.name@, None)) {
            r matches SignatureStep::Answer(answer) && answer@ == not_applicable()
        } else {
            r matches SignatureStep::Check { temp_name } && temp_name@ == entry_copy_name(*entry)
        },
{
    if should_skip_live_signature_inspection(entry) {
        return SignatureStep::Answer(
            plain_answer(
                ArtifactSignatureStatus::Indeterminate,
                "policy:live-system-file",
                concat3(
                    "Signature verification is skipped for protected live system file ",
                    entry.path.as_str(),
                    " to avoid blocking the UI.",
                ),
            ),
        );
    }
    if !is_signable(infer_artifact_kind(entry.name.as_str(), None)) {
        return SignatureStep::Answer(not_applicable_answer());
    }
    let safe = sanitize_temp_name(entry.name.as_str());
    let suffix = match entry.mft_reference {
        Some(n) => decimal_string(n),
        None => owned("path"),
    };
    SignatureStep::Check { temp_name: concat4("entry_", safe.as_str(), "_", suffix.as_str()) }
}

// ---------------------------------------------------------------------------
// How a signature is asked for.

/// A text in which every single quote is doubled.
pub open spec fn quoted(s: Seq<char>) -> Seq<char>
    decreases s.len(),
{
    if s.len() == 0 {
        seq![]
    } else if s.last() == '\'' {
        quoted(s.drop_last()).push('\'').push('\'')
    } else {
        quoted(s.drop_last()).push(s.last())
    }
}

fn push_quoted(out: &mut String, s: &str)
    ensures
        final(out)@ == old(out)@ + quoted(s@),
{
    let chars = chars_of(s);
    let mut i: usize = 0;
    assert(s@.subrange(0, 0) =~= seq![]);
    assert(out@ =~= old(out)@ + quoted(s@.subrange(0, 0)));
    while i < chars.len()
        invariant
            i <= chars@.len(),
            chars@ == s@,
            out@ == old(out)@ + quoted(s@.subrange(0, i as int)),
        decreases chars@.len() - i,
    {
        assert(s@.subrange(0, i + 1).drop_last() =~= s@.subrange(0, i as int));
        let c = chars[i];
        if c == '\'' {
            out.push('\'');
        }
        out.push(c);
        assert(out@ =~= old(out)@ + quoted(s@.subrange(0, i + 1)));
        i += 1;
    }
    assert(s@.subrange(0, i as int) =~= s@);
}

pub open spec fn script_head() -> Seq<char> {
    "$ErrorActionPreference = 'Stop'\ntry {\n$signature = Get-AuthenticodeSignature -LiteralPath '"@
}

pub open spec fn script_tail() -> Seq<char> {
    "'\n[pscustomobject]@{\n  Status = [string]$signature.Status\n  StatusMessage = $signature.StatusMessage\n  Subject = if ($signature.SignerCertificate) { $signature.SignerCertificate.Subject } else { $null }\n  Issuer = if ($signature.SignerCertificate) { $signature.SignerCertificate.Issuer } else { $null }\n  Timestamp = $null\n} | ConvertTo-Json -Compress\n} catch {\n[pscustomobject]@{\n  Status = 'UnknownError'\n  StatusMessage = $_.Exception.Message\n  Subject = $null\n  Issuer = $null\n  Timestamp = $null\n} | ConvertTo-Json -Compress\n}"@
}

/// The script that checks the signature of the file at a path.
pub open spec fn script_for(path: Seq<char>) -> Seq<char> {
    script_head() + quoted(path) + script_tail()
}

/// The script that checks the signature of the file at a path, and prints the answer as JSON.
pub fn signature_script(path: &str) -> (r: String)
    ensures
        r@ == script_for(path@),
{
    let mut script = owned(
        "$ErrorActionPreference = 'Stop'\ntry {\n$signature = Get-AuthenticodeSignature -LiteralPath '",
    );
    push_quoted(&mut script, path);
    script.append(
        "'\n[pscustomobject]@{\n  Status = [string]$signature.Status\n  StatusMessage = $signature.StatusMessage\n  Subject = if ($signature.SignerCertificate) { $signature.SignerCertificate.Subject } else { $null }\n  Issuer = if ($signature.SignerCertificate) { $signature.SignerCertificate.Issuer } else { $null }\n  Timestamp = $null\n} | ConvertTo-Json -Compress\n} catch {\n[pscustomobject]@{\n  Status = 'UnknownError'\n  StatusMessage = $_.Exception.Message\n  Subject = $null\n  Issuer = $null\n  Timestamp = $null\n} | ConvertTo-Json -Compress\n}",
    );
    script
}

/// The UTF-16 code units of a character.
pub open spec fn units_of(c: char) -> Seq<u16> {
    let n = c as u32;
    if n < 0x10000 {
        seq![n as u16]
    } else {
        seq![(0xd800 + (n - 0x10000) / 0x400) as u16, (0xdc00 + (n - 0x10000) % 0x400) as u16]
    }
}

/// The two bytes of a code unit, the lower one first.
pub open spec fn unit_bytes(unit: u16) -> Seq<u8> {
    seq![(unit % 256) as u8, (unit / 256) as u8]
}

pub open spec fn char_bytes(c: char) -> Seq<u8> {
    let units = units_of(c);
    if units.len() == 1 {
        unit_bytes(units[0])
    } else {
        unit_bytes(units[0]) + unit_bytes(units[1])
    }
}

/// A text in UTF-16, the lower byte of each code unit first.
pub open spec fn wide_bytes(s: Seq<char>) -> Seq<u8>
    decreases s.len(),
{
    if s.len() == 0 {
        seq![]
    } else {
        wide_bytes(s.drop_last()) + char_bytes(s.last())
    }
}

fn push_unit(out: &mut Vec<u8>, unit: u16)
    ensures
        final(out)@ == old(out)@ + unit_bytes(unit),
{
    out.push((unit % 256) as u8);
    out.push((unit / 256) as u8);
    assert(out@ =~= old(out)@ + unit_bytes(unit));
}

/// A text in UTF-16, the lower byte of each code unit first.
pub fn utf16_le_bytes(s: &str) -> (r: Vec<u8>)
    ensures
        r@ == wide_bytes(s@),
{
    let chars = chars_of(s);
    let mut out: Vec<u8> = Vec::new();
    let mut i: usize = 0;
    assert(s@.subrange(0, 0) =~= seq![]);
    while i < chars.len()
        invariant
            i <= chars@.len(),
            chars@ == s@,
            out@ == wide_bytes(s@.subrange(0, i as int)),
        decreases chars@.len() - i,
    {
        assert(s@.subrange(0, i + 1).drop_last() =~= s@.subrange(0, i as int));
        let c = chars[i];
        let n: u32 = c as u32;
        let ghost before = out@;
        proof {
            vstd::utf8::char_is_scalar(c);
        }
        if n < 0x10000 {
            push_unit(&mut out, n as u16);
        } else {
            let over: u32 = n - 0x10000;
            let high: u16 = (0xd800 + over / 0x400) as u16;
            let low: u16 = (0xdc00 + over % 0x400) as u16;
            push_unit(&mut out, high);
            push_unit(&mut out, low);
        }
        assert(out@ =~= before + char_bytes(c));
        i += 1;
    }
    assert(s@.subrange(0, i as int) =~= s@);
    out
}

/// The command that checks the signature of the file at a path, as the shell takes it.
pub fn encoded_signature_command(path: &str) -> (r: String)
    ensures
        r@ == base64_text(wide_bytes(script_for(path@))),
{
    let script = signature_script(path);
    let bytes = utf16_le_bytes(script.as_str());
    encode_base64(bytes.as_slice())
}

// ---------------------------------------------------------------------------
// What an answer says.

pub open spec fn status_named(status: Seq<char>) -> ArtifactSignatureStatus {
    if status == "Valid"@ {
        ArtifactSignatureStatus::Valid
    } else if status == "NotSigned"@ {
        ArtifactSignatureStatus::Unsigned
    } else if status == "HashMismatch"@ || status == "NotTrusted"@ || status == "UnknownError"@ {
        ArtifactSignatureStatus::Invalid
    } else if status == "NotSupportedFileFormat"@ {
        ArtifactSignatureStatus::NotApplicable
    } else {
        ArtifactSignatureStatus::Indeterminate
    }
}

pub fn map_signature_status(status: &str) -> (r: ArtifactSignatureStatus)
    ensures
        r == status_named(status@),
{
    if *status == *"Valid" {
        ArtifactSignatureStatus::Valid
    } else if *status == *"NotSigned" {
        ArtifactSignatureStatus::Unsigned
    } else if *status == *"HashMismatch" || *status == *"NotTrusted" || *status
        == *"UnknownError" {
        ArtifactSignatureStatus::Invalid
    } else if *status == *"NotSupportedFileFormat" {
        ArtifactSignatureStatus::NotApplicable
    } else {
        ArtifactSignatureStatus::Indeterminate
    }
}

/// The words of a check.
#[derive(Debug)]
pub struct SignatureReply {
    pub status: Option<String>,
    pub message: Option<String>,
    pub subject: Option<String>,
    pub issuer: Option<String>,
    pub timestamp: Option<String>,
}

pub open spec fn unless_blank(s: Option<Seq<char>>) -> Option<Seq<char>> {
    match s {
        Some(text) => if trimmed(text).len() == 0 {
            None
        } else {
            Some(text)
        },
        None => None,
    }
}

/// What the words of a check say: a missing status is an error, a blank message is none.
pub open spec fn replied(
    status: Option<Seq<char>>,
    message: Option<Seq<char>>,
    subject: Option<Seq<char>>,
    issuer: Option<Seq<char>>,
    timestamp: Option<Seq<char>>,
) -> SignatureView {
    SignatureView {
        status: status_named(
            match status {
                Some(s) => s,
                None => "UnknownError"@,
            },
        ),
        subject,
        issuer,
        timestamp,
        verification_source: "powershell:get-authenticodesignature"@,
        note: unless_blank(message),
    }
}

/// The answer that the words of a check give.
pub fn signature_answer(reply: SignatureReply) -> (r: ArtifactSignatureSummary)
    ensures
        r@ == replied(
            opt_view(reply.status),
            opt_view(reply.message),
            opt_view(reply.subject),
            opt_view(reply.issuer),
            opt_view(reply.timestamp),
        ),
{
    let status = match &reply.status {
        Some(s) => map_signature_status(s.as_str()),
        None => map_signature_status("UnknownError"),
    };
    let note = match reply.message {
        Some(text) => if trim(text.as_str()).as_str().is_empty() {
            None
        } else {
            Some(text)
        },
        None => None,
    };
    ArtifactSignatureSummary {
        status,
        subject: reply.subject,
        issuer: reply.issuer,
        timestamp: reply.timestamp,
        verification_source: owned("powershell:get-authenticodesignature"),
        note,
    }
}

/// What a finished check printed.
pub open spec fn printed(success: bool, stdout: Seq<u8>, stderr: Seq<u8>) -> Result<
    SignatureView,
    Seq<char>,
> {
    if !success {
        Ok(
            SignatureView {
                status: ArtifactSignatureStatus::Indeterminate,
                subject: None,
                issuer: None,
                timestamp: None,
                verification_source: "powershell:get-authenticodesignature"@,
                note: Some(trimmed(utf8_lossy(stderr))),
            },
        )
    } else {
        match (
            json_text_at(stdout, "Status"@),
            json_text_at(stdout, "StatusMessage"@),
            json_text_at(stdout, "Subject"@),
            json_text_at(stdout, "Issuer"@),
            json_text_at(stdout, "Timestamp"@),
        ) {
            (Some(status), Some(message), Some(subject), Some(issuer), Some(timestamp)) => Ok(
                replied(status, message, subject, issuer, timestamp),
            ),
            _ => Err("PowerShell did not return valid JSON for Authenticode verification"@),
        }
    }
}

pub open spec fn answer_result(r: Result<ArtifactSignatureSummary, RssError>) -> Result<
    SignatureView,
    Seq<char>,
> {
    match r {
        Ok(answer) => Ok(answer@),
        Err(e) => Err(message_of(e)),
    }
}

/// The answer of a finished check, from what it printed.
pub fn inspect_signature_from_path(success: bool, stdout: &[u8], stderr: &[u8]) -> (r: Result<
    ArtifactSignatureSummary,
    RssError,
>)
    ensures
        answer_result(r) == printed(success, stdout@, stderr@),
{
    if !success {
        let note = trim(decode_utf8_lossy(stderr).as_str());
        return Ok(
            plain_answer(
                ArtifactSignatureStatus::Indeterminate,
                "powershell:get-authenticodesignature",
                note,
            ),
        );
    }
    match (
        json_text(stdout, "Status"),
        json_text(stdout, "StatusMessage"),
        json_text(stdout, "Subject"),
        json_text(stdout, "Issuer"),
        json_text(stdout, "Timestamp"),
    ) {
        (Some(status), Some(message), Some(subject), Some(issuer), Some(timestamp)) => Ok(
            signature_answer(SignatureReply { status, message, subject, issuer, timestamp }),
        ),
        _ => Err(
            RssError::Message(
                owned("PowerShell did not return valid JSON for Authenticode verification"),
            ),
        ),
    }
}

/// Quoting hides no quote: a quoted path has twice as many single quotes as the path, and
/// nothing else changes.
pub proof fn lemma_quoting_doubles_quotes(s: Seq<char>)
    ensures
        quoted(s).len() == s.len() + count_quotes(s),
        count_quotes(quoted(s)) == 2 * count_quotes(s),
    decreases s.len(),
{
    reveal_with_fuel(count_quotes, 3);
    if s.len() > 0 {
        let front = s.drop_last();
        lemma_quoting_doubles_quotes(front);
        let q = quoted(s);
        if s.last() == '\'' {
            assert(q.drop_last() =~= quoted(front).push('\''));
            assert(q.drop_last().drop_last() =~= quoted(front));
            assert(q.drop_last().last() == '\'');
        } else {
            assert(q.drop_last() =~= quoted(front));
        }
    }
}

/// How many single quotes a text has.
pub open spec fn count_quotes(s: Seq<char>) -> nat
    decreases s.len(),
{
    if s.len() == 0 {
        0
    } else {
        count_quotes(s.drop_last()) + if s.last() == '\'' {
            1nat
        } else {
            0
        }
    }
}

} // verus!
