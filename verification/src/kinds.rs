//! Which kind of file a name and its first bytes announce.

use crate::bytes::{
    contains, le16, le32, matches_at, occurs_at, occurs_in, read_le16, read_le32, slice_to_vec,
    starts_with,
};
use crate::model::{
    family_of, family_score, ArtifactClass, ArtifactKind, ArtifactRecord, Confidence,
    ContentSourceKind, DeletedTimeConfidence, NameSourceKind, OriginType, PathConfidence,
    PlacementKind, RecoveryPlan, Recoverability,
};
use crate::text::{
    after_last, ascii_lower, chars_of, count_if, count_strings, has_char, has_prefix,
    has_substring, head, lines, owned, rsplit_after, split_lines, starts_with_char, strip_front,
    to_ascii_lowercase, trim, trim_start, trim_start_char, trimmed, trimmed_start,
};
use vstd::prelude::*;
use vstd::utf8::{decode_utf8, valid_utf8};

verus! {

// ---------------------------------------------------------------------------
// File name extensions.

/// The kind that a lower-case extension stands for.
pub open spec fn extension_kind(ext: Seq<char>) -> Option<ArtifactKind> {
    if ext == "exe"@ {
        Some(ArtifactKind::Exe)
    } else if ext == "dll"@ {
        Some(ArtifactKind::Dll)
    } else if ext == "sys"@ {
        Some(ArtifactKind::Sys)
    } else if ext == "scr"@ {
        Some(ArtifactKind::Scr)
    } else if ext == "ocx"@ {
        Some(ArtifactKind::Ocx)
    } else if ext == "cpl"@ {
        Some(ArtifactKind::Cpl)
    } else if ext == "msi"@ {
        Some(ArtifactKind::Msi)
    } else if ext == "jar"@ {
        Some(ArtifactKind::Jar)
    } else if ext == "zip"@ {
        Some(ArtifactKind::Zip)
    } else if ext == "rar"@ {
        Some(ArtifactKind::Rar)
    } else if ext == "7z"@ {
        Some(ArtifactKind::SevenZip)
    } else if ext == "cab"@ {
        Some(ArtifactKind::Cab)
    } else if ext == "iso"@ {
        Some(ArtifactKind::Iso)
    } else if ext == "tar"@ {
        Some(ArtifactKind::Tar)
    } else if ext == "gz"@ {
        Some(ArtifactKind::Gzip)
    } else if ext == "bz2"@ {
        Some(ArtifactKind::Bzip2)
    } else if ext == "xz"@ {
        Some(ArtifactKind::Xz)
    } else if ext == "apk"@ {
        Some(ArtifactKind::Apk)
    } else if ext == "pdf"@ {
        Some(ArtifactKind::Pdf)
    } else if ext == "png"@ {
        Some(ArtifactKind::Png)
    } else if ext == "jpg"@ || ext == "jpeg"@ {
        Some(ArtifactKind::Jpg)
    } else if ext == "gif"@ {
        Some(ArtifactKind::Gif)
    } else if ext == "sqlite"@ || ext == "sqlite3"@ || ext == "db"@ || ext == "db3"@ {
        Some(ArtifactKind::Sqlite)
    } else if ext == "pak"@ {
        Some(ArtifactKind::Pak)
    } else if ext == "bin"@ {
        Some(ArtifactKind::Bin)
    } else if ext == "dat"@ {
        Some(ArtifactKind::Dat)
    } else if ext == "bat"@ {
        Some(ArtifactKind::Bat)
    } else if ext == "cmd"@ {
        Some(ArtifactKind::Cmd)
    } else if ext == "ps1"@ {
        Some(ArtifactKind::Ps1)
    } else if ext == "vbs"@ {
        Some(ArtifactKind::Vbs)
    } else if ext == "js"@ {
        Some(ArtifactKind::Js)
    } else if ext == "ini"@ {
        Some(ArtifactKind::Ini)
    } else if ext == "cfg"@ {
        Some(ArtifactKind::Cfg)
    } else if ext == "json"@ {
        Some(ArtifactKind::Json)
    } else if ext == "yml"@ {
        Some(ArtifactKind::Yml)
    } else if ext == "yaml"@ {
        Some(ArtifactKind::Yaml)
    } else if ext == "txt"@ {
        Some(ArtifactKind::Txt)
    } else if ext == "log"@ {
        Some(ArtifactKind::Log)
    } else {
        None
    }
}

/// The kind that an extension stands for.
pub fn kind_for_extension(ext: &str) -> (r: Option<ArtifactKind>)
    ensures
        r == extension_kind(ext@),
{
    if *ext == *"exe" {
        Some(ArtifactKind::Exe)
    } else if *ext == *"dll" {
        Some(ArtifactKind::Dll)
    } else if *ext == *"sys" {
        Some(ArtifactKind::Sys)
    } else if *ext == *"scr" {
        Some(ArtifactKind::Scr)
    } else if *ext == *"ocx" {
        Some(ArtifactKind::Ocx)
    } else if *ext == *"cpl" {
        Some(ArtifactKind::Cpl)
    } else if *ext == *"msi" {
        Some(ArtifactKind::Msi)
    } else if *ext == *"jar" {
        Some(ArtifactKind::Jar)
    } else if *ext == *"zip" {
        Some(ArtifactKind::Zip)
    } else if *ext == *"rar" {
        Some(ArtifactKind::Rar)
    } else if *ext == *"7z" {
        Some(ArtifactKind::SevenZip)
    } else if *ext == *"cab" {
        Some(ArtifactKind::Cab)
    } else if *ext == *"iso" {
        Some(ArtifactKind::Iso)
    } else if *ext == *"tar" {
        Some(ArtifactKind::Tar)
    } else if *ext == *"gz" {
        Some(ArtifactKind::Gzip)
    } else if *ext == *"bz2" {
        Some(ArtifactKind::Bzip2)
    } else if *ext == *"xz" {
        Some(ArtifactKind::Xz)
    } else if *ext == *"apk" {
        Some(ArtifactKind::Apk)
    } else if *ext == *"pdf" {
        Some(ArtifactKind::Pdf)
    } else if *ext == *"png" {
        Some(ArtifactKind::Png)
    } else if *ext == *"jpg" || *ext == *"jpeg" {
        Some(ArtifactKind::Jpg)
    } else if *ext == *"gif" {
        Some(ArtifactKind::Gif)
    } else if *ext == *"sqlite" || *ext == *"sqlite3" || *ext == *"db" || *ext == *"db3" {
        Some(ArtifactKind::Sqlite)
    } else if *ext == *"pak" {
        Some(ArtifactKind::Pak)
    } else if *ext == *"bin" {
        Some(ArtifactKind::Bin)
    } else if *ext == *"dat" {
        Some(ArtifactKind::Dat)
    } else if *ext == *"bat" {
        Some(ArtifactKind::Bat)
    } else if *ext == *"cmd" {
        Some(ArtifactKind::Cmd)
    } else if *ext == *"ps1" {
        Some(ArtifactKind::Ps1)
    } else if *ext == *"vbs" {
        Some(ArtifactKind::Vbs)
    } else if *ext == *"js" {
        Some(ArtifactKind::Js)
    } else if *ext == *"ini" {
        Some(ArtifactKind::Ini)
    } else if *ext == *"cfg" {
        Some(ArtifactKind::Cfg)
    } else if *ext == *"json" {
        Some(ArtifactKind::Json)
    } else if *ext == *"yml" {
        Some(ArtifactKind::Yml)
    } else if *ext == *"yaml" {
        Some(ArtifactKind::Yaml)
    } else if *ext == *"txt" {
        Some(ArtifactKind::Txt)
    } else if *ext == *"log" {
        Some(ArtifactKind::Log)
    } else {
        None
    }
}

/// The lower-case extension of a file name: what follows its last dot.
pub open spec fn name_extension(name: Seq<char>) -> Seq<char> {
    match after_last(name, '.') {
        Some(ext) => ascii_lower(ext),
        None => seq![],
    }
}

/// The kind that a file name announces.
pub open spec fn name_kind(name: Seq<char>) -> Option<ArtifactKind> {
    extension_kind(name_extension(name))
}

// ---------------------------------------------------------------------------
// Signatures in the first bytes.

/// The marks by which file formats are told apart.
pub open spec fn mz_mark() -> Seq<u8> {
    seq![0x4du8, 0x5a]
}

pub open spec fn pe_mark() -> Seq<u8> {
    seq![0x50u8, 0x45, 0, 0]
}

pub open spec fn zip_mark() -> Seq<u8> {
    seq![0x50u8, 0x4b, 0x03, 0x04]
}

pub open spec fn seven_zip_mark() -> Seq<u8> {
    seq![0x37u8, 0x7a, 0xbc, 0xaf, 0x27, 0x1c]
}

pub open spec fn cab_mark() -> Seq<u8> {
    seq![0x4du8, 0x53, 0x43, 0x46]
}

pub open spec fn gzip_mark() -> Seq<u8> {
    seq![0x1fu8, 0x8b, 0x08]
}

pub open spec fn bzip2_mark() -> Seq<u8> {
    seq![0x42u8, 0x5a, 0x68]
}

pub open spec fn xz_mark() -> Seq<u8> {
    seq![0xfdu8, 0x37, 0x7a, 0x58, 0x5a, 0x00]
}

pub open spec fn pdf_mark() -> Seq<u8> {
    seq![0x25u8, 0x50, 0x44, 0x46, 0x2d]
}

pub open spec fn png_mark() -> Seq<u8> {
    seq![0x89u8, 0x50, 0x4e, 0x47, 0x0d, 0x0a, 0x1a, 0x0a]
}

pub open spec fn jpeg_mark() -> Seq<u8> {
    seq![0xffu8, 0xd8, 0xff]
}

pub open spec fn gif87_mark() -> Seq<u8> {
    seq![0x47u8, 0x49, 0x46, 0x38, 0x37, 0x61]
}

pub open spec fn gif89_mark() -> Seq<u8> {
    seq![0x47u8, 0x49, 0x46, 0x38, 0x39, 0x61]
}

pub open spec fn sqlite_mark() -> Seq<u8> {
    seq![
        0x53u8, 0x51, 0x4c, 0x69, 0x74, 0x65, 0x20, 0x66, 0x6f, 0x72, 0x6d, 0x61, 0x74, 0x20, 0x33, 0,
    ]
}

pub open spec fn ole_mark() -> Seq<u8> {
    seq![0xd0u8, 0xcf, 0x11, 0xe0, 0xa1, 0xb1, 0x1a, 0xe1]
}

/// The text `META-INF/MANIFEST.MF`, which a Java archive holds.
pub open spec fn jar_entry() -> Seq<u8> {
    seq![
        0x4du8, 0x45, 0x54, 0x41, 0x2d, 0x49, 0x4e, 0x46, 0x2f, 0x4d, 0x41, 0x4e, 0x49, 0x46, 0x45,
        0x53, 0x54, 0x2e, 0x4d, 0x46,
    ]
}

/// The text `AndroidManifest.xml`, which an Android package holds.
pub open spec fn apk_entry() -> Seq<u8> {
    seq![
        0x41u8, 0x6e, 0x64, 0x72, 0x6f, 0x69, 0x64, 0x4d, 0x61, 0x6e, 0x69, 0x66, 0x65, 0x73, 0x74,
        0x2e, 0x78, 0x6d, 0x6c,
    ]
}

/// A file starts with a mark.
pub open spec fn marked(s: Seq<u8>, mark: Seq<u8>) -> bool {
    occurs_at(s, mark, 0)
}

/// A POSIX or GNU tar header: its magic and a checksum of octal digits.
pub open spec fn tar_marked(s: Seq<u8>) -> bool {
    &&& s.len() >= 0x200
    &&& occurs_at(s, seq![0x75u8, 0x73, 0x74, 0x61, 0x72, 0], 0x101) || occurs_at(
        s,
        seq![0x75u8, 0x73, 0x74, 0x61, 0x72, 0x20, 0x20, 0],
        0x101,
    )
    &&& forall|i: int|
        148 <= i < 156 ==> #[trigger] s[i] == 0x20 || s[i] == 0 || 0x30 <= s[i] <= 0x37
}

/// The primary volume descriptor of ISO 9660.
pub open spec fn iso_marked(s: Seq<u8>) -> bool {
    occurs_at(s, seq![0x43u8, 0x44, 0x30, 0x30, 0x31], 0x8001)
}

/// Where the PE header of an `MZ` image stands, if it has one.
pub open spec fn pe_offset(s: Seq<u8>) -> Option<int> {
    if s.len() < 0x40 || !marked(s, mz_mark()) {
        None
    } else {
        let at = le32(s, 0x3c);
        if at + 24 <= s.len() && occurs_at(s, pe_mark(), at) {
            Some(at)
        } else {
            None
        }
    }
}

/// The kind of a PE image: a library by its characteristics, a driver by its subsystem.
pub open spec fn pe_kind(s: Seq<u8>) -> Option<ArtifactKind> {
    match pe_offset(s) {
        None => None,
        Some(at) => if (le16(s, at + 22) as u16) & 0x2000u16 != 0 {
            Some(ArtifactKind::Dll)
        } else if at + 96 <= s.len() && le16(s, at + 92) == 1 {
            Some(ArtifactKind::Sys)
        } else {
            Some(ArtifactKind::Exe)
        },
    }
}

/// The kind of a ZIP file by the entries that it holds.
pub open spec fn zip_kind(s: Seq<u8>) -> ArtifactKind {
    if occurs_in(s, jar_entry()) {
        ArtifactKind::Jar
    } else if occurs_in(s, apk_entry()) {
        ArtifactKind::Apk
    } else {
        ArtifactKind::Zip
    }
}

/// The UTF-16 form of an ASCII text, low byte first.
pub open spec fn wide(s: Seq<char>) -> Seq<u8> {
    Seq::new(
        2 * s.len(),
        |i: int|
            if i % 2 == 0 {
                s[i / 2] as u8
            } else {
                0u8
            },
    )
}

/// The kind of an OLE compound file: an installer names one of its tables.
pub open spec fn ole_kind(s: Seq<u8>) -> ArtifactKind {
    if occurs_in(s, wide("!_StringPool"@)) || occurs_in(s, wide("!_StringData"@)) || occurs_in(
        s,
        wide("!_Validation"@),
    ) || occurs_in(s, wide("MsiDigitalSignatureEx"@)) {
        ArtifactKind::Msi
    } else {
        ArtifactKind::OleCompound
    }
}

// ---------------------------------------------------------------------------
// Texts.

/// A byte that a plain text holds.
pub open spec fn printable(b: u8) -> bool {
    0x21 <= b <= 0x7e || b == 0x20 || b == 0x0d || b == 0x0a || b == 0x09
}

/// The bytes by which a text is recognised.
pub open spec fn text_sample(s: Seq<u8>) -> Seq<u8> {
    head(s, 8192)
}

/// Not empty, without zero bytes, and at least 92 of 100 bytes are printable.
pub open spec fn looks_textual(sample: Seq<u8>) -> bool {
    &&& sample.len() > 0
    &&& !sample.contains(0u8)
    &&& count_if(sample, |b: u8| printable(b)) * 25 >= sample.len() * 23
}

/// A line that opens with a bracket and holds a closing one.
pub open spec fn section_line(line: Seq<char>) -> bool {
    line.len() > 0 && line[0] == '[' && line.contains(']')
}

/// A line that opens with a bracket and holds an equals sign.
pub open spec fn bracket_value_line(line: Seq<char>) -> bool {
    line.len() > 0 && line[0] == '[' && line.contains('=')
}

/// A line that holds an equals sign.
pub open spec fn value_line(line: Seq<char>) -> bool {
    line.contains('=')
}

/// A line that opens with a declaration of JavaScript.
pub open spec fn script_line(line: Seq<char>) -> bool {
    "function "@.is_prefix_of(line) || "const "@.is_prefix_of(line) || "let "@.is_prefix_of(line)
}

/// A line with a colon that is no comment.
pub open spec fn mapping_line(line: Seq<char>) -> bool {
    let t = trimmed(line);
    t.len() > 0 && t[0] != '#' && !"//"@.is_prefix_of(t) && t.contains(':')
}

/// A text without byte order marks and leading white space.
pub open spec fn text_start(text: Seq<char>) -> Seq<char> {
    trimmed_start(strip_front(text, '\u{feff}'))
}

/// The kind that a text announces.
pub open spec fn text_kind(text: Seq<char>) -> ArtifactKind {
    let start = text_start(text);
    let lower = ascii_lower(start);
    let list = head(lines(lower), 24);
    let sections = count_if(list, |l: Seq<char>| section_line(l));
    let bracket_values = count_if(list, |l: Seq<char>| bracket_value_line(l));
    let values = count_if(list, |l: Seq<char>| value_line(l));
    let scripts = count_if(list, |l: Seq<char>| script_line(l));
    let mappings = count_if(list, |l: Seq<char>| mapping_line(l));
    if sections >= 1 && values >= 1 {
        ArtifactKind::Ini
    } else if start.len() > 0 && start[0] == '{' {
        ArtifactKind::Json
    } else if start.len() > 0 && start[0] == '[' && bracket_values == 0 {
        ArtifactKind::Json
    } else if "#!"@.is_prefix_of(lower) && occurs_in(lower, "powershell"@) {
        ArtifactKind::Ps1
    } else if "#!"@.is_prefix_of(lower) && (occurs_in(lower, "node"@) || occurs_in(
        lower,
        "deno"@,
    )) {
        ArtifactKind::Js
    } else if "@echo off"@.is_prefix_of(lower) {
        ArtifactKind::Cmd
    } else if scripts >= 1 {
        ArtifactKind::Js
    } else if values >= 2 {
        ArtifactKind::Cfg
    } else if mappings >= 2 {
        ArtifactKind::Yml
    } else {
        ArtifactKind::Txt
    }
}

/// What `String::from_utf8_lossy` makes of bytes that are not UTF-8.
pub uninterp spec fn utf8_replaced(bytes: Seq<u8>) -> Seq<char>;

/// The text of bytes, with replacement characters for what is not UTF-8.
pub open spec fn utf8_lossy(bytes: Seq<u8>) -> Seq<char> {
    if valid_utf8(bytes) {
        decode_utf8(bytes)
    } else {
        utf8_replaced(bytes)
    }
}

/// `String::from_utf8_lossy`: bytes that are valid UTF-8 keep their characters, anything
/// else is shown by replacement characters.
#[verifier::external_body]
pub(crate) fn decode_utf8_lossy(bytes: &[u8]) -> (r: String)
    ensures
        r@ == if valid_utf8(bytes@) {
            decode_utf8(bytes@)
        } else {
            utf8_replaced(bytes@)
        },
{
    String::from_utf8_lossy(bytes).into_owned()
}

/// The kind of a file that looks like text.
pub open spec fn textual_kind(s: Seq<u8>) -> Option<ArtifactKind> {
    let sample = text_sample(s);
    if looks_textual(sample) {
        Some(text_kind(utf8_lossy(sample)))
    } else {
        None
    }
}

/// The kind that the first bytes of a file announce.
pub open spec fn signature_kind(s: Seq<u8>) -> Option<ArtifactKind> {
    if marked(s, mz_mark()) {
        match pe_kind(s) {
            Some(kind) => Some(kind),
            None => Some(ArtifactKind::Pe),
        }
    } else if marked(s, zip_mark()) {
        Some(zip_kind(s))
    } else if marked(s, seven_zip_mark()) {
        Some(ArtifactKind::SevenZip)
    } else if marked(s, cab_mark()) {
        Some(ArtifactKind::Cab)
    } else if marked(s, gzip_mark()) {
        Some(ArtifactKind::Gzip)
    } else if marked(s, bzip2_mark()) {
        Some(ArtifactKind::Bzip2)
    } else if marked(s, xz_mark()) {
        Some(ArtifactKind::Xz)
    } else if marked(s, pdf_mark()) {
        Some(ArtifactKind::Pdf)
    } else if marked(s, png_mark()) {
        Some(ArtifactKind::Png)
    } else if marked(s, jpeg_mark()) {
        Some(ArtifactKind::Jpg)
    } else if marked(s, gif87_mark()) || marked(s, gif89_mark()) {
        Some(ArtifactKind::Gif)
    } else if marked(s, sqlite_mark()) {
        Some(ArtifactKind::Sqlite)
    } else if tar_marked(s) {
        Some(ArtifactKind::Tar)
    } else if iso_marked(s) {
        Some(ArtifactKind::Iso)
    } else if marked(s, ole_mark()) {
        Some(ole_kind(s))
    } else {
        textual_kind(s)
    }
}

/// An extension that says little about the content.
pub open spec fn weak_extension(kind: ArtifactKind) -> bool {
    match kind {
        ArtifactKind::Bin | ArtifactKind::Dat | ArtifactKind::Pak | ArtifactKind::Txt
        | ArtifactKind::Log | ArtifactKind::Ini | ArtifactKind::Cfg | ArtifactKind::Json
        | ArtifactKind::Yml | ArtifactKind::Yaml => true,
        _ => false,
    }
}

/// The kind of a file whose name and content were both looked at.
pub open spec fn resolved_kind(
    by_ext: Option<ArtifactKind>,
    by_signature: ArtifactKind,
) -> ArtifactKind {
    match by_ext {
        None => by_signature,
        Some(ext) => if weak_extension(ext) {
            by_signature
        } else if ext == ArtifactKind::Zip && (by_signature == ArtifactKind::Jar || by_signature
            == ArtifactKind::Apk) {
            by_signature
        } else if ext == ArtifactKind::OleCompound && by_signature == ArtifactKind::Msi {
            by_signature
        } else {
            ext
        },
    }
}

/// The kind of a file by its name and, where they are known, its first bytes.
pub open spec fn inferred_kind(name: Seq<char>, hint: Option<Seq<u8>>) -> ArtifactKind {
    let by_ext = name_kind(name);
    let by_signature = match hint {
        Some(bytes) => signature_kind(bytes),
        None => None,
    };
    match by_signature {
        Some(kind) => resolved_kind(by_ext, kind),
        None => match by_ext {
            Some(kind) => kind,
            None => ArtifactKind::Unknown,
        },
    }
}

// ---------------------------------------------------------------------------
// The code.

/// The lower-case extension of a file name.
pub fn extension_of(name: &str) -> (r: String)
    ensures
        r@ == name_extension(name@),
{
    match rsplit_after(name, '.') {
        Some(ext) => to_ascii_lowercase(ext.as_str()),
        None => String::new(),
    }
}

fn is_gif_signature(bytes: &[u8]) -> (r: bool)
    ensures
        r == (marked(bytes@, gif87_mark()) || marked(bytes@, gif89_mark())),
{
    starts_with(bytes, &[0x47, 0x49, 0x46, 0x38, 0x37, 0x61]) || starts_with(
        bytes,
        &[0x47, 0x49, 0x46, 0x38, 0x39, 0x61],
    )
}

fn is_tar_signature(bytes: &[u8]) -> (r: bool)
    ensures
        r == tar_marked(bytes@),
{
    if bytes.len() < 0x200 {
        return false;
    }
    if !matches_at(bytes, &[0x75, 0x73, 0x74, 0x61, 0x72, 0], 0x101) && !matches_at(
        bytes,
        &[0x75, 0x73, 0x74, 0x61, 0x72, 0x20, 0x20, 0],
        0x101,
    ) {
        return false;
    }
    let mut i: usize = 148;
    while i < 156
        invariant
            148 <= i <= 156,
            bytes@.len() >= 0x200,
            forall|j: int|
                148 <= j < i ==> #[trigger] bytes@[j] == 0x20 || bytes@[j] == 0 || 0x30 <= bytes@[j]
                    <= 0x37,
        decreases 156 - i,
    {
        let b: u8 = bytes[i];
        if !(b == 0x20 || b == 0 || (0x30 <= b && b <= 0x37)) {
            return false;
        }
        i += 1;
    }
    true
}

fn is_iso_signature(bytes: &[u8]) -> (r: bool)
    ensures
        r == iso_marked(bytes@),
{
    matches_at(bytes, &[0x43, 0x44, 0x30, 0x30, 0x31], 0x8001)
}

/// Where the PE header of an `MZ` image stands.
pub fn find_pe_header(bytes: &[u8]) -> (r: Option<usize>)
    ensures
        match r {
            Some(at) => pe_offset(bytes@) == Some(at as int) && at + 24 <= bytes@.len() && at
                <= u32::MAX,
            None => pe_offset(bytes@) is None,
        },
{
    if bytes.len() < 0x40 || !starts_with(bytes, &[0x4d, 0x5a]) {
        return None;
    }
    let at: u64 = read_le32(bytes, 0x3c) as u64;
    if (bytes.len() as u64) < at + 24 {
        return None;
    }
    if matches_at(bytes, &[0x50, 0x45, 0, 0], at as usize) {
        Some(at as usize)
    } else {
        None
    }
}

fn infer_pe_kind(bytes: &[u8]) -> (r: Option<ArtifactKind>)
    ensures
        r == pe_kind(bytes@),
{
    match find_pe_header(bytes) {
        None => None,
        Some(at) => {
            let n: usize = bytes.len();
            let characteristics: u16 = read_le16(bytes, at + 22);
            if characteristics & 0x2000 != 0 {
                return Some(ArtifactKind::Dll);
            }
            if n - at >= 96 && read_le16(bytes, at + 92) == 1 {
                Some(ArtifactKind::Sys)
            } else {
                Some(ArtifactKind::Exe)
            }
        },
    }
}

/// The kind of a ZIP file by the entries that it holds.
pub fn infer_zip_kind(bytes: &[u8]) -> (r: ArtifactKind)
    ensures
        r == zip_kind(bytes@),
{
    if contains(
        bytes,
        &[
            0x4d, 0x45, 0x54, 0x41, 0x2d, 0x49, 0x4e, 0x46, 0x2f, 0x4d, 0x41, 0x4e, 0x49, 0x46,
            0x45, 0x53, 0x54, 0x2e, 0x4d, 0x46,
        ],
    ) {
        ArtifactKind::Jar
    } else if contains(
        bytes,
        &[
            0x41, 0x6e, 0x64, 0x72, 0x6f, 0x69, 0x64, 0x4d, 0x61, 0x6e, 0x69, 0x66, 0x65, 0x73,
            0x74, 0x2e, 0x78, 0x6d, 0x6c,
        ],
    ) {
        ArtifactKind::Apk
    } else {
        ArtifactKind::Zip
    }
}

/// Whether the UTF-16 form of an ASCII text stands in `haystack`.
fn utf16le_contains(haystack: &[u8], needle: &str) -> (r: bool)
    requires
        forall|i: int| 0 <= i < needle@.len() ==> (#[trigger] needle@[i] as u32) < 128,
    ensures
        r == occurs_in(haystack@, wide(needle@)),
{
    let chars = chars_of(needle);
    let mut encoded: Vec<u8> = Vec::new();
    let mut i: usize = 0;
    while i < chars.len()
        invariant
            i <= chars@.len(),
            chars@ == needle@,
            encoded@ == wide(needle@).subrange(0, 2 * i),
            forall|i: int| 0 <= i < needle@.len() ==> (#[trigger] needle@[i] as u32) < 128,
        decreases chars@.len() - i,
    {
        let c = chars[i];
        assert((needle@[i as int] as u32) < 128);
        encoded.push(c as u8);
        encoded.push(0);
        proof {
            let w = wide(needle@);
            assert(w[2 * i] == c as u8) by {
                assert((2 * i) % 2 == 0 && (2 * i) / 2 == i);
            }
            assert(w[2 * i + 1] == 0) by {
                assert((2 * i + 1) % 2 == 1);
            }
            assert(encoded@ =~= w.subrange(0, 2 * (i + 1)));
        }
        i += 1;
    }
    assert(encoded@ =~= wide(needle@));
    contains(haystack, encoded.as_slice())
}

fn infer_ole_kind(bytes: &[u8]) -> (r: ArtifactKind)
    ensures
        r == ole_kind(bytes@),
{
    proof {
        reveal_strlit("!_StringPool");
        reveal_strlit("!_StringData");
        reveal_strlit("!_Validation");
        reveal_strlit("MsiDigitalSignatureEx");
    }
    if utf16le_contains(bytes, "!_StringPool") || utf16le_contains(bytes, "!_StringData")
        || utf16le_contains(bytes, "!_Validation") || utf16le_contains(
        bytes,
        "MsiDigitalSignatureEx",
    ) {
        ArtifactKind::Msi
    } else {
        ArtifactKind::OleCompound
    }
}

/// Whether a sample looks like text.
fn sample_looks_textual(sample: &Vec<u8>) -> (r: bool)
    requires
        sample@.len() <= 8192,
    ensures
        r == looks_textual(sample@),
{
    if sample.len() == 0 {
        return false;
    }
    let mut count: usize = 0;
    let mut i: usize = 0;
    let ghost f = |b: u8| printable(b);
    while i < sample.len()
        invariant
            i <= sample@.len() <= 8192,
            count <= i,
            f == |b: u8| printable(b),
            count == count_if(sample@.subrange(0, i as int), f),
            forall|j: int| 0 <= j < i ==> sample@[j] != 0,
        decreases sample@.len() - i,
    {
        let b: u8 = sample[i];
        if b == 0 {
            assert(sample@[i as int] == 0u8);
            return false;
        }
        assert(sample@.subrange(0, i + 1).drop_last() =~= sample@.subrange(0, i as int));
        if (0x21 <= b && b <= 0x7e) || b == 0x20 || b == 0x0d || b == 0x0a || b == 0x09 {
            count += 1;
        }
        i += 1;
    }
    assert(sample@.subrange(0, i as int) =~= sample@);
    count * 25 >= sample.len() * 23
}

/// The kind that a text announces.
pub fn kind_of_text(text: &str) -> (r: ArtifactKind)
    ensures
        r == text_kind(text@),
{
    let unmarked = trim_start_char(text, '\u{feff}');
    let start = trim_start(unmarked.as_str());
    let lower = to_ascii_lowercase(start.as_str());
    let list = split_lines(lower.as_str());
    let sections_test = |s: &str| -> (b: bool)
        ensures
            b == section_line(s@),
        { starts_with_char(s, '[') && has_char(s, ']') };
    let sections: usize = count_strings(&list, 24, sections_test, Ghost(|l: Seq<char>| section_line(l)));
    let values_test = |s: &str| -> (b: bool)
        ensures
            b == value_line(s@),
        { has_char(s, '=') };
    let values: usize = count_strings(&list, 24, values_test, Ghost(|l: Seq<char>| value_line(l)));
    if sections >= 1 && values >= 1 {
        return ArtifactKind::Ini;
    }
    if starts_with_char(start.as_str(), '{') {
        return ArtifactKind::Json;
    }
    let bracket_values_test = |s: &str| -> (b: bool)
        ensures
            b == bracket_value_line(s@),
        { starts_with_char(s, '[') && has_char(s, '=') };
    let bracket_values: usize = count_strings(&list, 24, bracket_values_test, Ghost(|l: Seq<char>| bracket_value_line(l)));
    if starts_with_char(start.as_str(), '[') && bracket_values == 0 {
        return ArtifactKind::Json;
    }
    if has_prefix(lower.as_str(), "#!") {
        if has_substring(lower.as_str(), "powershell") {
            return ArtifactKind::Ps1;
        }
        if has_substring(lower.as_str(), "node") || has_substring(lower.as_str(), "deno") {
            return ArtifactKind::Js;
        }
    }
    if has_prefix(lower.as_str(), "@echo off") {
        return ArtifactKind::Cmd;
    }
    let scripts_test = |s: &str| -> (b: bool)
        ensures
            b == script_line(s@),
        { has_prefix(s, "function ") || has_prefix(s, "const ") || has_prefix(s, "let ") };
    let scripts: usize = count_strings(&list, 24, scripts_test, Ghost(|l: Seq<char>| script_line(l)));
    if scripts >= 1 {
        return ArtifactKind::Js;
    }
    if values >= 2 {
        return ArtifactKind::Cfg;
    }
    let mappings_test = |s: &str| -> (b: bool)
        ensures
            b == mapping_line(s@),
        {
            let t = trim(s);
            let chars = chars_of(t.as_str());
            chars.len() > 0 && chars[0] != '#' && !has_prefix(t.as_str(), "//") && has_char(
                t.as_str(),
                ':',
            )
        };
    let mappings: usize = count_strings(&list, 24, mappings_test, Ghost(|l: Seq<char>| mapping_line(l)));
    if mappings >= 2 {
        return ArtifactKind::Yml;
    }
    ArtifactKind::Txt
}

/// The kind of a file that looks like text.
fn infer_textual_artifact_kind(bytes: &[u8]) -> (r: Option<ArtifactKind>)
    ensures
        r == textual_kind(bytes@),
{
    let n: usize = if bytes.len() < 8192 {
        bytes.len()
    } else {
        8192
    };
    let sample = slice_to_vec(bytes, 0, n);
    if !sample_looks_textual(&sample) {
        return None;
    }
    let text = decode_utf8_lossy(sample.as_slice());
    Some(kind_of_text(text.as_str()))
}

/// The kind that the first bytes of a file announce.
pub fn infer_artifact_kind_from_signature(bytes: &[u8]) -> (r: Option<ArtifactKind>)
    ensures
        r == signature_kind(bytes@),
{
    if starts_with(bytes, &[0x4d, 0x5a]) {
        return match infer_pe_kind(bytes) {
            Some(kind) => Some(kind),
            None => Some(ArtifactKind::Pe),
        };
    }
    if starts_with(bytes, &[0x50, 0x4b, 0x03, 0x04]) {
        return Some(infer_zip_kind(bytes));
    }
    if starts_with(bytes, &[0x37, 0x7a, 0xbc, 0xaf, 0x27, 0x1c]) {
        return Some(ArtifactKind::SevenZip);
    }
    if starts_with(bytes, &[0x4d, 0x53, 0x43, 0x46]) {
        return Some(ArtifactKind::Cab);
    }
    if starts_with(bytes, &[0x1f, 0x8b, 0x08]) {
        return Some(ArtifactKind::Gzip);
    }
    if starts_with(bytes, &[0x42, 0x5a, 0x68]) {
        return Some(ArtifactKind::Bzip2);
    }
    if starts_with(bytes, &[0xfd, 0x37, 0x7a, 0x58, 0x5a, 0x00]) {
        return Some(ArtifactKind::Xz);
    }
    if starts_with(bytes, &[0x25, 0x50, 0x44, 0x46, 0x2d]) {
        return Some(ArtifactKind::Pdf);
    }
    if starts_with(bytes, &[0x89, 0x50, 0x4e, 0x47, 0x0d, 0x0a, 0x1a, 0x0a]) {
        return Some(ArtifactKind::Png);
    }
    if starts_with(bytes, &[0xff, 0xd8, 0xff]) {
        return Some(ArtifactKind::Jpg);
    }
    if is_gif_signature(bytes) {
        return Some(ArtifactKind::Gif);
    }
    if starts_with(
        bytes,
        &[
            0x53, 0x51, 0x4c, 0x69, 0x74, 0x65, 0x20, 0x66, 0x6f, 0x72, 0x6d, 0x61, 0x74, 0x20,
            0x33, 0,
        ],
    ) {
        return Some(ArtifactKind::Sqlite);
    }
    if is_tar_signature(bytes) {
        return Some(ArtifactKind::Tar);
    }
    if is_iso_signature(bytes) {
        return Some(ArtifactKind::Iso);
    }
    if starts_with(bytes, &[0xd0, 0xcf, 0x11, 0xe0, 0xa1, 0xb1, 0x1a, 0xe1]) {
        return Some(infer_ole_kind(bytes));
    }
    infer_textual_artifact_kind(bytes)
}

/// The kind of a file whose name and content were both looked at.
pub fn resolve_kind_conflict(by_ext: Option<ArtifactKind>, by_signature: ArtifactKind) -> (r:
    ArtifactKind)
    ensures
        r == resolved_kind(by_ext, by_signature),
{
    match by_ext {
        None => by_signature,
        Some(ext) => {
            if matches!(
                ext,
                ArtifactKind::Bin | ArtifactKind::Dat | ArtifactKind::Pak | ArtifactKind::Txt
                | ArtifactKind::Log | ArtifactKind::Ini | ArtifactKind::Cfg | ArtifactKind::Json
                | ArtifactKind::Yml | ArtifactKind::Yaml
            ) {
                by_signature
            } else if (ext == ArtifactKind::Zip && (by_signature == ArtifactKind::Jar
                || by_signature == ArtifactKind::Apk)) || (ext == ArtifactKind::OleCompound
                && by_signature == ArtifactKind::Msi) {
                by_signature
            } else {
                ext
            }
        },
    }
}

/// The bytes of a hint, if there is one.
pub open spec fn hint_view(hint: Option<&[u8]>) -> Option<Seq<u8>> {
    match hint {
        Some(bytes) => Some(bytes@),
        None => None,
    }
}

/// The kind of a file by its name and, where they are known, its first bytes.
pub fn infer_artifact_kind(name: &str, signature_hint: Option<&[u8]>) -> (r: ArtifactKind)
    ensures
        r == inferred_kind(name@, hint_view(signature_hint)),
{
    let ext = extension_of(name);
    let by_ext = kind_for_extension(ext.as_str());
    if let Some(bytes) = signature_hint {
        if let Some(by_signature) = infer_artifact_kind_from_signature(bytes) {
            return resolve_kind_conflict(by_ext, by_signature);
        }
    }
    match by_ext {
        Some(kind) => kind,
        None => ArtifactKind::Unknown,
    }
}

/// The kind of a file by its first bytes alone.
pub fn infer_artifact_kind_from_bytes(bytes: &[u8]) -> (r: ArtifactKind)
    ensures
        r == match signature_kind(bytes@) {
            Some(kind) => kind,
            None => ArtifactKind::Unknown,
        },
{
    match infer_artifact_kind_from_signature(bytes) {
        Some(kind) => kind,
        None => ArtifactKind::Unknown,
    }
}

// ---------------------------------------------------------------------------
// The names of kinds.

/// The name of a kind in lower case.
pub open spec fn kind_label(kind: ArtifactKind) -> Seq<char> {
    match kind {
        ArtifactKind::Exe => "exe"@,
        ArtifactKind::Dll => "dll"@,
        ArtifactKind::Sys => "sys"@,
        ArtifactKind::Scr => "scr"@,
        ArtifactKind::Ocx => "ocx"@,
        ArtifactKind::Cpl => "cpl"@,
        ArtifactKind::Msi => "msi"@,
        ArtifactKind::Jar => "jar"@,
        ArtifactKind::Zip => "zip"@,
        ArtifactKind::Rar => "rar"@,
        ArtifactKind::SevenZip => "sevenzip"@,
        ArtifactKind::Cab => "cab"@,
        ArtifactKind::Iso => "iso"@,
        ArtifactKind::Tar => "tar"@,
        ArtifactKind::Gzip => "gzip"@,
        ArtifactKind::Bzip2 => "bzip2"@,
        ArtifactKind::Xz => "xz"@,
        ArtifactKind::Apk => "apk"@,
        ArtifactKind::Pdf => "pdf"@,
        ArtifactKind::Png => "png"@,
        ArtifactKind::Jpg => "jpg"@,
        ArtifactKind::Gif => "gif"@,
        ArtifactKind::Sqlite => "sqlite"@,
        ArtifactKind::Pak => "pak"@,
        ArtifactKind::Bin => "bin"@,
        ArtifactKind::Dat => "dat"@,
        ArtifactKind::Bat => "bat"@,
        ArtifactKind::Cmd => "cmd"@,
        ArtifactKind::Ps1 => "ps1"@,
        ArtifactKind::Vbs => "vbs"@,
        ArtifactKind::Js => "js"@,
        ArtifactKind::Ini => "ini"@,
        ArtifactKind::Cfg => "cfg"@,
        ArtifactKind::Json => "json"@,
        ArtifactKind::Yml => "yml"@,
        ArtifactKind::Yaml => "yaml"@,
        ArtifactKind::Txt => "txt"@,
        ArtifactKind::Log => "log"@,
        ArtifactKind::OleCompound => "olecompound"@,
        ArtifactKind::Pe => "pe"@,
        ArtifactKind::Unknown => "unknown"@,
    }
}

/// The name of a kind in lower case.
pub fn kind_name(kind: ArtifactKind) -> (r: &'static str)
    ensures
        r@ == kind_label(kind),
{
    match kind {
        ArtifactKind::Exe => "exe",
        ArtifactKind::Dll => "dll",
        ArtifactKind::Sys => "sys",
        ArtifactKind::Scr => "scr",
        ArtifactKind::Ocx => "ocx",
        ArtifactKind::Cpl => "cpl",
        ArtifactKind::Msi => "msi",
        ArtifactKind::Jar => "jar",
        ArtifactKind::Zip => "zip",
        ArtifactKind::Rar => "rar",
        ArtifactKind::SevenZip => "sevenzip",
        ArtifactKind::Cab => "cab",
        ArtifactKind::Iso => "iso",
        ArtifactKind::Tar => "tar",
        ArtifactKind::Gzip => "gzip",
        ArtifactKind::Bzip2 => "bzip2",
        ArtifactKind::Xz => "xz",
        ArtifactKind::Apk => "apk",
        ArtifactKind::Pdf => "pdf",
        ArtifactKind::Png => "png",
        ArtifactKind::Jpg => "jpg",
        ArtifactKind::Gif => "gif",
        ArtifactKind::Sqlite => "sqlite",
        ArtifactKind::Pak => "pak",
        ArtifactKind::Bin => "bin",
        ArtifactKind::Dat => "dat",
        ArtifactKind::Bat => "bat",
        ArtifactKind::Cmd => "cmd",
        ArtifactKind::Ps1 => "ps1",
        ArtifactKind::Vbs => "vbs",
        ArtifactKind::Js => "js",
        ArtifactKind::Ini => "ini",
        ArtifactKind::Cfg => "cfg",
        ArtifactKind::Json => "json",
        ArtifactKind::Yml => "yml",
        ArtifactKind::Yaml => "yaml",
        ArtifactKind::Txt => "txt",
        ArtifactKind::Log => "log",
        ArtifactKind::OleCompound => "olecompound",
        ArtifactKind::Pe => "pe",
        ArtifactKind::Unknown => "unknown",
    }
}

// ---------------------------------------------------------------------------
// Records.

pub open spec fn is_lower_hex(c: char) -> bool {
    '0' <= c <= '9' || 'a' <= c <= 'f'
}

/// A hyphen stands behind the 8th, the 12th, the 16th and the 20th digit of an id.
pub open spec fn is_hyphen_place(i: int) -> bool {
    i == 8 || i == 13 || i == 18 || i == 23
}

/// The form of an id: 32 lower-case hexadecimal digits in five groups that hyphens part. The
/// third group starts with the version, 7, and the fourth with the variant, whose two upper
/// bits are 1 and 0.
pub open spec fn is_scan_id(id: Seq<char>) -> bool {
    &&& id.len() == 36
    &&& forall|i: int|
        0 <= i < 36 ==> if is_hyphen_place(i) {
            #[trigger] id[i] == '-'
        } else {
            is_lower_hex(id[i])
        }
    &&& id[14] == '7'
    &&& id[19] == '8' || id[19] == '9' || id[19] == 'a' || id[19] == 'b'
}

/// `uuid::Uuid::now_v7`, printed as `Display` does, in lower case and with hyphens. The digits
/// beside the version and the variant come from the clock and from random bits: of those
/// nothing is promised, nor that two calls give two ids.
#[verifier::external_body]
pub fn new_scan_id() -> (r: String)
    ensures
        is_scan_id(r@),
{
    uuid::Uuid::now_v7().to_string()
}

/// The record of a file of which only the name is known.
pub open spec fn is_fresh_record(
    r: ArtifactRecord,
    scan_id: Seq<char>,
    source_id: Seq<char>,
    name: Seq<char>,
) -> bool {
    let kind = inferred_kind(name, None);
    &&& r.scan_id@ == scan_id
    &&& r.source_id@ == source_id
    &&& r.name@ == name
    &&& r.original_path is None
    &&& r.probable_path is None
    &&& r.placement_kind == PlacementKind::UnknownParent
    &&& r.path_confidence == PathConfidence::Unknown
    &&& r.path_evidence@.len() == 0
    &&& r.name_source == if "deleted_record_"@.is_prefix_of(name) {
        NameSourceKind::Generated
    } else {
        NameSourceKind::LongName
    }
    &&& r.content_source == ContentSourceKind::Unknown
    &&& r.artifact_class == ArtifactClass::NamedMetadataCandidate
    &&& !r.preview_ready
    &&& !r.is_fragment
    &&& r.fragment_id is None
    &&& r.extension is None
    &&& r.kind == kind
    &&& r.family == family_of(kind)
    &&& r.origin_type == OriginType::FilesystemDeletedEntry
    &&& r.confidence == Confidence::Medium
    &&& r.recoverability == Recoverability::Unknown
    &&& r.deleted_entry
    &&& r.size == 0
    &&& r.priority_score == family_score(family_of(kind))
    &&& r.filesystem_record is None
    &&& r.parent_reference is None
    &&& r.raw_offset is None
    &&& r.raw_length is None
    &&& r.created_at is None
    &&& r.modified_at is None
    &&& r.deleted_at is None
    &&& r.deleted_time_source is None
    &&& r.deleted_time_confidence == DeletedTimeConfidence::Unknown
    &&& r.last_metadata_change_at is None
    &&& r.notes@.len() == 0
    &&& r.preview@.len() == 0
    &&& r.recovery_plan matches RecoveryPlan::Unrecoverable { reason } && reason@
        == "No recovery plan assigned"@
}

impl ArtifactRecord {
    /// The record with a given id of a file of which only the name is known.
    pub fn with_id(id: String, scan_id: &str, source_id: &str, name: &str) -> (r: Self)
        ensures
            r.id@ == id@,
            is_fresh_record(r, scan_id@, source_id@, name@),
    {
        let kind = infer_artifact_kind(name, None);
        let generated_name = has_prefix(name, "deleted_record_");
        ArtifactRecord {
            id,
            scan_id: owned(scan_id),
            source_id: owned(source_id),
            name: owned(name),
            original_path: None,
            probable_path: None,
            placement_kind: PlacementKind::UnknownParent,
            path_confidence: PathConfidence::Unknown,
            path_evidence: Vec::new(),
            name_source: if generated_name {
                NameSourceKind::Generated
            } else {
                NameSourceKind::LongName
            },
            content_source: ContentSourceKind::Unknown,
            artifact_class: ArtifactClass::NamedMetadataCandidate,
            preview_ready: false,
            is_fragment: false,
            fragment_id: None,
            extension: None,
            family: kind.family(),
            kind,
            origin_type: OriginType::FilesystemDeletedEntry,
            confidence: Confidence::Medium,
            recoverability: Recoverability::Unknown,
            deleted_entry: true,
            size: 0,
            priority_score: kind.priority_score(),
            filesystem_record: None,
            parent_reference: None,
            raw_offset: None,
            raw_length: None,
            created_at: None,
            modified_at: None,
            deleted_at: None,
            deleted_time_source: None,
            deleted_time_confidence: DeletedTimeConfidence::Unknown,
            last_metadata_change_at: None,
            notes: Vec::new(),
            preview: Vec::new(),
            recovery_plan: RecoveryPlan::Unrecoverable {
                reason: owned("No recovery plan assigned"),
            },
        }
    }

    /// The record, with an id of its own, of a file of which only the name is known.
    pub fn new(scan_id: &str, source_id: &str, name: &str) -> (r: Self)
        ensures
            is_scan_id(r.id@),
            is_fresh_record(r, scan_id@, source_id@, name@),
    {
        ArtifactRecord::with_id(new_scan_id(), scan_id, source_id, name)
    }
}

// ---------------------------------------------------------------------------
// Laws.

/// The content decides over an extension that says little, and refines a ZIP extension;
/// any other extension decides over the content.
pub proof fn lemma_content_decides_over_weak_extension(
    ext: ArtifactKind,
    by_signature: ArtifactKind,
)
    ensures
        weak_extension(ext) ==> resolved_kind(Some(ext), by_signature) == by_signature,
        resolved_kind(Some(ArtifactKind::Zip), ArtifactKind::Jar) == ArtifactKind::Jar,
        resolved_kind(Some(ArtifactKind::Zip), ArtifactKind::Apk) == ArtifactKind::Apk,
        !weak_extension(ext) && ext != ArtifactKind::Zip && ext != ArtifactKind::OleCompound
            ==> resolved_kind(Some(ext), by_signature) == ext,
{
}

/// No content alone gives a RAR archive: a file is one by its name.
pub proof fn lemma_rar_by_name_alone(name: Seq<char>, content: Seq<u8>)
    ensures
        signature_kind(content) != Some(ArtifactKind::Rar),
        inferred_kind(name, Some(content)) == ArtifactKind::Rar ==> name_kind(name) == Some(
            ArtifactKind::Rar,
        ),
{
}

} // verus!
