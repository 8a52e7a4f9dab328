//! What the kinds of files mean, told of names and of the bytes that formats start with.

use crate::bytes::{laid_at, le_bytes, lemma_le16_reads_back, lemma_le32_reads_back, occurs_in};
use crate::carver::carved_extension;
use crate::kinds::{
    apk_entry, extension_kind, inferred_kind, jar_entry, marked, name_extension, name_kind,
    pe_offset, signature_kind, zip_kind,
};
use crate::model::{family_of, ArtifactFamily, ArtifactKind};
use crate::ntfs_records::default_extension;
use crate::text::{ascii_lower, lemma_last_index};
use vstd::prelude::*;
use vstd::string::*;

verus! {

// ---------------------------------------------------------------------------
// Names.

spec fn char_code(s: Seq<char>, i: int) -> int {
    if i < s.len() {
        s[i] as int
    } else {
        0
    }
}

/// A number that tells the extensions apart: their length and their first characters.
spec fn code_of(s: Seq<char>) -> int {
    s.len() * 0x100_0000_0000 + char_code(s, 0) + char_code(s, 1) * 0x100 + char_code(s, 2) * 0x1_0000
        + char_code(s, 3) * 0x100_0000
}

/// Each extension stands for the kind of the files that bear it.
pub proof fn lemma_extensions_stand_for_kinds()
    ensures
        extension_kind("exe"@) == Some(ArtifactKind::Exe),
        extension_kind("dll"@) == Some(ArtifactKind::Dll),
        extension_kind("sys"@) == Some(ArtifactKind::Sys),
        extension_kind("scr"@) == Some(ArtifactKind::Scr),
        extension_kind("ocx"@) == Some(ArtifactKind::Ocx),
        extension_kind("cpl"@) == Some(ArtifactKind::Cpl),
        extension_kind("msi"@) == Some(ArtifactKind::Msi),
        extension_kind("jar"@) == Some(ArtifactKind::Jar),
        extension_kind("zip"@) == Some(ArtifactKind::Zip),
        extension_kind("rar"@) == Some(ArtifactKind::Rar),
        extension_kind("7z"@) == Some(ArtifactKind::SevenZip),
        extension_kind("cab"@) == Some(ArtifactKind::Cab),
        extension_kind("iso"@) == Some(ArtifactKind::Iso),
        extension_kind("tar"@) == Some(ArtifactKind::Tar),
        extension_kind("gz"@) == Some(ArtifactKind::Gzip),
        extension_kind("bz2"@) == Some(ArtifactKind::Bzip2),
        extension_kind("xz"@) == Some(ArtifactKind::Xz),
        extension_kind("apk"@) == Some(ArtifactKind::Apk),
        extension_kind("pdf"@) == Some(ArtifactKind::Pdf),
        extension_kind("png"@) == Some(ArtifactKind::Png),
        extension_kind("jpg"@) == Some(ArtifactKind::Jpg),
        extension_kind("jpeg"@) == Some(ArtifactKind::Jpg),
        extension_kind("gif"@) == Some(ArtifactKind::Gif),
        extension_kind("sqlite"@) == Some(ArtifactKind::Sqlite),
        extension_kind("sqlite3"@) == Some(ArtifactKind::Sqlite),
        extension_kind("db"@) == Some(ArtifactKind::Sqlite),
        extension_kind("db3"@) == Some(ArtifactKind::Sqlite),
        extension_kind("pak"@) == Some(ArtifactKind::Pak),
        extension_kind("bin"@) == Some(ArtifactKind::Bin),
        extension_kind("dat"@) == Some(ArtifactKind::Dat),
        extension_kind("bat"@) == Some(ArtifactKind::Bat),
        extension_kind("cmd"@) == Some(ArtifactKind::Cmd),
        extension_kind("ps1"@) == Some(ArtifactKind::Ps1),
        extension_kind("vbs"@) == Some(ArtifactKind::Vbs),
        extension_kind("js"@) == Some(ArtifactKind::Js),
        extension_kind("ini"@) == Some(ArtifactKind::Ini),
        extension_kind("cfg"@) == Some(ArtifactKind::Cfg),
        extension_kind("json"@) == Some(ArtifactKind::Json),
        extension_kind("yml"@) == Some(ArtifactKind::Yml),
        extension_kind("yaml"@) == Some(ArtifactKind::Yaml),
        extension_kind("txt"@) == Some(ArtifactKind::Txt),
        extension_kind("log"@) == Some(ArtifactKind::Log),
        extension_kind("ole"@) is None,
{
    reveal_strlit("exe");
    reveal_strlit("dll");
    reveal_strlit("sys");
    reveal_strlit("scr");
    reveal_strlit("ocx");
    reveal_strlit("cpl");
    reveal_strlit("msi");
    reveal_strlit("jar");
    reveal_strlit("zip");
    reveal_strlit("rar");
    reveal_strlit("7z");
    reveal_strlit("cab");
    reveal_strlit("iso");
    reveal_strlit("tar");
    reveal_strlit("gz");
    reveal_strlit("bz2");
    reveal_strlit("xz");
    reveal_strlit("apk");
    reveal_strlit("pdf");
    reveal_strlit("png");
    reveal_strlit("jpg");
    reveal_strlit("jpeg");
    reveal_strlit("gif");
    reveal_strlit("sqlite");
    reveal_strlit("sqlite3");
    reveal_strlit("db");
    reveal_strlit("db3");
    reveal_strlit("pak");
    reveal_strlit("bin");
    reveal_strlit("dat");
    reveal_strlit("bat");
    reveal_strlit("cmd");
    reveal_strlit("ps1");
    reveal_strlit("vbs");
    reveal_strlit("js");
    reveal_strlit("ini");
    reveal_strlit("cfg");
    reveal_strlit("json");
    reveal_strlit("yml");
    reveal_strlit("yaml");
    reveal_strlit("txt");
    reveal_strlit("log");
    reveal_strlit("ole");
    assert(code_of("exe"@) == 0x30000657865);
    assert(code_of("dll"@) == 0x300006c6c64);
    assert(code_of("sys"@) == 0x30000737973);
    assert(code_of("scr"@) == 0x30000726373);
    assert(code_of("ocx"@) == 0x3000078636f);
    assert(code_of("cpl"@) == 0x300006c7063);
    assert(code_of("msi"@) == 0x3000069736d);
    assert(code_of("jar"@) == 0x3000072616a);
    assert(code_of("zip"@) == 0x3000070697a);
    assert(code_of("rar"@) == 0x30000726172);
    assert(code_of("7z"@) == 0x20000007a37);
    assert(code_of("cab"@) == 0x30000626163);
    assert(code_of("iso"@) == 0x300006f7369);
    assert(code_of("tar"@) == 0x30000726174);
    assert(code_of("gz"@) == 0x20000007a67);
    assert(code_of("bz2"@) == 0x30000327a62);
    assert(code_of("xz"@) == 0x20000007a78);
    assert(code_of("apk"@) == 0x300006b7061);
    assert(code_of("pdf"@) == 0x30000666470);
    assert(code_of("png"@) == 0x30000676e70);
    assert(code_of("jpg"@) == 0x3000067706a);
    assert(code_of("jpeg"@) == 0x4006765706a);
    assert(code_of("gif"@) == 0x30000666967);
    assert(code_of("sqlite"@) == 0x600696c7173);
    assert(code_of("sqlite3"@) == 0x700696c7173);
    assert(code_of("db"@) == 0x20000006264);
    assert(code_of("db3"@) == 0x30000336264);
    assert(code_of("pak"@) == 0x300006b6170);
    assert(code_of("bin"@) == 0x300006e6962);
    assert(code_of("dat"@) == 0x30000746164);
    assert(code_of("bat"@) == 0x30000746162);
    assert(code_of("cmd"@) == 0x30000646d63);
    assert(code_of("ps1"@) == 0x30000317370);
    assert(code_of("vbs"@) == 0x30000736276);
    assert(code_of("js"@) == 0x2000000736a);
    assert(code_of("ini"@) == 0x30000696e69);
    assert(code_of("cfg"@) == 0x30000676663);
    assert(code_of("json"@) == 0x4006e6f736a);
    assert(code_of("yml"@) == 0x300006c6d79);
    assert(code_of("yaml"@) == 0x4006c6d6179);
    assert(code_of("txt"@) == 0x30000747874);
    assert(code_of("log"@) == 0x30000676f6c);
    assert(code_of("ole"@) == 0x30000656c6f);
}

/// A file that is carved, or that gets an extension because its name has none, bears the extension
/// of its own kind.
pub proof fn lemma_given_extensions_tell_the_kind(kind: ArtifactKind)
    ensures
        extension_kind(carved_extension(kind)) == Some(kind) || kind == ArtifactKind::Pe || kind
            == ArtifactKind::OleCompound || carved_extension(kind) == "bin"@,
        default_extension(kind) matches Some(ext) ==> extension_kind(ext) == Some(kind) || (kind
            == ArtifactKind::Pe && extension_kind(ext) == Some(ArtifactKind::Exe)),
        kind == ArtifactKind::Pe ==> extension_kind(carved_extension(kind)) == Some(
            ArtifactKind::Exe,
        ),
{
    lemma_extensions_stand_for_kinds();
}

/// The extension of a name is what follows its last dot, in lower case.
pub proof fn lemma_extension_follows_the_last_dot(stem: Seq<char>, ext: Seq<char>)
    requires
        forall|i: int| 0 <= i < ext.len() ==> #[trigger] ext[i] != '.',
    ensures
        name_extension(stem + seq!['.'] + ext) == ascii_lower(ext),
        name_kind(stem + seq!['.'] + ext) == extension_kind(ascii_lower(ext)),
        name_extension(ext).len() == 0,
{
    let name = stem + seq!['.'] + ext;
    lemma_last_index(name, '.', stem.len() as int);
    assert(name.subrange(1int + stem.len(), name.len() as int) =~= ext);
    lemma_last_index(ext, '.', -1);
}

/// Programs, libraries and drivers are executables, packed files are archives, and so on.
pub proof fn lemma_kinds_belong_to_families()
    ensures
        family_of(ArtifactKind::Exe) == ArtifactFamily::Executable,
        family_of(ArtifactKind::Dll) == ArtifactFamily::Executable,
        family_of(ArtifactKind::Sys) == ArtifactFamily::Executable,
        family_of(ArtifactKind::Scr) == ArtifactFamily::Executable,
        family_of(ArtifactKind::Ocx) == ArtifactFamily::Executable,
        family_of(ArtifactKind::Cpl) == ArtifactFamily::Executable,
        family_of(ArtifactKind::Msi) == ArtifactFamily::Executable,
        family_of(ArtifactKind::Jar) == ArtifactFamily::Executable,
        family_of(ArtifactKind::Pe) == ArtifactFamily::Executable,
        family_of(ArtifactKind::Zip) == ArtifactFamily::Archive,
        family_of(ArtifactKind::Rar) == ArtifactFamily::Archive,
        family_of(ArtifactKind::SevenZip) == ArtifactFamily::Archive,
        family_of(ArtifactKind::Cab) == ArtifactFamily::Archive,
        family_of(ArtifactKind::Iso) == ArtifactFamily::Archive,
        family_of(ArtifactKind::Tar) == ArtifactFamily::Archive,
        family_of(ArtifactKind::Gzip) == ArtifactFamily::Archive,
        family_of(ArtifactKind::Bzip2) == ArtifactFamily::Archive,
        family_of(ArtifactKind::Xz) == ArtifactFamily::Archive,
        family_of(ArtifactKind::Bat) == ArtifactFamily::Script,
        family_of(ArtifactKind::Cmd) == ArtifactFamily::Script,
        family_of(ArtifactKind::Ps1) == ArtifactFamily::Script,
        family_of(ArtifactKind::Vbs) == ArtifactFamily::Script,
        family_of(ArtifactKind::Js) == ArtifactFamily::Script,
        family_of(ArtifactKind::Apk) == ArtifactFamily::Container,
        family_of(ArtifactKind::Pak) == ArtifactFamily::Container,
        family_of(ArtifactKind::Bin) == ArtifactFamily::Container,
        family_of(ArtifactKind::Dat) == ArtifactFamily::Container,
        family_of(ArtifactKind::OleCompound) == ArtifactFamily::Container,
        family_of(ArtifactKind::Sqlite) == ArtifactFamily::Database,
        family_of(ArtifactKind::Pdf) == ArtifactFamily::Document,
        family_of(ArtifactKind::Png) == ArtifactFamily::Image,
        family_of(ArtifactKind::Jpg) == ArtifactFamily::Image,
        family_of(ArtifactKind::Gif) == ArtifactFamily::Image,
        family_of(ArtifactKind::Ini) == ArtifactFamily::Config,
        family_of(ArtifactKind::Cfg) == ArtifactFamily::Config,
        family_of(ArtifactKind::Json) == ArtifactFamily::Config,
        family_of(ArtifactKind::Yml) == ArtifactFamily::Config,
        family_of(ArtifactKind::Yaml) == ArtifactFamily::Config,
        family_of(ArtifactKind::Txt) == ArtifactFamily::Text,
        family_of(ArtifactKind::Log) == ArtifactFamily::Text,
        family_of(ArtifactKind::Unknown) == ArtifactFamily::Unknown,
{
}

// ---------------------------------------------------------------------------
// Contents.

proof fn lemma_starts(s: Seq<u8>, mark: Seq<u8>)
    ensures
        laid_at(s, 0, mark) <==> marked(s, mark),
        marked(s, mark) && mark.len() > 0 ==> s[0] == mark[0],
        marked(s, mark) && mark.len() > 1 ==> s[1] == mark[1],
{
    if laid_at(s, 0, mark) {
        assert(s.subrange(0, mark.len() as int) =~= mark);
    }
    if marked(s, mark) {
        assert forall|k: int| 0 <= k < mark.len() implies s[0 + k] == #[trigger] mark[k] by {
            assert(s.subrange(0, mark.len() as int)[k] == mark[k]);
        }
        if mark.len() > 0 {
            assert(s[0int + 0] == mark[0]);
        }
        if mark.len() > 1 {
            assert(s[0int + 1] == mark[1]);
        }
    }
}

proof fn lemma_no_other_mark(s: Seq<u8>)
    ensures
        marked(s, crate::kinds::mz_mark()) ==> s[0] == 0x4d && s[1] == 0x5a,
        marked(s, crate::kinds::zip_mark()) ==> s[0] == 0x50,
        marked(s, crate::kinds::seven_zip_mark()) ==> s[0] == 0x37,
        marked(s, crate::kinds::cab_mark()) ==> s[0] == 0x4d && s[1] == 0x53,
        marked(s, crate::kinds::gzip_mark()) ==> s[0] == 0x1f,
        marked(s, crate::kinds::bzip2_mark()) ==> s[0] == 0x42,
        marked(s, crate::kinds::xz_mark()) ==> s[0] == 0xfd,
        marked(s, crate::kinds::pdf_mark()) ==> s[0] == 0x25,
        marked(s, crate::kinds::png_mark()) ==> s[0] == 0x89,
        marked(s, crate::kinds::jpeg_mark()) ==> s[0] == 0xff,
        marked(s, crate::kinds::gif87_mark()) ==> s[0] == 0x47,
        marked(s, crate::kinds::gif89_mark()) ==> s[0] == 0x47,
        marked(s, crate::kinds::sqlite_mark()) ==> s[0] == 0x53,
        marked(s, crate::kinds::ole_mark()) ==> s[0] == 0xd0,
{
    lemma_starts(s, crate::kinds::mz_mark());
    lemma_starts(s, crate::kinds::zip_mark());
    lemma_starts(s, crate::kinds::seven_zip_mark());
    lemma_starts(s, crate::kinds::cab_mark());
    lemma_starts(s, crate::kinds::gzip_mark());
    lemma_starts(s, crate::kinds::bzip2_mark());
    lemma_starts(s, crate::kinds::xz_mark());
    lemma_starts(s, crate::kinds::pdf_mark());
    lemma_starts(s, crate::kinds::png_mark());
    lemma_starts(s, crate::kinds::jpeg_mark());
    lemma_starts(s, crate::kinds::gif87_mark());
    lemma_starts(s, crate::kinds::gif89_mark());
    lemma_starts(s, crate::kinds::sqlite_mark());
    lemma_starts(s, crate::kinds::ole_mark());
}

/// A file is of the kind whose format its first bytes are those of.
pub proof fn lemma_first_bytes_tell_the_kind(s: Seq<u8>)
    ensures
        laid_at(s, 0, seq![0x37u8, 0x7a, 0xbc, 0xaf, 0x27, 0x1c]) ==> signature_kind(s) == Some(
            ArtifactKind::SevenZip,
        ),
        laid_at(s, 0, seq![0x4du8, 0x53, 0x43, 0x46]) ==> signature_kind(s) == Some(
            ArtifactKind::Cab,
        ),
        laid_at(s, 0, seq![0x1fu8, 0x8b, 0x08]) ==> signature_kind(s) == Some(ArtifactKind::Gzip),
        laid_at(s, 0, seq![0x42u8, 0x5a, 0x68]) ==> signature_kind(s) == Some(ArtifactKind::Bzip2),
        laid_at(s, 0, seq![0xfdu8, 0x37, 0x7a, 0x58, 0x5a, 0x00]) ==> signature_kind(s) == Some(
            ArtifactKind::Xz,
        ),
        laid_at(s, 0, seq![0x25u8, 0x50, 0x44, 0x46, 0x2d]) ==> signature_kind(s) == Some(
            ArtifactKind::Pdf,
        ),
        laid_at(s, 0, seq![0x89u8, 0x50, 0x4e, 0x47, 0x0d, 0x0a, 0x1a, 0x0a]) ==> signature_kind(s)
            == Some(ArtifactKind::Png),
        laid_at(s, 0, seq![0xffu8, 0xd8, 0xff]) ==> signature_kind(s) == Some(ArtifactKind::Jpg),
        laid_at(s, 0, seq![0x47u8, 0x49, 0x46, 0x38, 0x37, 0x61]) ==> signature_kind(s) == Some(
            ArtifactKind::Gif,
        ),
        laid_at(s, 0, seq![0x47u8, 0x49, 0x46, 0x38, 0x39, 0x61]) ==> signature_kind(s) == Some(
            ArtifactKind::Gif,
        ),
        laid_at(
            s,
            0,
            seq![
                0x53u8, 0x51, 0x4c, 0x69, 0x74, 0x65, 0x20, 0x66, 0x6f, 0x72, 0x6d, 0x61, 0x74, 0x20, 0x33, 0,
            ],
        ) ==> signature_kind(s) == Some(ArtifactKind::Sqlite),
        laid_at(s, 0, seq![0x50u8, 0x4b, 0x03, 0x04]) ==> signature_kind(s) == Some(zip_kind(s)),
        laid_at(s, 0, seq![0x4du8, 0x5a]) && pe_offset(s) is None ==> signature_kind(s) == Some(
            ArtifactKind::Pe,
        ),
{
    lemma_no_other_mark(s);
    lemma_starts(s, seq![0x37u8, 0x7a, 0xbc, 0xaf, 0x27, 0x1c]);
    lemma_starts(s, seq![0x4du8, 0x53, 0x43, 0x46]);
    lemma_starts(s, seq![0x1fu8, 0x8b, 0x08]);
    lemma_starts(s, seq![0x42u8, 0x5a, 0x68]);
    lemma_starts(s, seq![0xfdu8, 0x37, 0x7a, 0x58, 0x5a, 0x00]);
    lemma_starts(s, seq![0x25u8, 0x50, 0x44, 0x46, 0x2d]);
    lemma_starts(s, seq![0x89u8, 0x50, 0x4e, 0x47, 0x0d, 0x0a, 0x1a, 0x0a]);
    lemma_starts(s, seq![0xffu8, 0xd8, 0xff]);
    lemma_starts(s, seq![0x47u8, 0x49, 0x46, 0x38, 0x37, 0x61]);
    lemma_starts(s, seq![0x47u8, 0x49, 0x46, 0x38, 0x39, 0x61]);
    lemma_starts(
        s,
        seq![
            0x53u8, 0x51, 0x4c, 0x69, 0x74, 0x65, 0x20, 0x66, 0x6f, 0x72, 0x6d, 0x61, 0x74, 0x20, 0x33, 0,
        ],
    );
    lemma_starts(s, seq![0x50u8, 0x4b, 0x03, 0x04]);
    lemma_starts(s, seq![0x4du8, 0x5a]);
}

/// A ZIP file that holds the manifest of a Java archive is one, and one that holds the manifest of
/// an Android package and no Java manifest is that.
pub proof fn lemma_zip_files_are_told_by_their_entries(s: Seq<u8>)
    ensures
        occurs_in(s, jar_entry()) ==> zip_kind(s) == ArtifactKind::Jar,
        !occurs_in(s, jar_entry()) && occurs_in(s, apk_entry()) ==> zip_kind(s)
            == ArtifactKind::Apk,
        !occurs_in(s, jar_entry()) && !occurs_in(s, apk_entry()) ==> zip_kind(s)
            == ArtifactKind::Zip,
{
}

/// A PE image is a library where the characteristics behind its sizes say so, a driver where its
/// subsystem is the native one, and else a program.
pub proof fn lemma_images_are_told_by_their_headers(
    s: Seq<u8>,
    header: u32,
    characteristics: u16,
    subsystem: u16,
)
    requires
        s.len() >= 0x40,
        laid_at(s, 0, seq![0x4du8, 0x5a]),
        laid_at(s, 0x3c, le_bytes(header as int, 4)),
        laid_at(s, header as int, seq![0x50u8, 0x45, 0, 0]),
        laid_at(s, header + 22, le_bytes(characteristics as int, 2)),
        laid_at(s, header + 92, le_bytes(subsystem as int, 2)),
        header + 96 <= s.len(),
    ensures
        signature_kind(s) == Some(
            if characteristics / 0x2000 % 2 == 1 {
                ArtifactKind::Dll
            } else if subsystem == 1 {
                ArtifactKind::Sys
            } else {
                ArtifactKind::Exe
            },
        ),
{
    lemma_starts(s, seq![0x4du8, 0x5a]);
    lemma_le32_reads_back(s, 0x3c, header as int);
    lemma_le16_reads_back(s, header + 22, characteristics as int);
    lemma_le16_reads_back(s, header + 92, subsystem as int);
    assert(s.subrange(header as int, header + 4) =~= seq![0x50u8, 0x45, 0, 0]);
    assert(characteristics & 0x2000u16 != 0 <==> characteristics / 0x2000u16 % 2 == 1)
        by (bit_vector);
    assert(pe_offset(s) == Some(header as int));
}

/// Without a look at its content a file is of the kind of its extension; with one, a name without
/// a kind takes that of the content.
pub proof fn lemma_kinds_are_inferred_from_name_and_content(name: Seq<char>, s: Seq<u8>)
    ensures
        name_kind(name) is Some ==> inferred_kind(name, None) == name_kind(name)->0,
        name_kind(name) is None ==> inferred_kind(name, None) == ArtifactKind::Unknown,
        name_kind(name) is None && signature_kind(s) is Some ==> inferred_kind(name, Some(s))
            == signature_kind(s)->0,
        signature_kind(s) is None ==> inferred_kind(name, Some(s)) == inferred_kind(name, None),
{
}

} // verus!
