//! What reports show, told of the fields of the results.

use crate::codec::{csv_row, html_text};
use crate::kinds::kind_label;
use crate::model::{ArtifactKind, Confidence, OriginType, Recoverability, ScanStatus};
use crate::numbers::{decimal, hexadecimal};
use crate::records::ArtifactView;
use crate::report::{
    confidence_title, csv_header, csv_rows, csv_values, dfxml_document, dfxml_entries, dfxml_entry,
    family_title, html_page, html_row, html_rows, in_a_row, kind_title, origin_title, page_end,
    page_head, page_middle, recoverability_title, status_title, substituted, xml_text,
};
use crate::sessions::SnapshotView;
use crate::text::ascii_lower;
use vstd::prelude::*;
use vstd::string::*;

verus! {

/// The name of a kind in a report is the one by which it is sorted and filtered, with capitals.
pub proof fn lemma_reports_name_kinds_as_listings_do(kind: ArtifactKind)
    ensures
        ascii_lower(kind_title(kind)) == kind_label(kind),
{
    match kind {
        ArtifactKind::Exe => {
            reveal_strlit("Exe");
            reveal_strlit("exe");
            assert(ascii_lower("Exe"@) =~= "exe"@);
        },
        ArtifactKind::Dll => {
            reveal_strlit("Dll");
            reveal_strlit("dll");
            assert(ascii_lower("Dll"@) =~= "dll"@);
        },
        ArtifactKind::Sys => {
            reveal_strlit("Sys");
            reveal_strlit("sys");
            assert(ascii_lower("Sys"@) =~= "sys"@);
        },
        ArtifactKind::Scr => {
            reveal_strlit("Scr");
            reveal_strlit("scr");
            assert(ascii_lower("Scr"@) =~= "scr"@);
        },
        ArtifactKind::Ocx => {
            reveal_strlit("Ocx");
            reveal_strlit("ocx");
            assert(ascii_lower("Ocx"@) =~= "ocx"@);
        },
        ArtifactKind::Cpl => {
            reveal_strlit("Cpl");
            reveal_strlit("cpl");
            assert(ascii_lower("Cpl"@) =~= "cpl"@);
        },
        ArtifactKind::Msi => {
            reveal_strlit("Msi");
            reveal_strlit("msi");
            assert(ascii_lower("Msi"@) =~= "msi"@);
        },
        ArtifactKind::Jar => {
            reveal_strlit("Jar");
            reveal_strlit("jar");
            assert(ascii_lower("Jar"@) =~= "jar"@);
        },
        ArtifactKind::Zip => {
            reveal_strlit("Zip");
            reveal_strlit("zip");
            assert(ascii_lower("Zip"@) =~= "zip"@);
        },
        ArtifactKind::Rar => {
            reveal_strlit("Rar");
            reveal_strlit("rar");
            assert(ascii_lower("Rar"@) =~= "rar"@);
        },
        ArtifactKind::SevenZip => {
            reveal_strlit("SevenZip");
            reveal_strlit("sevenzip");
            assert(ascii_lower("SevenZip"@) =~= "sevenzip"@);
        },
        ArtifactKind::Cab => {
            reveal_strlit("Cab");
            reveal_strlit("cab");
            assert(ascii_lower("Cab"@) =~= "cab"@);
        },
        ArtifactKind::Iso => {
            reveal_strlit("Iso");
            reveal_strlit("iso");
            assert(ascii_lower("Iso"@) =~= "iso"@);
        },
        ArtifactKind::Tar => {
            reveal_strlit("Tar");
            reveal_strlit("tar");
            assert(ascii_lower("Tar"@) =~= "tar"@);
        },
        ArtifactKind::Gzip => {
            reveal_strlit("Gzip");
            reveal_strlit("gzip");
            assert(ascii_lower("Gzip"@) =~= "gzip"@);
        },
        ArtifactKind::Bzip2 => {
            reveal_strlit("Bzip2");
            reveal_strlit("bzip2");
            assert(ascii_lower("Bzip2"@) =~= "bzip2"@);
        },
        ArtifactKind::Xz => {
            reveal_strlit("Xz");
            reveal_strlit("xz");
            assert(ascii_lower("Xz"@) =~= "xz"@);
        },
        ArtifactKind::Apk => {
            reveal_strlit("Apk");
            reveal_strlit("apk");
            assert(ascii_lower("Apk"@) =~= "apk"@);
        },
        ArtifactKind::Pdf => {
            reveal_strlit("Pdf");
            reveal_strlit("pdf");
            assert(ascii_lower("Pdf"@) =~= "pdf"@);
        },
        ArtifactKind::Png => {
            reveal_strlit("Png");
            reveal_strlit("png");
            assert(ascii_lower("Png"@) =~= "png"@);
        },
        ArtifactKind::Jpg => {
            reveal_strlit("Jpg");
            reveal_strlit("jpg");
            assert(ascii_lower("Jpg"@) =~= "jpg"@);
        },
        ArtifactKind::Gif => {
            reveal_strlit("Gif");
            reveal_strlit("gif");
            assert(ascii_lower("Gif"@) =~= "gif"@);
        },
        ArtifactKind::Sqlite => {
            reveal_strlit("Sqlite");
            reveal_strlit("sqlite");
            assert(ascii_lower("Sqlite"@) =~= "sqlite"@);
        },
        ArtifactKind::Pak => {
            reveal_strlit("Pak");
            reveal_strlit("pak");
            assert(ascii_lower("Pak"@) =~= "pak"@);
        },
        ArtifactKind::Bin => {
            reveal_strlit("Bin");
            reveal_strlit("bin");
            assert(ascii_lower("Bin"@) =~= "bin"@);
        },
        ArtifactKind::Dat => {
            reveal_strlit("Dat");
            reveal_strlit("dat");
            assert(ascii_lower("Dat"@) =~= "dat"@);
        },
        ArtifactKind::Bat => {
            reveal_strlit("Bat");
            reveal_strlit("bat");
            assert(ascii_lower("Bat"@) =~= "bat"@);
        },
        ArtifactKind::Cmd => {
            reveal_strlit("Cmd");
            reveal_strlit("cmd");
            assert(ascii_lower("Cmd"@) =~= "cmd"@);
        },
        ArtifactKind::Ps1 => {
            reveal_strlit("Ps1");
            reveal_strlit("ps1");
            assert(ascii_lower("Ps1"@) =~= "ps1"@);
        },
        ArtifactKind::Vbs => {
            reveal_strlit("Vbs");
            reveal_strlit("vbs");
            assert(ascii_lower("Vbs"@) =~= "vbs"@);
        },
        ArtifactKind::Js => {
            reveal_strlit("Js");
            reveal_strlit("js");
            assert(ascii_lower("Js"@) =~= "js"@);
        },
        ArtifactKind::Ini => {
            reveal_strlit("Ini");
            reveal_strlit("ini");
            assert(ascii_lower("Ini"@) =~= "ini"@);
        },
        ArtifactKind::Cfg => {
            reveal_strlit("Cfg");
            reveal_strlit("cfg");
            assert(ascii_lower("Cfg"@) =~= "cfg"@);
        },
        ArtifactKind::Json => {
            reveal_strlit("Json");
            reveal_strlit("json");
            assert(ascii_lower("Json"@) =~= "json"@);
        },
        ArtifactKind::Yml => {
            reveal_strlit("Yml");
            reveal_strlit("yml");
            assert(ascii_lower("Yml"@) =~= "yml"@);
        },
        ArtifactKind::Yaml => {
            reveal_strlit("Yaml");
            reveal_strlit("yaml");
            assert(ascii_lower("Yaml"@) =~= "yaml"@);
        },
        ArtifactKind::Txt => {
            reveal_strlit("Txt");
            reveal_strlit("txt");
            assert(ascii_lower("Txt"@) =~= "txt"@);
        },
        ArtifactKind::Log => {
            reveal_strlit("Log");
            reveal_strlit("log");
            assert(ascii_lower("Log"@) =~= "log"@);
        },
        ArtifactKind::OleCompound => {
            reveal_strlit("OleCompound");
            reveal_strlit("olecompound");
            assert(ascii_lower("OleCompound"@) =~= "olecompound"@);
        },
        ArtifactKind::Pe => {
            reveal_strlit("Pe");
            reveal_strlit("pe");
            assert(ascii_lower("Pe"@) =~= "pe"@);
        },
        ArtifactKind::Unknown => {
            reveal_strlit("Unknown");
            reveal_strlit("unknown");
            assert(ascii_lower("Unknown"@) =~= "unknown"@);
        },
    }
}

/// A report calls what is sure high, and what is whole good.
pub proof fn lemma_reports_name_the_grades()
    ensures
        confidence_title(Confidence::High) == "High"@,
        confidence_title(Confidence::Medium) == "Medium"@,
        confidence_title(Confidence::Low) == "Low"@,
        recoverability_title(Recoverability::Good) == "Good"@,
        recoverability_title(Recoverability::Partial) == "Partial"@,
        recoverability_title(Recoverability::Poor) == "Poor"@,
        recoverability_title(Recoverability::Unknown) == "Unknown"@,
        origin_title(OriginType::FilesystemDeletedEntry) == "FilesystemDeletedEntry"@,
        origin_title(OriginType::FilesystemOrphanedEntry) == "FilesystemOrphanedEntry"@,
        origin_title(OriginType::UnallocatedCarved) == "UnallocatedCarved"@,
        origin_title(OriginType::PartialFragment) == "PartialFragment"@,
        status_title(ScanStatus::Completed) == "Completed"@,
        status_title(ScanStatus::CompletedWithWarnings) == "CompletedWithWarnings"@,
        status_title(ScanStatus::Failed) == "Failed"@,
        status_title(ScanStatus::Cancelled) == "Cancelled"@,
        status_title(ScanStatus::Running) == "Running"@,
        status_title(ScanStatus::Idle) == "Idle"@,
{
}

/// Under each heading of the table stands the field of that name.
pub proof fn lemma_columns_hold_their_fields(a: ArtifactView)
    ensures
        csv_header().len() == 11 && csv_values(a).len() == 11,
        csv_header()[0] == "id"@ && csv_values(a)[0] == a.id,
        csv_header()[1] == "name"@ && csv_values(a)[1] == a.name,
        csv_header()[2] == "path"@ && (a.original_path is Some ==> csv_values(a)[2]
            == a.original_path->0) && (a.original_path is None ==> csv_values(a)[2].len() == 0),
        csv_header()[3] == "kind"@ && csv_values(a)[3] == kind_title(a.kind),
        csv_header()[4] == "family"@ && csv_values(a)[4] == family_title(a.family),
        csv_header()[5] == "origin_type"@ && csv_values(a)[5] == origin_title(a.origin_type),
        csv_header()[6] == "confidence"@ && csv_values(a)[6] == confidence_title(a.confidence),
        csv_header()[7] == "recoverability"@ && csv_values(a)[7] == recoverability_title(
            a.recoverability,
        ),
        csv_header()[8] == "size"@ && csv_values(a)[8] == decimal(a.size as nat),
        csv_header()[9] == "record_number"@ && (a.filesystem_record matches Some(n) ==> csv_values(
            a,
        )[9] == decimal(n as nat)) && (a.filesystem_record is None ==> csv_values(a)[9].len() == 0),
        csv_header()[10] == "raw_offset"@ && (a.raw_offset matches Some(n) ==> csv_values(a)[10]
            == "0x"@ + hexadecimal(n as nat, false)) && (a.raw_offset is None ==> csv_values(
            a,
        )[10].len() == 0),
{
    reveal_strlit("");
}

/// One more result is one more row behind the others, in each report.
pub proof fn lemma_each_result_has_a_row(results: Seq<ArtifactView>, a: ArtifactView)
    ensures
        csv_rows(results.push(a)) == csv_rows(results) + csv_row(csv_values(a)),
        csv_rows(seq![]) == csv_row(csv_header()),
        html_rows(results.push(a)) == html_rows(results) + html_row(a),
        dfxml_entries(results.push(a)) == dfxml_entries(results) + dfxml_entry(a),
        html_rows(seq![]).len() == 0,
        dfxml_entries(seq![]).len() == 0,
{
    assert(results.push(a).drop_last() =~= results);
}

/// A row of the page shows the name, the path, the kind, the confidence, the recoverability and
/// the size of its result, in the order of the headings.
pub proof fn lemma_page_rows_show_their_result(a: ArtifactView)
    ensures
        html_row(a) == in_a_row(
            seq![
                "<tr><td>"@,
                html_text(a.name),
                "</td><td>"@,
                html_text(
                    if a.original_path is Some {
                        a.original_path->0
                    } else {
                        "-"@
                    },
                ),
                "</td><td>"@,
                html_text(kind_title(a.kind)),
                "</td><td>"@,
                confidence_title(a.confidence),
                "</td><td>"@,
                recoverability_title(a.recoverability),
                "</td><td>"@,
                decimal(a.size as nat),
                "</td></tr>"@,
            ],
        ),
{
}

/// An entry of the document shows the path of its result, or its name where it has none, with its
/// size, kind, confidence, recoverability and origin, each in an element of that name.
pub proof fn lemma_document_entries_show_their_result(a: ArtifactView)
    ensures
        dfxml_entry(a) == in_a_row(
            seq![
                "<fileobject><filename>"@,
                xml_text(
                    if a.original_path is Some {
                        a.original_path->0
                    } else {
                        a.name
                    },
                ),
                "</filename><filesize>"@,
                decimal(a.size as nat),
                "</filesize><hashdigest type=\"sha256\"></hashdigest><meta><kind>"@,
                kind_title(a.kind),
                "</kind><confidence>"@,
                confidence_title(a.confidence),
                "</confidence><recoverability>"@,
                recoverability_title(a.recoverability),
                "</recoverability><origin>"@,
                origin_title(a.origin_type),
                "</origin></meta></fileobject>"@,
            ],
        ),
{
}

/// Texts in a row: what is put behind stands behind.
pub proof fn lemma_in_a_row_is_in_order(parts: Seq<Seq<char>>, text: Seq<char>)
    ensures
        in_a_row(seq![]).len() == 0,
        in_a_row(parts.push(text)) == in_a_row(parts) + text,
{
    assert(parts.push(text).drop_last() =~= parts);
}

/// A text without special characters stands in the reports as it is.
pub proof fn lemma_plain_text_is_kept(s: Seq<char>)
    requires
        forall|i: int|
            0 <= i < s.len() ==> #[trigger] s[i] != '&' && s[i] != '<' && s[i] != '>' && s[i] != '"'
                && s[i] != '\'',
    ensures
        html_text(s) == s,
        xml_text(s) == s,
{
    lemma_page_text_is_kept(s);
    lemma_untouched(s, '\'', "&apos;"@);
    lemma_untouched(s, '"', "&quot;"@);
}

proof fn lemma_page_text_is_kept(s: Seq<char>)
    requires
        forall|i: int| 0 <= i < s.len() ==> #[trigger] s[i] != '&' && s[i] != '<' && s[i] != '>',
    ensures
        html_text(s) == s,
    decreases s.len(),
{
    if s.len() > 0 {
        let front = s.drop_last();
        assert forall|i: int| 0 <= i < front.len() implies #[trigger] front[i] != '&' && front[i]
            != '<' && front[i] != '>' by {
            assert(front[i] == s[i]);
        }
        lemma_page_text_is_kept(front);
        assert(s[s.len() - 1] == s.last());
        assert(front + seq![s.last()] =~= s);
    }
}

proof fn lemma_untouched(s: Seq<char>, c: char, text: Seq<char>)
    requires
        forall|i: int| 0 <= i < s.len() ==> #[trigger] s[i] != c,
    ensures
        substituted(s, c, text) == s,
    decreases s.len(),
{
    if s.len() > 0 {
        let front = s.drop_last();
        assert forall|i: int| 0 <= i < front.len() implies #[trigger] front[i] != c by {
            assert(front[i] == s[i]);
        }
        lemma_untouched(front, c, text);
        assert(s[s.len() - 1] == s.last());
        assert(front + seq![s.last()] =~= s);
    }
}

/// A special character stands in the document as its entity, wherever it is.
pub proof fn lemma_special_characters_become_entities(s: Seq<char>)
    ensures
        substituted(s.push('"'), '"', "&quot;"@) == substituted(s, '"', "&quot;"@) + "&quot;"@,
        substituted(s.push('\''), '\'', "&apos;"@) == substituted(s, '\'', "&apos;"@) + "&apos;"@,
        html_text(s.push('&')) == html_text(s) + "&amp;"@,
        html_text(s.push('<')) == html_text(s) + "&lt;"@,
        html_text(s.push('>')) == html_text(s) + "&gt;"@,
{
    assert(s.push('"').drop_last() =~= s);
    assert(s.push('\'').drop_last() =~= s);
    assert(s.push('&').drop_last() =~= s);
    assert(s.push('<').drop_last() =~= s);
    assert(s.push('>').drop_last() =~= s);
}

/// The page and the document tell of the scan whose results they show.
pub proof fn lemma_reports_tell_of_their_scan(s: SnapshotView)
    ensures
        html_page(s) == in_a_row(
            seq![
                page_head(),
                html_text(s.summary.scan_id),
                "</p>\n    <p><strong>Source:</strong> "@,
                html_text(s.summary.source_name),
                "</p>\n    <p><strong>Status:</strong> "@,
                status_title(s.summary.status),
                "</p>\n    <p><strong>Results:</strong> "@,
                decimal(s.results.len()),
                page_middle(),
                html_rows(s.results),
                page_end(),
            ],
        ),
        dfxml_document(s) == in_a_row(
            seq![
                "<?xml version=\"1.0\" encoding=\"UTF-8\"?>\n<dfxml xmloutputversion=\"1.1\">\n  <metadata>\n    <source>"@,
                xml_text(s.summary.source_name),
                "</source>\n    <scan_id>"@,
                xml_text(s.summary.scan_id),
                "</scan_id>\n    <status>"@,
                status_title(s.summary.status),
                "</status>\n  </metadata>\n  <source_path>"@,
                xml_text(s.source.device_path@),
                "</source_path>\n  "@,
                dfxml_entries(s.results),
                "\n</dfxml>"@,
            ],
        ),
{
}

} // verus!
