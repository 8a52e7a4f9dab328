//! Reports on a scan: a page, a table of comma-separated values and a DFXML document.

use crate::codec::{csv_line, csv_row, escape_html, html_char, html_text};
use crate::model::{
    ArtifactFamily, ArtifactKind, ArtifactRecord, Confidence, OriginType, Recoverability,
    ScanStatus,
};
use crate::numbers::{decimal, decimal_string, hex_string, hexadecimal};
use crate::records::{record_views, ArtifactView};
use crate::sessions::{ScanSnapshot, SnapshotView};
use crate::text::{chars_of, concat2, concat3, opt_view, owned, views};
use vstd::prelude::*;
use vstd::string::*;

verus! {

// ---------------------------------------------------------------------------
// Names.

/// The name of a kind.
pub open spec fn kind_title(value: ArtifactKind) -> Seq<char> {
    match value {
        ArtifactKind::Exe => "Exe"@,
        ArtifactKind::Dll => "Dll"@,
        ArtifactKind::Sys => "Sys"@,
        ArtifactKind::Scr => "Scr"@,
        ArtifactKind::Ocx => "Ocx"@,
        ArtifactKind::Cpl => "Cpl"@,
        ArtifactKind::Msi => "Msi"@,
        ArtifactKind::Jar => "Jar"@,
        ArtifactKind::Zip => "Zip"@,
        ArtifactKind::Rar => "Rar"@,
        ArtifactKind::SevenZip => "SevenZip"@,
        ArtifactKind::Cab => "Cab"@,
        ArtifactKind::Iso => "Iso"@,
        ArtifactKind::Tar => "Tar"@,
        ArtifactKind::Gzip => "Gzip"@,
        ArtifactKind::Bzip2 => "Bzip2"@,
        ArtifactKind::Xz => "Xz"@,
        ArtifactKind::Apk => "Apk"@,
        ArtifactKind::Pdf => "Pdf"@,
        ArtifactKind::Png => "Png"@,
        ArtifactKind::Jpg => "Jpg"@,
        ArtifactKind::Gif => "Gif"@,
        ArtifactKind::Sqlite => "Sqlite"@,
        ArtifactKind::Pak => "Pak"@,
        ArtifactKind::Bin => "Bin"@,
        ArtifactKind::Dat => "Dat"@,
        ArtifactKind::Bat => "Bat"@,
        ArtifactKind::Cmd => "Cmd"@,
        ArtifactKind::Ps1 => "Ps1"@,
        ArtifactKind::Vbs => "Vbs"@,
        ArtifactKind::Js => "Js"@,
        ArtifactKind::Ini => "Ini"@,
        ArtifactKind::Cfg => "Cfg"@,
        ArtifactKind::Json => "Json"@,
        ArtifactKind::Yml => "Yml"@,
        ArtifactKind::Yaml => "Yaml"@,
        ArtifactKind::Txt => "Txt"@,
        ArtifactKind::Log => "Log"@,
        ArtifactKind::OleCompound => "OleCompound"@,
        ArtifactKind::Pe => "Pe"@,
        ArtifactKind::Unknown => "Unknown"@,
    }
}

pub fn kind_title_of(value: ArtifactKind) -> (r: &'static str)
    ensures
        r@ == kind_title(value),
{
    match value {
        ArtifactKind::Exe => "Exe",
        ArtifactKind::Dll => "Dll",
        ArtifactKind::Sys => "Sys",
        ArtifactKind::Scr => "Scr",
        ArtifactKind::Ocx => "Ocx",
        ArtifactKind::Cpl => "Cpl",
        ArtifactKind::Msi => "Msi",
        ArtifactKind::Jar => "Jar",
        ArtifactKind::Zip => "Zip",
        ArtifactKind::Rar => "Rar",
        ArtifactKind::SevenZip => "SevenZip",
        ArtifactKind::Cab => "Cab",
        ArtifactKind::Iso => "Iso",
        ArtifactKind::Tar => "Tar",
        ArtifactKind::Gzip => "Gzip",
        ArtifactKind::Bzip2 => "Bzip2",
        ArtifactKind::Xz => "Xz",
        ArtifactKind::Apk => "Apk",
        ArtifactKind::Pdf => "Pdf",
        ArtifactKind::Png => "Png",
        ArtifactKind::Jpg => "Jpg",
        ArtifactKind::Gif => "Gif",
        ArtifactKind::Sqlite => "Sqlite",
        ArtifactKind::Pak => "Pak",
        ArtifactKind::Bin => "Bin",
        ArtifactKind::Dat => "Dat",
        ArtifactKind::Bat => "Bat",
        ArtifactKind::Cmd => "Cmd",
        ArtifactKind::Ps1 => "Ps1",
        ArtifactKind::Vbs => "Vbs",
        ArtifactKind::Js => "Js",
        ArtifactKind::Ini => "Ini",
        ArtifactKind::Cfg => "Cfg",
        ArtifactKind::Json => "Json",
        ArtifactKind::Yml => "Yml",
        ArtifactKind::Yaml => "Yaml",
        ArtifactKind::Txt => "Txt",
        ArtifactKind::Log => "Log",
        ArtifactKind::OleCompound => "OleCompound",
        ArtifactKind::Pe => "Pe",
        ArtifactKind::Unknown => "Unknown",
    }
}

/// The name of a family.
pub open spec fn family_title(value: ArtifactFamily) -> Seq<char> {
    match value {
        ArtifactFamily::Archive => "Archive"@,
        ArtifactFamily::Executable => "Executable"@,
        ArtifactFamily::Script => "Script"@,
        ArtifactFamily::Container => "Container"@,
        ArtifactFamily::Database => "Database"@,
        ArtifactFamily::Document => "Document"@,
        ArtifactFamily::Image => "Image"@,
        ArtifactFamily::Config => "Config"@,
        ArtifactFamily::Text => "Text"@,
        ArtifactFamily::Binary => "Binary"@,
        ArtifactFamily::Unknown => "Unknown"@,
    }
}

pub fn family_title_of(value: ArtifactFamily) -> (r: &'static str)
    ensures
        r@ == family_title(value),
{
    match value {
        ArtifactFamily::Archive => "Archive",
        ArtifactFamily::Executable => "Executable",
        ArtifactFamily::Script => "Script",
        ArtifactFamily::Container => "Container",
        ArtifactFamily::Database => "Database",
        ArtifactFamily::Document => "Document",
        ArtifactFamily::Image => "Image",
        ArtifactFamily::Config => "Config",
        ArtifactFamily::Text => "Text",
        ArtifactFamily::Binary => "Binary",
        ArtifactFamily::Unknown => "Unknown",
    }
}

/// The name of an origin.
pub open spec fn origin_title(value: OriginType) -> Seq<char> {
    match value {
        OriginType::FilesystemDeletedEntry => "FilesystemDeletedEntry"@,
        OriginType::FilesystemOrphanedEntry => "FilesystemOrphanedEntry"@,
        OriginType::UnallocatedCarved => "UnallocatedCarved"@,
        OriginType::PartialFragment => "PartialFragment"@,
    }
}

pub fn origin_title_of(value: OriginType) -> (r: &'static str)
    ensures
        r@ == origin_title(value),
{
    match value {
        OriginType::FilesystemDeletedEntry => "FilesystemDeletedEntry",
        OriginType::FilesystemOrphanedEntry => "FilesystemOrphanedEntry",
        OriginType::UnallocatedCarved => "UnallocatedCarved",
        OriginType::PartialFragment => "PartialFragment",
    }
}

/// The name of a confidence.
pub open spec fn confidence_title(value: Confidence) -> Seq<char> {
    match value {
        Confidence::High => "High"@,
        Confidence::Medium => "Medium"@,
        Confidence::Low => "Low"@,
    }
}

pub fn confidence_title_of(value: Confidence) -> (r: &'static str)
    ensures
        r@ == confidence_title(value),
{
    match value {
        Confidence::High => "High",
        Confidence::Medium => "Medium",
        Confidence::Low => "Low",
    }
}

/// The name of a recoverability.
pub open spec fn recoverability_title(value: Recoverability) -> Seq<char> {
    match value {
        Recoverability::Good => "Good"@,
        Recoverability::Partial => "Partial"@,
        Recoverability::Poor => "Poor"@,
        Recoverability::Unknown => "Unknown"@,
    }
}

pub fn recoverability_title_of(value: Recoverability) -> (r: &'static str)
    ensures
        r@ == recoverability_title(value),
{
    match value {
        Recoverability::Good => "Good",
        Recoverability::Partial => "Partial",
        Recoverability::Poor => "Poor",
        Recoverability::Unknown => "Unknown",
    }
}

/// The name of a status.
pub open spec fn status_title(value: ScanStatus) -> Seq<char> {
    match value {
        ScanStatus::Idle => "Idle"@,
        ScanStatus::Running => "Running"@,
        ScanStatus::Completed => "Completed"@,
        ScanStatus::CompletedWithWarnings => "CompletedWithWarnings"@,
        ScanStatus::Failed => "Failed"@,
        ScanStatus::Cancelled => "Cancelled"@,
    }
}

pub fn status_title_of(value: ScanStatus) -> (r: &'static str)
    ensures
        r@ == status_title(value),
{
    match value {
        ScanStatus::Idle => "Idle",
        ScanStatus::Running => "Running",
        ScanStatus::Completed => "Completed",
        ScanStatus::CompletedWithWarnings => "CompletedWithWarnings",
        ScanStatus::Failed => "Failed",
        ScanStatus::Cancelled => "Cancelled",
    }
}

// ---------------------------------------------------------------------------
// Text for documents.

/// With a text in the place of every `c`.
pub open spec fn substituted(s: Seq<char>, c: char, text: Seq<char>) -> Seq<char>
    decreases s.len(),
{
    if s.len() == 0 {
        seq![]
    } else {
        substituted(s.drop_last(), c, text) + if s.last() == c {
            text
        } else {
            seq![s.last()]
        }
    }
}

fn substitute(s: &str, c: char, text: &str) -> (r: String)
    ensures
        r@ == substituted(s@, c, text@),
{
    let chars = chars_of(s);
    let mut out = String::new();
    let mut i: usize = 0;
    proof {
        assert(chars@.subrange(0, 0) =~= seq![]);
        assert(out@ =~= seq![]);
    }
    while i < chars.len()
        invariant
            i <= chars@.len(),
            out@ == substituted(chars@.subrange(0, i as int), c, text@),
        decreases chars@.len() - i,
    {
        let ghost before = out@;
        proof {
            let longer = chars@.subrange(0, i + 1);
            assert(longer.drop_last() =~= chars@.subrange(0, i as int));
            assert(longer.last() == chars@[i as int]);
        }
        if chars[i] == c {
            out.append(text);
        } else {
            out.push(chars[i]);
            assert(out@ =~= before + seq![chars@[i as int]]);
        }
        i += 1;
    }
    assert(chars@.subrange(0, i as int) =~= s@);
    out
}

/// What text becomes in a DFXML document.
pub open spec fn xml_text(s: Seq<char>) -> Seq<char> {
    substituted(substituted(html_text(s), '\'', "&apos;"@), '"', "&quot;"@)
}

pub fn xml_escape(value: &str) -> (r: String)
    ensures
        r@ == xml_text(value@),
{
    let page = escape_html(value);
    let once = substitute(page.as_str(), '\'', "&apos;");
    substitute(once.as_str(), '"', "&quot;")
}

/// One text after the other.
pub open spec fn in_a_row(parts: Seq<Seq<char>>) -> Seq<char>
    decreases parts.len(),
{
    if parts.len() == 0 {
        seq![]
    } else {
        in_a_row(parts.drop_last()) + parts.last()
    }
}

/// A text, or what stands for a missing one.
pub open spec fn text_or(text: Option<Seq<char>>, other: Seq<char>) -> Seq<char> {
    match text {
        Some(t) => t,
        None => other,
    }
}

fn str_or<'a>(text: &'a Option<String>, other: &'a str) -> (r: &'a str)
    ensures
        r@ == text_or(opt_view(*text), other@),
{
    match text {
        Some(t) => t.as_str(),
        None => other,
    }
}

fn append_all(parts: &Vec<&str>) -> (r: String)
    ensures
        r@ == in_a_row(parts@.map_values(|p: &str| p@)),
{
    let ghost all = parts@.map_values(|p: &str| p@);
    let mut out = String::new();
    let mut i: usize = 0;
    proof {
        assert(all.subrange(0, 0) =~= seq![]);
        assert(out@ =~= seq![]);
    }
    while i < parts.len()
        invariant
            i <= parts@.len(),
            all == parts@.map_values(|p: &str| p@),
            out@ == in_a_row(all.subrange(0, i as int)),
        decreases parts@.len() - i,
    {
        proof {
            assert(all.subrange(0, i + 1).drop_last() =~= all.subrange(0, i as int));
            assert(all.subrange(0, i + 1).last() == parts@[i as int]@);
        }
        out.append(parts[i]);
        i += 1;
    }
    assert(all.subrange(0, i as int) =~= all);
    out
}

// ---------------------------------------------------------------------------
// The table of comma-separated values.

/// The names of the columns.
pub open spec fn csv_header() -> Seq<Seq<char>> {
    seq![
        "id"@,
        "name"@,
        "path"@,
        "kind"@,
        "family"@,
        "origin_type"@,
        "confidence"@,
        "recoverability"@,
        "size"@,
        "record_number"@,
        "raw_offset"@,
    ]
}

/// The row of a result.
pub open spec fn csv_values(a: ArtifactView) -> Seq<Seq<char>> {
    seq![
        a.id,
        a.name,
        text_or(a.original_path, ""@),
        kind_title(a.kind),
        family_title(a.family),
        origin_title(a.origin_type),
        confidence_title(a.confidence),
        recoverability_title(a.recoverability),
        decimal(a.size as nat),
        match a.filesystem_record {
            Some(number) => decimal(number as nat),
            None => ""@,
        },
        match a.raw_offset {
            Some(offset) => "0x"@ + hexadecimal(offset as nat, false),
            None => ""@,
        },
    ]
}

/// The rows of results.
pub open spec fn csv_rows(results: Seq<ArtifactView>) -> Seq<char>
    decreases results.len(),
{
    if results.len() == 0 {
        csv_row(csv_header())
    } else {
        csv_rows(results.drop_last()) + csv_row(csv_values(results.last()))
    }
}

fn header_line() -> (r: String)
    ensures
        r@ == csv_row(csv_header()),
{
    let mut fields: Vec<String> = Vec::new();
    fields.push(owned("id"));
    fields.push(owned("name"));
    fields.push(owned("path"));
    fields.push(owned("kind"));
    fields.push(owned("family"));
    fields.push(owned("origin_type"));
    fields.push(owned("confidence"));
    fields.push(owned("recoverability"));
    fields.push(owned("size"));
    fields.push(owned("record_number"));
    fields.push(owned("raw_offset"));
    assert(views(fields@) =~= csv_header());
    csv_line(&fields)
}

fn result_line(artifact: &ArtifactRecord) -> (r: String)
    ensures
        r@ == csv_row(csv_values(artifact@)),
{
    let number: String = match artifact.filesystem_record {
        Some(number) => decimal_string(number),
        None => owned(""),
    };
    let offset: String = match artifact.raw_offset {
        Some(offset) => {
            let digits = hex_string(offset, false, 0);
            concat2("0x", digits.as_str())
        },
        None => owned(""),
    };
    let mut fields: Vec<String> = Vec::new();
    fields.push(artifact.id.clone());
    fields.push(artifact.name.clone());
    fields.push(owned(str_or(&artifact.original_path, "")));
    fields.push(owned(kind_title_of(artifact.kind)));
    fields.push(owned(family_title_of(artifact.family)));
    fields.push(owned(origin_title_of(artifact.origin_type)));
    fields.push(owned(confidence_title_of(artifact.confidence)));
    fields.push(owned(recoverability_title_of(artifact.recoverability)));
    fields.push(decimal_string(artifact.size));
    fields.push(number);
    fields.push(offset);
    assert(views(fields@) =~= csv_values(artifact@));
    csv_line(&fields)
}

/// The table of comma-separated values.
pub fn build_csv(results: &Vec<ArtifactRecord>) -> (r: String)
    ensures
        r@ == csv_rows(record_views(results@)),
{
    let ghost all = record_views(results@);
    let mut out = header_line();
    let mut i: usize = 0;
    assert(all.subrange(0, 0) =~= seq![]);
    while i < results.len()
        invariant
            i <= results@.len(),
            all == record_views(results@),
            out@ == csv_rows(all.subrange(0, i as int)),
        decreases results@.len() - i,
    {
        proof {
            assert(all.subrange(0, i + 1).drop_last() =~= all.subrange(0, i as int));
            assert(all.subrange(0, i + 1).last() == results@[i as int]@);
        }
        let line = result_line(&results[i]);
        out.append(line.as_str());
        i += 1;
    }
    assert(all.subrange(0, i as int) =~= all);
    out
}

// ---------------------------------------------------------------------------
// The page.

/// The row of a result in the page.
pub open spec fn html_row(a: ArtifactView) -> Seq<char> {
    in_a_row(
        seq![
            "<tr><td>"@,
            html_text(a.name),
            "</td><td>"@,
            html_text(text_or(a.original_path, "-"@)),
            "</td><td>"@,
            html_text(kind_title(a.kind)),
            "</td><td>"@,
            confidence_title(a.confidence),
            "</td><td>"@,
            recoverability_title(a.recoverability),
            "</td><td>"@,
            decimal(a.size as nat),
            "</td></tr>"@,
        ],
    )
}

/// The rows of results in the page.
pub open spec fn html_rows(results: Seq<ArtifactView>) -> Seq<char>
    decreases results.len(),
{
    if results.len() == 0 {
        seq![]
    } else {
        html_rows(results.drop_last()) + html_row(results.last())
    }
}

/// The page in front of the scan's id.
pub open spec fn page_head() -> Seq<char> {
    r#"<!doctype html>
<html lang="en">
<head>
  <meta charset="utf-8" />
  <title>Files report</title>
  <style>
    body { font-family: "Segoe UI", sans-serif; background: #0d1117; color: #e6edf3; margin: 40px; }
    table { width: 100%; border-collapse: collapse; margin-top: 24px; }
    th, td { border-bottom: 1px solid #30363d; text-align: left; padding: 10px; font-size: 13px; }
    .card { background: #161b22; border: 1px solid #30363d; border-radius: 16px; padding: 20px; margin-bottom: 16px; }
  </style>
</head>
<body>
  <div class="card">
    <h1>Files Scan Report</h1>
    <p><strong>Scan:</strong> "#@
}

/// The page between the number of results and their rows.
pub open spec fn page_middle() -> Seq<char> {
    r#"</p>
  </div>
  <table>
    <thead>
      <tr>
        <th>Name</th>
        <th>Original Path</th>
        <th>Kind</th>
        <th>Confidence</th>
        <th>Recoverability</th>
        <th>Size</th>
      </tr>
    </thead>
    <tbody>"#@
}

/// The page behind the rows.
pub open spec fn page_end() -> Seq<char> {
    r#"</tbody>
  </table>
</body>
</html>"#@
}

/// The page on a scan.
pub open spec fn html_page(s: SnapshotView) -> Seq<char> {
    in_a_row(
        seq![
            page_head(),
            html_text(s.summary.scan_id),
            "</p>\n    <p><strong>Source:</strong> "@,
            html_text(s.summary.source_name),
            "</p>\n    <p><strong>Status:</strong> "@,
            status_title(s.summary.status),
            "</p>\n    <p><strong>Results:</strong> "@,
            decimal(s.results.len()),
            page_middle(),
            html_rows(s.results),
            page_end(),
        ],
    )
}

fn result_row(artifact: &ArtifactRecord) -> (r: String)
    ensures
        r@ == html_row(artifact@),
{
    let name = escape_html(artifact.name.as_str());
    let path = escape_html(str_or(&artifact.original_path, "-"));
    let kind = escape_html(kind_title_of(artifact.kind));
    let size = decimal_string(artifact.size);
    let mut parts: Vec<&str> = Vec::new();
    parts.push("<tr><td>");
    parts.push(name.as_str());
    parts.push("</td><td>");
    parts.push(path.as_str());
    parts.push("</td><td>");
    parts.push(kind.as_str());
    parts.push("</td><td>");
    parts.push(confidence_title_of(artifact.confidence));
    parts.push("</td><td>");
    parts.push(recoverability_title_of(artifact.recoverability));
    parts.push("</td><td>");
    parts.push(size.as_str());
    parts.push("</td></tr>");
    assert(parts@.map_values(|p: &str| p@) =~= seq![
        "<tr><td>"@,
        html_text(artifact@.name),
        "</td><td>"@,
        html_text(text_or(artifact@.original_path, "-"@)),
        "</td><td>"@,
        html_text(kind_title(artifact@.kind)),
        "</td><td>"@,
        confidence_title(artifact@.confidence),
        "</td><td>"@,
        recoverability_title(artifact@.recoverability),
        "</td><td>"@,
        decimal(artifact@.size as nat),
        "</td></tr>"@,
    ]);
    append_all(&parts)
}

fn result_rows(results: &Vec<ArtifactRecord>) -> (r: String)
    ensures
        r@ == html_rows(record_views(results@)),
{
    let ghost all = record_views(results@);
    let mut out = String::new();
    let mut i: usize = 0;
    proof {
        assert(all.subrange(0, 0) =~= seq![]);
        assert(out@ =~= seq![]);
    }
    while i < results.len()
        invariant
            i <= results@.len(),
            all == record_views(results@),
            out@ == html_rows(all.subrange(0, i as int)),
        decreases results@.len() - i,
    {
        proof {
            assert(all.subrange(0, i + 1).drop_last() =~= all.subrange(0, i as int));
            assert(all.subrange(0, i + 1).last() == results@[i as int]@);
        }
        let row = result_row(&results[i]);
        out.append(row.as_str());
        i += 1;
    }
    assert(all.subrange(0, i as int) =~= all);
    out
}

/// The page on a scan.
pub fn build_html(snapshot: &ScanSnapshot) -> (r: String)
    ensures
        r@ == html_page(snapshot@),
{
    let rows = result_rows(&snapshot.results);
    let scan_id = escape_html(snapshot.summary.scan_id.as_str());
    let source = escape_html(snapshot.summary.source_name.as_str());
    let count = decimal_string(snapshot.results.len() as u64);
    let head: &str = r#"<!doctype html>
<html lang="en">
<head>
  <meta charset="utf-8" />
  <title>Files report</title>
  <style>
    body { font-family: "Segoe UI", sans-serif; background: #0d1117; color: #e6edf3; margin: 40px; }
    table { width: 100%; border-collapse: collapse; margin-top: 24px; }
    th, td { border-bottom: 1px solid #30363d; text-align: left; padding: 10px; font-size: 13px; }
    .card { background: #161b22; border: 1px solid #30363d; border-radius: 16px; padding: 20px; margin-bottom: 16px; }
  </style>
</head>
<body>
  <div class="card">
    <h1>Files Scan Report</h1>
    <p><strong>Scan:</strong> "#;
    let middle: &str = r#"</p>
  </div>
  <table>
    <thead>
      <tr>
        <th>Name</th>
        <th>Original Path</th>
        <th>Kind</th>
        <th>Confidence</th>
        <th>Recoverability</th>
        <th>Size</th>
      </tr>
    </thead>
    <tbody>"#;
    let end: &str = r#"</tbody>
  </table>
</body>
</html>"#;
    let mut parts: Vec<&str> = Vec::new();
    parts.push(head);
    parts.push(scan_id.as_str());
    parts.push("</p>\n    <p><strong>Source:</strong> ");
    parts.push(source.as_str());
    parts.push("</p>\n    <p><strong>Status:</strong> ");
    parts.push(status_title_of(snapshot.summary.status));
    parts.push("</p>\n    <p><strong>Results:</strong> ");
    parts.push(count.as_str());
    parts.push(middle);
    parts.push(rows.as_str());
    parts.push(end);
    assert(parts@.map_values(|p: &str| p@) =~= seq![
        page_head(),
        html_text(snapshot@.summary.scan_id),
        "</p>\n    <p><strong>Source:</strong> "@,
        html_text(snapshot@.summary.source_name),
        "</p>\n    <p><strong>Status:</strong> "@,
        status_title(snapshot@.summary.status),
        "</p>\n    <p><strong>Results:</strong> "@,
        decimal(snapshot@.results.len()),
        page_middle(),
        html_rows(snapshot@.results),
        page_end(),
    ]);
    append_all(&parts)
}

// ---------------------------------------------------------------------------
// The DFXML document.

/// A result in the document.
pub open spec fn dfxml_entry(a: ArtifactView) -> Seq<char> {
    in_a_row(
        seq![
            "<fileobject><filename>"@,
            xml_text(text_or(a.original_path, a.name)),
            "</filename><filesize>"@,
            decimal(a.size as nat),
            "</filesize><hashdigest type=\"sha256\"></hashdigest><meta><kind>"@,
            kind_title(a.kind),
            "</kind><confidence>"@,
            confidence_title(a.confidence),
            "</confidence><recoverability>"@,
            recoverability_title(a.recoverability),
            "</recoverability><origin>"@,
            origin_title(a.origin_type),
            "</origin></meta></fileobject>"@,
        ],
    )
}

/// The results in the document.
pub open spec fn dfxml_entries(results: Seq<ArtifactView>) -> Seq<char>
    decreases results.len(),
{
    if results.len() == 0 {
        seq![]
    } else {
        dfxml_entries(results.drop_last()) + dfxml_entry(results.last())
    }
}

/// The document on a scan.
pub open spec fn dfxml_document(s: SnapshotView) -> Seq<char> {
    in_a_row(
        seq![
            "<?xml version=\"1.0\" encoding=\"UTF-8\"?>\n<dfxml xmloutputversion=\"1.1\">\n  <metadata>\n    <source>"@,
            xml_text(s.summary.source_name),
            "</source>\n    <scan_id>"@,
            xml_text(s.summary.scan_id),
            "</scan_id>\n    <status>"@,
            status_title(s.summary.status),
            "</status>\n  </metadata>\n  <source_path>"@,
            xml_text(s.source.device_path@),
            "</source_path>\n  "@,
            dfxml_entries(s.results),
            "\n</dfxml>"@,
        ],
    )
}

fn result_entry(artifact: &ArtifactRecord) -> (r: String)
    ensures
        r@ == dfxml_entry(artifact@),
{
    let name = xml_escape(str_or(&artifact.original_path, artifact.name.as_str()));
    let size = decimal_string(artifact.size);
    let mut parts: Vec<&str> = Vec::new();
    parts.push("<fileobject><filename>");
    parts.push(name.as_str());
    parts.push("</filename><filesize>");
    parts.push(size.as_str());
    parts.push("</filesize><hashdigest type=\"sha256\"></hashdigest><meta><kind>");
    parts.push(kind_title_of(artifact.kind));
    parts.push("</kind><confidence>");
    parts.push(confidence_title_of(artifact.confidence));
    parts.push("</confidence><recoverability>");
    parts.push(recoverability_title_of(artifact.recoverability));
    parts.push("</recoverability><origin>");
    parts.push(origin_title_of(artifact.origin_type));
    parts.push("</origin></meta></fileobject>");
    assert(parts@.map_values(|p: &str| p@) =~= seq![
        "<fileobject><filename>"@,
        xml_text(text_or(artifact@.original_path, artifact@.name)),
        "</filename><filesize>"@,
        decimal(artifact@.size as nat),
        "</filesize><hashdigest type=\"sha256\"></hashdigest><meta><kind>"@,
        kind_title(artifact@.kind),
        "</kind><confidence>"@,
        confidence_title(artifact@.confidence),
        "</confidence><recoverability>"@,
        recoverability_title(artifact@.recoverability),
        "</recoverability><origin>"@,
        origin_title(artifact@.origin_type),
        "</origin></meta></fileobject>"@,
    ]);
    append_all(&parts)
}

fn result_entries(results: &Vec<ArtifactRecord>) -> (r: String)
    ensures
        r@ == dfxml_entries(record_views(results@)),
{
    let ghost all = record_views(results@);
    let mut out = String::new();
    let mut i: usize = 0;
    proof {
        assert(all.subrange(0, 0) =~= seq![]);
        assert(out@ =~= seq![]);
    }
    while i < results.len()
        invariant
            i <= results@.len(),
            all == record_views(results@),
            out@ == dfxml_entries(all.subrange(0, i as int)),
        decreases results@.len() - i,
    {
        proof {
            assert(all.subrange(0, i + 1).drop_last() =~= all.subrange(0, i as int));
            assert(all.subrange(0, i + 1).last() == results@[i as int]@);
        }
        let entry = result_entry(&results[i]);
        out.append(entry.as_str());
        i += 1;
    }
    assert(all.subrange(0, i as int) =~= all);
    out
}

/// The DFXML document on a scan.
pub fn build_dfxml(snapshot: &ScanSnapshot) -> (r: String)
    ensures
        r@ == dfxml_document(snapshot@),
{
    let entries = result_entries(&snapshot.results);
    let source = xml_escape(snapshot.summary.source_name.as_str());
    let scan_id = xml_escape(snapshot.summary.scan_id.as_str());
    let device = xml_escape(snapshot.source.device_path.as_str());
    let mut parts: Vec<&str> = Vec::new();
    parts.push(
        "<?xml version=\"1.0\" encoding=\"UTF-8\"?>\n<dfxml xmloutputversion=\"1.1\">\n  <metadata>\n    <source>",
    );
    parts.push(source.as_str());
    parts.push("</source>\n    <scan_id>");
    parts.push(scan_id.as_str());
    parts.push("</scan_id>\n    <status>");
    parts.push(status_title_of(snapshot.summary.status));
    parts.push("</status>\n  </metadata>\n  <source_path>");
    parts.push(device.as_str());
    parts.push("</source_path>\n  ");
    parts.push(entries.as_str());
    parts.push("\n</dfxml>");
    assert(parts@.map_values(|p: &str| p@) =~= seq![
        "<?xml version=\"1.0\" encoding=\"UTF-8\"?>\n<dfxml xmloutputversion=\"1.1\">\n  <metadata>\n    <source>"@,
        xml_text(snapshot@.summary.source_name),
        "</source>\n    <scan_id>"@,
        xml_text(snapshot@.summary.scan_id),
        "</scan_id>\n    <status>"@,
        status_title(snapshot@.summary.status),
        "</status>\n  </metadata>\n  <source_path>"@,
        xml_text(snapshot@.source.device_path@),
        "</source_path>\n  "@,
        dfxml_entries(snapshot@.results),
        "\n</dfxml>"@,
    ]);
    append_all(&parts)
}

// ---------------------------------------------------------------------------
// The files of a report.

/// The names of the files of a report, or where they lie.
#[derive(Debug)]
pub struct ReportBundle {
    pub json_path: String,
    pub csv_path: String,
    pub html_path: String,
    pub dfxml_path: String,
}

/// The names of the files of a report on a scan.
pub fn report_names(scan_id: &str) -> (r: ReportBundle)
    ensures
        r.json_path@ == "files-"@ + scan_id@ + ".json"@,
        r.csv_path@ == "files-"@ + scan_id@ + ".csv"@,
        r.html_path@ == "files-"@ + scan_id@ + ".html"@,
        r.dfxml_path@ == "files-"@ + scan_id@ + ".dfxml.xml"@,
{
    ReportBundle {
        json_path: concat3("files-", scan_id, ".json"),
        csv_path: concat3("files-", scan_id, ".csv"),
        html_path: concat3("files-", scan_id, ".html"),
        dfxml_path: concat3("files-", scan_id, ".dfxml.xml"),
    }
}

/// The contents of the reports that the library writes, with the names of the files.
#[derive(Debug)]
pub struct Reports {
    pub names: ReportBundle,
    pub csv: String,
    pub html: String,
    pub dfxml: String,
}

/// The reports of a scan.
pub fn export_reports(snapshot: &ScanSnapshot) -> (r: Reports)
    ensures
        r.names.json_path@ == "files-"@ + snapshot@.summary.scan_id + ".json"@,
        r.names.csv_path@ == "files-"@ + snapshot@.summary.scan_id + ".csv"@,
        r.names.html_path@ == "files-"@ + snapshot@.summary.scan_id + ".html"@,
        r.names.dfxml_path@ == "files-"@ + snapshot@.summary.scan_id + ".dfxml.xml"@,
        r.csv@ == csv_rows(snapshot@.results),
        r.html@ == html_page(snapshot@),
        r.dfxml@ == dfxml_document(snapshot@),
{
    Reports {
        names: report_names(snapshot.summary.scan_id.as_str()),
        csv: build_csv(&snapshot.results),
        html: build_html(snapshot),
        dfxml: build_dfxml(snapshot),
    }
}

// ---------------------------------------------------------------------------
// Laws.

proof fn lemma_html_char(c: char, m: char)
    requires
        m == '<' || m == '>' || m == '"' || m == '\'',
        c != m || m == '<' || m == '>',
    ensures
        !html_char(c).contains(m),
{
    reveal_strlit("&amp;");
    reveal_strlit("&lt;");
    reveal_strlit("&gt;");
    if html_char(c).contains(m) {
        let i = choose|i: int| 0 <= i < html_char(c).len() && html_char(c)[i] == m;
        assert(html_char(c)[i] == m);
    }
}

/// No text of a scan becomes markup of the page: what is written has no angle brackets.
pub proof fn lemma_pages_hold_no_foreign_markup(s: Seq<char>)
    ensures
        !html_text(s).contains('<'),
        !html_text(s).contains('>'),
    decreases s.len(),
{
    if s.len() > 0 {
        lemma_pages_hold_no_foreign_markup(s.drop_last());
        lemma_html_char(s.last(), '<');
        lemma_html_char(s.last(), '>');
        let front = html_text(s.drop_last());
        let back = html_char(s.last());
        assert forall|i: int| 0 <= i < (front + back).len() implies (front + back)[i] != '<' && (
        front + back)[i] != '>' by {
            if i < front.len() {
                assert(front[i] == (front + back)[i]);
                assert(front.contains(front[i]));
            } else {
                assert(back[i - front.len()] == (front + back)[i]);
                assert(back.contains(back[i - front.len()]));
            }
        }
    }
}

proof fn lemma_substituted_has(s: Seq<char>, c: char, text: Seq<char>, m: char)
    requires
        !text.contains(m),
        m == c || !s.contains(m),
    ensures
        !substituted(s, c, text).contains(m),
    decreases s.len(),
{
    if s.len() > 0 {
        let front = s.drop_last();
        if m != c {
            assert(!front.contains(m)) by {
                if front.contains(m) {
                    let i = choose|i: int| 0 <= i < front.len() && front[i] == m;
                    assert(s[i] == m);
                    assert(s.contains(m));
                }
            }
            assert(s.contains(s.last())) by {
                assert(s[s.len() - 1] == s.last());
            }
        }
        lemma_substituted_has(front, c, text, m);
        let done = substituted(front, c, text);
        let last = if s.last() == c {
            text
        } else {
            seq![s.last()]
        };
        assert forall|i: int| 0 <= i < (done + last).len() implies (done + last)[i] != m by {
            if i < done.len() {
                assert(done[i] == (done + last)[i]);
                assert(done.contains(done[i]));
            } else {
                assert(last[i - done.len()] == (done + last)[i]);
                assert(last.contains(last[i - done.len()]));
            }
        }
    }
}

/// No text of a scan becomes markup of the DFXML document: what is written has no angle brackets
/// and no quotes.
pub proof fn lemma_documents_hold_no_foreign_markup(s: Seq<char>)
    ensures
        !xml_text(s).contains('<'),
        !xml_text(s).contains('>'),
        !xml_text(s).contains('"'),
        !xml_text(s).contains('\''),
{
    reveal_strlit("&apos;");
    reveal_strlit("&quot;");
    let a = "&apos;"@;
    let q = "&quot;"@;
    assert forall|m: char| m == '<' || m == '>' || m == '"' || m == '\'' implies !a.contains(m)
        && !q.contains(m) by {
        if a.contains(m) {
            let i = choose|i: int| 0 <= i < a.len() && a[i] == m;
            assert(a[i] == m);
        }
        if q.contains(m) {
            let i = choose|i: int| 0 <= i < q.len() && q[i] == m;
            assert(q[i] == m);
        }
    }
    lemma_pages_hold_no_foreign_markup(s);
    let page = html_text(s);
    let once = substituted(page, '\'', a);
    lemma_substituted_has(page, '\'', a, '<');
    lemma_substituted_has(page, '\'', a, '>');
    lemma_substituted_has(page, '\'', a, '\'');
    lemma_substituted_has(once, '"', q, '<');
    lemma_substituted_has(once, '"', q, '>');
    lemma_substituted_has(once, '"', q, '\'');
    lemma_substituted_has(once, '"', q, '"');
}

} // verus!
