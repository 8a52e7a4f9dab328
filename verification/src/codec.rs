//! Encodings that other crates implement.

use crate::text::{ascii_lower, first_index, joined, opt_view, views};
use sha2::Digest;
use std::io::Read;
use vstd::prelude::*;
use vstd::utf8::{encode_utf8, valid_utf8};

verus! {

/// What the standard base64 engine writes for some bytes.
pub uninterp spec fn base64_text(bytes: Seq<u8>) -> Seq<char>;

/// What the standard base64 engine reads from a text; `None` where it refuses the text.
pub uninterp spec fn base64_bytes(text: Seq<char>) -> Option<Seq<u8>>;

/// `base64::Engine::encode` of `general_purpose::STANDARD`: the standard alphabet with padding.
/// What it writes is what `decode` of the same engine reads back.
#[verifier::external_body]
pub(crate) fn encode_base64(bytes: &[u8]) -> (r: String)
    ensures
        r@ == base64_text(bytes@),
        base64_bytes(r@) == Some(bytes@),
{
    base64::Engine::encode(&base64::engine::general_purpose::STANDARD, bytes)
}

/// `base64::Engine::decode` of `general_purpose::STANDARD`, without its error.
#[verifier::external_body]
pub(crate) fn decode_base64(text: &str) -> (r: Option<Vec<u8>>)
    ensures
        match base64_bytes(text@) {
            Some(bytes) => r matches Some(v) && v@ == bytes,
            None => r is None,
        },
{
    base64::Engine::decode(&base64::engine::general_purpose::STANDARD, text).ok()
}

/// `char::from_u32`: the character with a number, where the number is one of a character.
#[verifier::external_body]
pub(crate) fn char_from_u32(code: u32) -> (r: Option<char>)
    ensures
        if code < 0xd800 || 0xe000 <= code <= 0x10ffff {
            r == Some(code as char)
        } else {
            r is None
        },
{
    char::from_u32(code)
}

/// What SHA-256 makes of bytes, in lower-case hexadecimal.
pub uninterp spec fn sha256_text(bytes: Seq<u8>) -> Seq<char>;

/// `sha2::Sha256::digest` formatted with `{:x}`: the SHA-256 digest of the bytes in lower-case
/// hexadecimal.
#[verifier::external_body]
pub(crate) fn sha256_hex(bytes: &[u8]) -> (r: String)
    ensures
        r@ == sha256_text(bytes@),
{
    format!("{:x}", sha2::Sha256::digest(bytes))
}

/// `std::str::from_utf8`: the text that bytes encode in UTF-8; none where they are not UTF-8.
#[verifier::external_body]
pub(crate) fn decode_utf8(bytes: &[u8]) -> (r: Option<String>)
    ensures
        match r {
            Some(text) => valid_utf8(bytes@) && encode_utf8(text@) == bytes@,
            None => !valid_utf8(bytes@),
        },
{
    std::str::from_utf8(bytes).ok().map(str::to_owned)
}

/// The name of the encoding that a detector guesses from bytes, and whether some other
/// encoding scored lower.
pub uninterp spec fn guessed_encoding(bytes: Seq<u8>) -> (Seq<char>, bool);

/// `chardetng::EncodingDetector::guess_assess`, after all the bytes were fed to the detector:
/// the name of the guessed encoding, UTF-8 being allowed, and whether it scored higher than
/// some other.
#[verifier::external_body]
pub(crate) fn guess_encoding(bytes: &[u8]) -> (r: (String, bool))
    ensures
        (r.0@, r.1) == guessed_encoding(bytes@),
{
    let mut detector = chardetng::EncodingDetector::new();
    detector.feed(bytes, true);
    let (encoding, confident) = detector.guess_assess(None, true);
    (encoding.name().to_owned(), confident)
}

/// The text that bytes hold in the encoding with the given name; none where there is no such
/// encoding or the text cannot be read.
pub uninterp spec fn encoded_text(bytes: Seq<u8>, encoding: Seq<char>) -> Option<Seq<char>>;

/// `encoding_rs_io::DecodeReaderBytes`, read to its end: the bytes as text, from the encoding
/// that `encoding_rs::Encoding::for_label` gives for the name.
#[verifier::external_body]
pub(crate) fn decode_text(bytes: &[u8], encoding: &str) -> (r: Option<String>)
    ensures
        opt_view(r) == encoded_text(bytes@, encoding@),
{
    let encoding = encoding_rs::Encoding::for_label(encoding.as_bytes())?;
    let mut builder = encoding_rs_io::DecodeReaderBytesBuilder::new();
    let mut reader = builder.encoding(Some(encoding)).build(bytes);
    let mut text = String::new();
    reader.read_to_string(&mut text).ok()?;
    Some(text)
}

/// The text under a key of the JSON object that bytes hold, if it is a text; nothing where the
/// bytes hold no JSON.
pub uninterp spec fn json_text_at(bytes: Seq<u8>, key: Seq<char>) -> Option<Option<Seq<char>>>;

pub open spec fn opt_opt_view(text: Option<Option<String>>) -> Option<Option<Seq<char>>> {
    match text {
        Some(found) => Some(opt_view(found)),
        None => None,
    }
}

/// `serde_json::from_slice` into a JSON value, and `Value::get` and `Value::as_str` on it: the
/// text under a key, where the value is an object that has the key and a text under it.
#[verifier::external_body]
pub(crate) fn json_text(bytes: &[u8], key: &str) -> (r: Option<Option<String>>)
    ensures
        opt_opt_view(r) == json_text_at(bytes@, key@),
{
    let value: serde_json::Value = serde_json::from_slice(bytes).ok()?;
    Some(value.get(key).and_then(|found| found.as_str()).map(str::to_owned))
}

/// What a character becomes in the text of a page: `&`, `<` and `>` become entities.
pub open spec fn html_char(c: char) -> Seq<char> {
    if c == '&' {
        "&amp;"@
    } else if c == '<' {
        "&lt;"@
    } else if c == '>' {
        "&gt;"@
    } else {
        seq![c]
    }
}

/// What text becomes in a page.
pub open spec fn html_text(s: Seq<char>) -> Seq<char>
    decreases s.len(),
{
    if s.len() == 0 {
        seq![]
    } else {
        html_text(s.drop_last()) + html_char(s.last())
    }
}

/// `html_escape::encode_text`: every `&`, `<` and `>` becomes `&amp;`, `&lt;` or `&gt;`, and
/// nothing else changes.
#[verifier::external_body]
pub(crate) fn escape_html(text: &str) -> (r: String)
    ensures
        r@ == html_text(text@),
{
    html_escape::encode_text(text).into_owned()
}

/// Characters that a field of a row is quoted for.
pub open spec fn asks_for_quotes(c: char) -> bool {
    c == ',' || c == '"' || c == '\n' || c == '\r'
}

/// With every quote doubled.
pub open spec fn quotes_doubled(s: Seq<char>) -> Seq<char>
    decreases s.len(),
{
    if s.len() == 0 {
        seq![]
    } else {
        quotes_doubled(s.drop_last()) + if s.last() == '"' {
            seq!['"', '"']
        } else {
            seq![s.last()]
        }
    }
}

/// A field of a row.
pub open spec fn csv_field(s: Seq<char>) -> Seq<char> {
    if exists|i: int| 0 <= i < s.len() && asks_for_quotes(#[trigger] s[i]) {
        seq!['"'] + quotes_doubled(s) + seq!['"']
    } else {
        s
    }
}

/// A row of comma-separated values.
pub open spec fn csv_row(fields: Seq<Seq<char>>) -> Seq<char> {
    joined(fields.map_values(|f: Seq<char>| csv_field(f)), ","@) + "\n"@
}

/// `csv::Writer::write_record` with the default settings, into memory: the fields with commas
/// between them and a line feed behind; a field with a comma, a quote or the end of a line in it
/// is put in quotes, and its own quotes are doubled.
#[verifier::external_body]
pub(crate) fn csv_line(fields: &Vec<String>) -> (r: String)
    requires
        fields@.len() >= 2,
    ensures
        r@ == csv_row(views(fields@)),
{
    let mut writer = csv::Writer::from_writer(Vec::new());
    writer.write_record(fields).expect("memory can be written");
    String::from_utf8(writer.into_inner().expect("memory can be written")).expect("fields are text")
}

/// Characters that no file name may hold.
pub open spec fn is_forbidden(c: char) -> bool {
    c == '/' || c == '?' || c == '<' || c == '>' || c == '\\' || c == ':' || c == '*' || c == '|'
        || c == '"' || c as u32 <= 0x1f || 0x80 <= c as u32 <= 0x9f
}

/// Names of devices, with anything behind a dot.
pub open spec fn is_device_name(name: Seq<char>) -> bool {
    let stem = ascii_lower(name.subrange(0, first_index(name, '.')));
    ||| stem == "con"@ || stem == "prn"@ || stem == "aux"@ || stem == "nul"@
    ||| stem.len() == 4 && (stem.subrange(0, 3) == "com"@ || stem.subrange(0, 3) == "lpt"@) && '0'
        <= stem[3] <= '9'
}

/// A name without the characters that no file name may hold.
pub open spec fn kept_chars(name: Seq<char>) -> Seq<char> {
    name.filter(|c: char| !is_forbidden(c))
}

/// A name without the dots and spaces at its end.
pub open spec fn trailing_cut(name: Seq<char>) -> Seq<char>
    decreases name.len(),
{
    if name.len() > 0 && (name.last() == '.' || name.last() == ' ') {
        trailing_cut(name.drop_last())
    } else {
        name
    }
}

/// As many characters of a name, from its front, as fit into 255 bytes.
pub open spec fn fitted(name: Seq<char>) -> Seq<char>
    decreases name.len(),
{
    if name.len() > 0 && vstd::utf8::encode_utf8(name).len() > 255 {
        fitted(name.drop_last())
    } else {
        name
    }
}

/// A name that consists of dots alone becomes empty.
pub open spec fn without_dots_alone(name: Seq<char>) -> Seq<char> {
    if forall|i: int| 0 <= i < name.len() ==> #[trigger] name[i] == '.' {
        seq![]
    } else {
        name
    }
}

/// The name under which a system takes a file: the forbidden characters are taken out, a name of
/// dots alone becomes empty, and the rest is cut to 255 bytes. On Windows a device name becomes
/// empty too, and dots and spaces at the end are dropped.
pub open spec fn sanitized(name: Seq<char>, windows: bool) -> Seq<char> {
    let kept = without_dots_alone(kept_chars(name));
    if !windows {
        fitted(kept)
    } else if is_device_name(kept) {
        seq![]
    } else {
        fitted(trailing_cut(kept))
    }
}

/// A name that every system takes as it is.
pub open spec fn is_safe_file_name(name: Seq<char>) -> bool {
    &&& forall|i: int| 0 <= i < name.len() ==> !is_forbidden(#[trigger] name[i])
    &&& name.len() > 0 && name.last() != '.' && name.last() != ' '
    &&& !is_device_name(name)
    &&& vstd::utf8::encode_utf8(name).len() <= 255
}

/// `sanitize_filename::sanitize`: the name under which the system that it was built for takes a
/// file, by the rules of Windows or by those of the others. Which of the two is not said: it is
/// settled when the crate is built.
#[verifier::external_body]
pub(crate) fn sanitize_name(name: &str) -> (r: String)
    ensures
        r@ == sanitized(name@, true) || r@ == sanitized(name@, false),
{
    sanitize_filename::sanitize(name)
}

proof fn lemma_trailing_cut(name: Seq<char>)
    ensures
        trailing_cut(name).is_prefix_of(name),
    decreases name.len(),
{
    if name.len() > 0 && (name.last() == '.' || name.last() == ' ') {
        lemma_trailing_cut(name.drop_last());
    }
}

proof fn lemma_fitted(name: Seq<char>)
    ensures
        fitted(name).is_prefix_of(name),
        vstd::utf8::encode_utf8(fitted(name)).len() <= 255,
    decreases name.len(),
{
    if name.len() > 0 && vstd::utf8::encode_utf8(name).len() > 255 {
        lemma_fitted(name.drop_last());
    }
}

/// Whatever the system, the name of a file is the front of what its name keeps, it holds no
/// forbidden character, and it fits into 255 bytes.
pub proof fn lemma_sanitized_name_is_a_front(name: Seq<char>, windows: bool)
    ensures
        sanitized(name, windows).is_prefix_of(kept_chars(name)),
        sanitized(name, windows).len() <= name.len(),
        forall|i: int|
            0 <= i < sanitized(name, windows).len() ==> name.contains(
                #[trigger] sanitized(name, windows)[i],
            ) && !is_forbidden(sanitized(name, windows)[i]),
        vstd::utf8::encode_utf8(sanitized(name, windows)).len() <= 255,
{
    let kept = without_dots_alone(kept_chars(name));
    let allowed = |c: char| !is_forbidden(c);
    lemma_trailing_cut(kept);
    lemma_fitted(kept);
    lemma_fitted(trailing_cut(kept));
    lemma_fitted(seq![]);
    name.lemma_filter_len(allowed);
    let r = sanitized(name, windows);
    assert(r.is_prefix_of(kept_chars(name)));
    assert forall|i: int| 0 <= i < r.len() implies name.contains(#[trigger] r[i]) && !is_forbidden(
        r[i],
    ) by {
        assert(r[i] == kept_chars(name)[i]);
        name.lemma_filter_pred(allowed, i);
        name.lemma_filter_contains_rev(allowed, r[i]);
    }
}

/// Whatever the system, a file gets the name that is left without the forbidden characters, if
/// every system takes that name as it is.
pub proof fn lemma_safe_rest_is_the_name(name: Seq<char>, windows: bool)
    requires
        is_safe_file_name(kept_chars(name)),
    ensures
        sanitized(name, windows) == kept_chars(name),
{
    let kept = kept_chars(name);
    assert(kept[kept.len() - 1] != '.');
}

/// A name without forbidden characters keeps them all.
pub proof fn lemma_allowed_names_are_kept(name: Seq<char>)
    requires
        forall|i: int| 0 <= i < name.len() ==> !is_forbidden(#[trigger] name[i]),
    ensures
        kept_chars(name) == name,
    decreases name.len(),
{
    reveal(Seq::filter);
    if name.len() > 0 {
        lemma_allowed_names_are_kept(name.drop_last());
        assert(name.drop_last().push(name.last()) =~= name);
    }
}

} // verus!
