//! What is read from words and written files: lines, numbers, kinds of text, and the names that
//! are looked up.

use crate::bridge::{find_source_at, refreshed, status_of};
use crate::bridge_browse::is_browsable;
use crate::bridge_scans::{find_record_at, is_selected};
use crate::bytes::{laid_at, occurs_at, occurs_in};
use crate::catalog::unsupported;
use crate::catalog_status::{has_catalog, unloaded, CatalogView};
use crate::kinds::{ole_kind, printable, text_kind, textual_kind, utf8_lossy, wide};
use crate::model::{ArtifactKind, ScanSource, ScanStatus};
use crate::numbers::{decimal, parsed, zero_padded};
use crate::records::ArtifactView;
use crate::sessions::{final_status, ScanView};
use crate::signature::{can_be_signed, safe_name};
use crate::text::{
    ascii_lower, count_if, head, is_white, lemma_count_if, lemma_drop_back, lemma_drop_front,
    lemma_first_index, lemma_first_index_props, line_body, lines, lower_char, trimmed,
    trimmed_start,
};
use vstd::prelude::*;
use vstd::string::*;

verus! {

// ---------------------------------------------------------------------------
// Lines and blanks.

/// A text without blanks at its ends is what is left of it between blanks.
pub proof fn lemma_blanks_are_cut_at_the_ends(front: Seq<char>, word: Seq<char>, back: Seq<char>)
    requires
        word.len() > 0,
        !is_white(word[0]),
        !is_white(word.last()),
        forall|i: int| 0 <= i < front.len() ==> is_white(#[trigger] front[i]),
        forall|i: int| 0 <= i < back.len() ==> is_white(#[trigger] back[i]),
    ensures
        trimmed(front + word + back) == word,
        trimmed_start(front + word + back) == word + back,
        trimmed(front) == Seq::<char>::empty(),
        is_white(' ') && is_white('\t') && is_white('\n') && is_white('\r'),
        !is_white('a') && !is_white('_') && !is_white('0'),
{
    let white = |c: char| is_white(c);
    let whole = front + word + back;
    assert forall|i: int| 0 <= i < front.len() implies white(whole[i]) by {
        assert(whole[i] == front[i]);
    }
    assert(whole[front.len() as int] == word[0]);
    lemma_drop_front(whole, white, front.len() as int);
    let rest = word + back;
    assert(whole.subrange(front.len() as int, whole.len() as int) =~= rest);
    assert forall|i: int| word.len() <= i < rest.len() implies white(rest[i]) by {
        assert(rest[i] == back[i - word.len()]);
    }
    assert(rest[word.len() - 1] == word.last());
    lemma_drop_back(rest, white, word.len() as int);
    assert(rest.subrange(0, word.len() as int) =~= word);
    lemma_drop_front(front, white, front.len() as int);
    assert(front.subrange(front.len() as int, front.len() as int) =~= seq![]);
    lemma_drop_back(seq![], white, 0);
}

/// A line ends with a line feed, or with a carriage return and a line feed, which do not belong
/// to it; the lines behind it follow.
pub proof fn lemma_lines_end_with_line_feeds(line: Seq<char>, rest: Seq<char>)
    requires
        forall|i: int| 0 <= i < line.len() ==> #[trigger] line[i] != '\n' && line[i] != '\r',
    ensures
        lines(line + seq!['\n'] + rest) == seq![line] + lines(rest),
        lines(line + seq!['\r', '\n'] + rest) == seq![line] + lines(rest),
        line.len() > 0 ==> lines(line) == seq![line],
        lines(seq![]).len() == 0,
{
    let whole = line + seq!['\n'] + rest;
    lemma_first_index(whole, '\n', line.len() as int);
    assert(whole.subrange(0, line.len() as int) =~= line);
    assert(whole.subrange(1int + line.len(), whole.len() as int) =~= rest);
    assert(line.len() > 0 ==> line.last() != '\r');
    let other = line + seq!['\r', '\n'] + rest;
    assert(other[1int + line.len()] == '\n');
    lemma_first_index(other, '\n', 1int + line.len());
    let body = other.subrange(0, 1int + line.len());
    assert(body =~= line.push('\r'));
    assert(body.drop_last() =~= line);
    assert(other.subrange(2int + line.len(), other.len() as int) =~= rest);
    lemma_first_index(line, '\n', line.len() as int);
}

proof fn lemma_lines_hold_no_more(s: Seq<char>, c: char, k: int)
    requires
        !s.contains(c),
        0 <= k < lines(s).len(),
    ensures
        !lines(s)[k].contains(c),
    decreases s.len(),
{
    if s.len() > 0 {
        lemma_first_index_props(s, '\n');
        let at = crate::text::first_index(s, '\n');
        if at < s.len() {
            let first = s.subrange(0, at);
            let rest = s.subrange(at + 1, s.len() as int);
            if first.contains(c) {
                let i = choose|i: int| 0 <= i < first.len() && first[i] == c;
                assert(s[i] == c);
            }
            if rest.contains(c) {
                let i = choose|i: int| 0 <= i < rest.len() && rest[i] == c;
                assert(s[at + 1 + i] == c);
            }
            if k == 0 {
                if line_body(first).contains(c) {
                    let i = choose|i: int|
                        0 <= i < line_body(first).len() && line_body(first)[i] == c;
                    assert(first[i] == c);
                }
            } else {
                lemma_lines_hold_no_more(rest, c, k - 1);
            }
        }
    }
}

// ---------------------------------------------------------------------------
// Numbers.

/// A number is written digit by digit, the ones last.
pub proof fn lemma_numbers_are_written_by_digits(n: nat, d: nat)
    requires
        d < 10,
    ensures
        n > 0 ==> decimal(10 * n + d) == decimal(n).push((48 + d) as char),
        decimal(d) == seq![(48 + d) as char],
{
    assert((10 * n + d) / 10 == n);
    assert((10 * n + d) % 10 == d);
}

/// A digit reads as its value and moves those in front of it up by ten; a plus in front changes
/// nothing; what is no number is not read.
pub proof fn lemma_numbers_are_read_by_digits(s: Seq<char>, d: int)
    requires
        0 <= d < 10,
        parsed(s) is Some,
        s[0] != '+',
    ensures
        parsed(s.push((48 + d) as char)) == Some(parsed(s)->0 * 10 + d),
        parsed(seq!['+'] + s) == parsed(s),
        parsed(s.push('x')) is None,
        parsed(Seq::<char>::empty()) is None,
        parsed(seq![(48 + d) as char]) == Some(d),
        parsed(seq!['-'] + s) is None,
{
    let c = (48 + d) as char;
    assert('0' <= c && c <= '9' && c as int == 48 + d);
    let more = s.push(c);
    assert(s.len() > 0);
    assert(more[0] == s[0]);
    assert(more.drop_last() =~= s);
    assert forall|i: int| 0 <= i < more.len() implies crate::numbers::is_digit(
        #[trigger] more[i],
    ) by {
        if i < s.len() {
            assert(crate::numbers::is_digit(s[i]));
        }
    }
    let plus = seq!['+'] + s;
    assert(plus.subrange(1, plus.len() as int) =~= s);
    let bad = s.push('x');
    assert(bad[0] == s[0]);
    assert(!crate::numbers::is_digit(bad[s.len() as int]));
    let one = seq![c];
    assert(one.drop_last() =~= seq![]);
    reveal_with_fuel(crate::numbers::digits_value, 2);
    assert(crate::numbers::is_digit(one[0]));
    let minus = seq!['-'] + s;
    assert(minus[0] == '-');
    assert(!crate::numbers::is_digit(minus[0]));
}

/// A number that is padded has zeros in front, and never loses a digit.
pub proof fn lemma_numbers_are_padded_in_front(s: Seq<char>, width: nat, k: int)
    ensures
        zero_padded(s, width).len() >= width,
        s.is_suffix_of(zero_padded(s, width)),
        s.len() >= width ==> zero_padded(s, width) == s,
        0 <= k < width - s.len() ==> zero_padded(s, width)[k] == '0',
{
    let p = zero_padded(s, width);
    assert(s =~= p.subrange(p.len() - s.len(), p.len() as int));
}

// ---------------------------------------------------------------------------
// Written files.

proof fn lemma_no_line_has(s: Seq<char>, c: char)
    requires
        !s.contains(c),
        c != '\u{feff}',
        !('A' <= c <= 'Z'),
        !('a' <= c <= 'z'),
    ensures
        ({
            let start = crate::kinds::text_start(s);
            forall|k: int|
                0 <= k < head(lines(ascii_lower(start)), 24).len() ==> !(#[trigger] head(
                    lines(ascii_lower(start)),
                    24,
                )[k]).contains(c)
        }),
{
    let marked = crate::text::strip_front(s, '\u{feff}');
    let start = crate::kinds::text_start(s);
    lemma_dropping_adds_nothing(s, crate::text::is_char('\u{feff}'), c);
    lemma_dropping_adds_nothing(marked, |x: char| is_white(x), c);
    let low = ascii_lower(start);
    if low.contains(c) {
        let i = choose|i: int| 0 <= i < low.len() && low[i] == c;
        assert(low[i] == lower_char(start[i]));
        assert(start[i] == c);
        assert(start.contains(c));
    }
    let all = lines(low);
    assert forall|k: int| 0 <= k < head(all, 24).len() implies !(#[trigger] head(all, 24)[k]).contains(
        c,
    ) by {
        assert(head(all, 24)[k] == all[k]);
        lemma_lines_hold_no_more(low, c, k);
    }
}

proof fn lemma_dropping_adds_nothing(s: Seq<char>, f: spec_fn(char) -> bool, c: char)
    requires
        !s.contains(c),
    ensures
        !crate::text::drop_front(s, f).contains(c),
    decreases s.len(),
{
    if s.len() > 0 && f(s[0]) {
        let t = s.drop_first();
        if t.contains(c) {
            let i = choose|i: int| 0 <= i < t.len() && t[i] == c;
            assert(s[i + 1] == c);
        }
        lemma_dropping_adds_nothing(t, f, c);
    }
}

/// A written file that begins with a brace, and has no values set with an equals sign, is JSON;
/// so is one that begins with a bracket.
pub proof fn lemma_braces_begin_json(text: Seq<char>)
    requires
        text.len() > 0,
        text[0] == '{' || text[0] == '[',
        !text.contains('='),
    ensures
        text_kind(text) is Json,
{
    let start = crate::kinds::text_start(text);
    lemma_drop_front(text, crate::text::is_char('\u{feff}'), 0);
    assert(text.subrange(0, text.len() as int) =~= text);
    lemma_drop_front(text, |c: char| is_white(c), 0);
    assert(start == text);
    lemma_no_line_has(text, '=');
    let list = head(lines(ascii_lower(start)), 24);
    lemma_count_if(list, |l: Seq<char>| crate::kinds::value_line(l));
    lemma_count_if(list, |l: Seq<char>| crate::kinds::bracket_value_line(l));
}

/// A written file that turns the echo off first is a command file.
pub proof fn lemma_echo_off_begins_a_command_file(text: Seq<char>)
    requires
        text.len() >= 9,
        ascii_lower(text.subrange(0, 9)) == "@echo off"@,
        !text.contains('='),
    ensures
        text_kind(text) is Cmd,
{
    reveal_strlit("@echo off");
    reveal_strlit("#!");
    let start = crate::kinds::text_start(text);
    let front = text.subrange(0, 9);
    assert(ascii_lower(front)[0] == lower_char(front[0]));
    assert("@echo off"@[0] == '@');
    assert(text[0] == '@');
    lemma_drop_front(text, crate::text::is_char('\u{feff}'), 0);
    assert(text.subrange(0, text.len() as int) =~= text);
    lemma_drop_front(text, |c: char| is_white(c), 0);
    assert(start == text);
    let low = ascii_lower(text);
    assert(low.subrange(0, 9) =~= ascii_lower(front));
    assert("@echo off"@.is_prefix_of(low));
    assert("#!"@[0] == '#');
    assert(low[0] == '@');
    lemma_no_line_has(text, '=');
    let list = head(lines(low), 24);
    lemma_count_if(list, |l: Seq<char>| crate::kinds::value_line(l));
}

/// Bytes with a zero among the first ones are no text, and nor is nothing at all; bytes that can
/// all be printed are.
pub proof fn lemma_text_has_no_zeros(s: Seq<u8>)
    requires
        s.len() <= 8192,
    ensures
        s.len() == 0 ==> textual_kind(s) is None,
        s.contains(0u8) ==> textual_kind(s) is None,
        s.len() > 0 && (forall|i: int| 0 <= i < s.len() ==> 0x20 <= #[trigger] s[i] <= 0x7e)
            ==> textual_kind(s) == Some(text_kind(utf8_lossy(s))),
{
    assert(head(s, 8192) =~= s);
    if s.len() > 0 && (forall|i: int| 0 <= i < s.len() ==> 0x20 <= #[trigger] s[i] <= 0x7e) {
        lemma_all_counted(s, |b: u8| printable(b));
        if s.contains(0u8) {
            let i = choose|i: int| 0 <= i < s.len() && s[i] == 0u8;
            assert(0x20 <= s[i]);
        }
    }
}

proof fn lemma_all_counted(s: Seq<u8>, f: spec_fn(u8) -> bool)
    requires
        forall|i: int| 0 <= i < s.len() ==> f(#[trigger] s[i]),
    ensures
        count_if(s, f) == s.len(),
    decreases s.len(),
{
    if s.len() > 0 {
        let t = s.drop_last();
        assert forall|i: int| 0 <= i < t.len() implies f(#[trigger] t[i]) by {
            assert(t[i] == s[i]);
        }
        lemma_all_counted(t, f);
        assert(f(s[s.len() - 1]));
    }
}

/// A compound file that holds the string pool of an installer is an installer; one that holds
/// none of the tables of an installer is a compound file alone.
pub proof fn lemma_installers_hold_their_tables(s: Seq<u8>, at: int)
    ensures
        laid_at(s, at, wide("!_StringPool"@)) ==> ole_kind(s) is Msi,
        laid_at(s, at, wide("!_StringData"@)) ==> ole_kind(s) is Msi,
        laid_at(s, at, wide("!_Validation"@)) ==> ole_kind(s) is Msi,
        laid_at(s, at, wide("MsiDigitalSignatureEx"@)) ==> ole_kind(s) is Msi,
        !s.contains(0x5fu8) && !s.contains(0x4du8) ==> ole_kind(s) is OleCompound,
{
    let p = wide("!_StringPool"@);
    let d = wide("!_StringData"@);
    let v = wide("!_Validation"@);
    let m = wide("MsiDigitalSignatureEx"@);
    lemma_laid_occurs(s, at, p);
    lemma_laid_occurs(s, at, d);
    lemma_laid_occurs(s, at, v);
    lemma_laid_occurs(s, at, m);
    reveal_strlit("!_StringPool");
    reveal_strlit("!_StringData");
    reveal_strlit("!_Validation");
    reveal_strlit("MsiDigitalSignatureEx");
    assert(p[2] == 0x5f && d[2] == 0x5f && v[2] == 0x5f && m[0] == 0x4d);
    if !s.contains(0x5fu8) && !s.contains(0x4du8) {
        lemma_missing_byte(s, p, 2);
        lemma_missing_byte(s, d, 2);
        lemma_missing_byte(s, v, 2);
        lemma_missing_byte(s, m, 0);
    }
}

proof fn lemma_small_char(c: char)
    requires
        (c as int) < 0x80,
    ensures
        c as u8 as int == c as int,
{
}

/// A wide text has each character in two bytes, of which the second is zero.
pub proof fn lemma_wide_texts_have_zeros_between(t: Seq<char>, k: int)
    requires
        0 <= k < t.len(),
        (t[k] as int) < 0x80,
    ensures
        wide(t).len() == 2 * t.len(),
        wide(t)[2 * k] as int == t[k] as int,
        wide(t)[2 * k + 1] == 0,
{
    lemma_small_char(t[k]);
    assert((2 * k) / 2 == k && (2 * k) % 2 == 0);
    assert((2 * k + 1) % 2 == 1);
}

proof fn lemma_laid_occurs(s: Seq<u8>, at: int, part: Seq<u8>)
    ensures
        laid_at(s, at, part) ==> occurs_in(s, part),
{
    if laid_at(s, at, part) {
        assert(s.subrange(at, at + part.len()) =~= part);
        assert(occurs_at(s, part, at));
    }
}

proof fn lemma_missing_byte(s: Seq<u8>, part: Seq<u8>, k: int)
    requires
        0 <= k < part.len(),
        !s.contains(part[k]),
    ensures
        !occurs_in(s, part),
{
    if occurs_in(s, part) {
        let at = choose|at: int| occurs_at(s, part, at);
        assert(s.subrange(at, at + part.len())[k] == part[k]);
        assert(s[at + k] == part[k]);
    }
}

// ---------------------------------------------------------------------------
// Signatures.

/// Programs and installers can be signed, and nothing else.
pub proof fn lemma_programs_can_be_signed(kind: ArtifactKind)
    ensures
        can_be_signed(kind) <==> kind is Exe || kind is Dll || kind is Sys || kind is Scr
            || kind is Ocx || kind is Cpl || kind is Pe || kind is Msi,
{
}

/// The name of a copy has the letters, digits, dots, dashes and underscores of the name, and
/// underscores for all else.
pub proof fn lemma_copies_have_safe_names(name: Seq<char>, i: int)
    requires
        0 <= i < name.len(),
    ensures
        safe_name(name).len() == name.len(),
        ('a' <= name[i] <= 'z') || ('A' <= name[i] <= 'Z') || ('0' <= name[i] <= '9') || name[i]
            == '.' || name[i] == '-' || name[i] == '_' ==> safe_name(name)[i] == name[i],
        name[i] == '\\' || name[i] == '/' || name[i] == ':' || name[i] == ' ' || name[i] == '\''
            || name[i] == '"' ==> safe_name(name)[i] == '_',
{
}

// ---------------------------------------------------------------------------
// What is looked up.

/// A source is found by its id: the first one that has it, and none where none has it.
pub proof fn lemma_sources_are_found_by_id(sources: Seq<ScanSource>, id: Seq<char>, from: int)
    requires
        0 <= from <= sources.len(),
    ensures
        match find_source_at(sources, id, from) {
            Some(s) => s.id@ == id && sources.contains(s),
            None => forall|i: int| from <= i < sources.len() ==> (#[trigger] sources[i]).id@ != id,
        },
    decreases sources.len() - from,
{
    if from < sources.len() {
        assert(sources.contains(sources[from]));
        lemma_sources_are_found_by_id(sources, id, from + 1);
    }
}

/// A result is found by its id, and none where no result has it.
pub proof fn lemma_results_are_found_by_id(records: Seq<ArtifactView>, id: Seq<char>, from: int)
    requires
        0 <= from <= records.len(),
    ensures
        match find_record_at(records, id, from) {
            Some(r) => r.id == id && records.contains(r),
            None => forall|i: int| from <= i < records.len() ==> (#[trigger] records[i]).id != id,
        },
    decreases records.len() - from,
{
    if from < records.len() {
        assert(records.contains(records[from]));
        lemma_results_are_found_by_id(records, id, from + 1);
    }
}

/// Of results those are selected whose id is on the list.
pub proof fn lemma_results_are_selected_by_id(ids: Seq<Seq<char>>, r: ArtifactView)
    ensures
        is_selected(ids)(r) <==> exists|i: int| 0 <= i < ids.len() && #[trigger] ids[i] == r.id,
{
}

/// A refresh leaves each source that is still there its status, and gives each new one that of a
/// catalog that was never loaded.
pub proof fn lemma_refreshes_keep_statuses(
    statuses: Map<Seq<char>, CatalogView>,
    sources: Seq<ScanSource>,
    now: Seq<char>,
    i: int,
)
    requires
        0 <= i < sources.len(),
    ensures
        ({
            let after = refreshed(statuses, sources, now);
            let id = sources[i].id@;
            &&& after.contains_key(id)
            &&& statuses.contains_key(id) ==> after[id] == statuses[id]
            &&& !statuses.contains_key(id) ==> after[id] == unloaded(id, now)
            &&& status_of(statuses, id, now) == after[id]
        }),
{
    assert(sources[i].id@ == sources[i].id@);
}

/// A scan is browsed that is over, of the source that is asked for, once its files are placed.
pub proof fn lemma_finished_scans_are_browsed(s: ScanView, source_id: Seq<char>)
    ensures
        is_browsable(s, source_id) ==> s.source.id@ == source_id && s.cache is Some,
        s.source.id@ == source_id && s.cache is Some ==> {
            &&& s.progress.status is Completed || s.progress.status is CompletedWithWarnings
                || s.progress.status is Cancelled ==> is_browsable(s, source_id)
            &&& s.progress.status is Running || s.progress.status is Failed ==> !is_browsable(
                s,
                source_id,
            )
        },
{
}

/// A scan with warnings ends with warnings; one without ends as it went.
pub proof fn lemma_warnings_show_in_the_end(status: ScanStatus, warnings: Seq<Seq<char>>)
    ensures
        warnings.len() > 0 ==> final_status(status, warnings) is CompletedWithWarnings,
        warnings.len() == 0 ==> final_status(status, warnings) == status,
{
}

/// A mounted volume has a catalog, and nothing else has one.
pub proof fn lemma_mounted_volumes_have_catalogs(source: ScanSource)
    ensures
        has_catalog(source) <==> source.kind is LogicalVolume && source.mount_point is Some,
        has_catalog(source) <==> unsupported(source) is None,
{
}

} // verus!
