//! Operations on strings, stated over their characters.

use crate::bytes::{occurs_at, occurs_in};
use vstd::prelude::*;
use vstd::string::*;

verus! {

/// `String::push` appends one character.
pub assume_specification[ String::push ](s: &mut String, c: char)
    ensures
        final(s)@ == old(s)@.push(c),
;

/// `==` on string slices compares their characters.
pub assume_specification[ <str as PartialEq>::eq ](s: &str, other: &str) -> (res: bool)
    ensures
        res == (s@ == other@),
;

// ---------------------------------------------------------------------------
// Views of optional strings and of lists of strings.

/// The characters of an optional string.
pub open spec fn opt_view(o: Option<String>) -> Option<Seq<char>> {
    match o {
        Some(s) => Some(s@),
        None => None,
    }
}

/// The characters of each string of a list.
pub open spec fn views(v: Seq<String>) -> Seq<Seq<char>> {
    v.map_values(|s: String| s@)
}

/// A copy of an optional string.
pub fn clone_opt(o: &Option<String>) -> (r: Option<String>)
    ensures
        r == *o,
{
    match o {
        Some(s) => Some(s.clone()),
        None => None,
    }
}

/// The first of two optional texts that is there.
pub open spec fn or_else(a: Option<Seq<char>>, b: Option<Seq<char>>) -> Option<Seq<char>> {
    match a {
        Some(x) => Some(x),
        None => b,
    }
}

pub fn first_of(a: Option<String>, b: &Option<String>) -> (r: Option<String>)
    ensures
        opt_view(r) == or_else(opt_view(a), opt_view(*b)),
{
    match a {
        Some(x) => Some(x),
        None => clone_opt(b),
    }
}

/// A copy of a list of strings.
pub fn clone_strings(v: &Vec<String>) -> (r: Vec<String>)
    ensures
        r@ == v@,
{
    let mut out: Vec<String> = Vec::new();
    let mut i: usize = 0;
    while i < v.len()
        invariant
            i <= v@.len(),
            out@ == v@.subrange(0, i as int),
        decreases v@.len() - i,
    {
        out.push(v[i].clone());
        i += 1;
    }
    assert(out@ =~= v@);
    out
}

/// Whether `s` is one of the strings of `v`.
pub fn contains_string(v: &Vec<String>, s: &str) -> (r: bool)
    ensures
        r == views(v@).contains(s@),
{
    let mut i: usize = 0;
    while i < v.len()
        invariant
            i <= v@.len(),
            forall|j: int| 0 <= j < i ==> v@[j]@ != s@,
        decreases v@.len() - i,
    {
        if *v[i].as_str() == *s {
            assert(views(v@)[i as int] == s@);
            return true;
        }
        i += 1;
    }
    assert forall|j: int| 0 <= j < views(v@).len() implies views(v@)[j] != s@ by {}
    false
}

/// Adds `s` at the end of `list` unless it is there already.
pub open spec fn push_unique(list: Seq<Seq<char>>, s: Seq<char>) -> Seq<Seq<char>> {
    if list.contains(s) {
        list
    } else {
        list.push(s)
    }
}

/// Appends a warning that is not in the list yet.
pub fn push_unique_warning(warnings: &mut Vec<String>, warning: String)
    ensures
        views(final(warnings)@) == push_unique(views(old(warnings)@), warning@),
{
    if contains_string(warnings, warning.as_str()) {
        return;
    }
    warnings.push(warning);
    assert(views(warnings@) =~= views(old(warnings)@).push(warning@));
}

/// Reporting the same warning a second time changes nothing.
pub proof fn lemma_push_unique_idempotent(list: Seq<Seq<char>>, s: Seq<char>)
    ensures
        push_unique(push_unique(list, s), s) == push_unique(list, s),
        push_unique(list, s).contains(s),
{
    if !list.contains(s) {
        assert(list.push(s)[list.len() as int] == s);
    }
}

/// A list without duplicates stays one.
pub proof fn lemma_push_unique_no_duplicates(list: Seq<Seq<char>>, s: Seq<char>)
    requires
        list.no_duplicates(),
    ensures
        push_unique(list, s).no_duplicates(),
{
    if !list.contains(s) {
        assert forall|i: int, j: int|
            0 <= i < list.push(s).len() && 0 <= j < list.push(s).len() && i != j implies list.push(
            s,
        )[i] != list.push(s)[j] by {
            if i == list.len() {
                assert(list.contains(list[j]));
            } else if j == list.len() {
                assert(list.contains(list[i]));
            }
        }
    }
}

// ---------------------------------------------------------------------------
// Strings and vectors of characters.

/// The characters of `s`.
pub fn chars_of(s: &str) -> (v: Vec<char>)
    ensures
        v@ == s@,
{
    let mut v: Vec<char> = Vec::new();
    for c in it: s.chars()
        invariant
            it.seq() == s@,
            0 <= it.index() <= it.seq().len(),
            v@ == s@.subrange(0, it.index() as int),
    {
        v.push(c);
    }
    v
}

/// The string made of `chars[from..to]`.
pub fn string_of(chars: &Vec<char>, from: usize, to: usize) -> (r: String)
    requires
        from <= to <= chars@.len(),
    ensures
        r@ == chars@.subrange(from as int, to as int),
{
    let mut out: String = String::new();
    let mut i: usize = from;
    while i < to
        invariant
            from <= i <= to <= chars@.len(),
            out@ == chars@.subrange(from as int, i as int),
        decreases to - i,
    {
        out.push(chars[i]);
        assert(chars@.subrange(from as int, i + 1) =~= chars@.subrange(from as int, i as int).push(
            chars@[i as int],
        ));
        i += 1;
    }
    out
}

/// A copy of `s` as an owned string.
pub fn owned(s: &str) -> (r: String)
    ensures
        r@ == s@,
{
    s.to_owned()
}

/// `a` followed by `b`.
pub fn concat2(a: &str, b: &str) -> (r: String)
    ensures
        r@ == a@ + b@,
{
    let mut out: String = owned(a);
    out.append(b);
    out
}

/// `a`, `b` and `c`, one after the other.
pub fn concat3(a: &str, b: &str, c: &str) -> (r: String)
    ensures
        r@ == a@ + b@ + c@,
{
    let mut out: String = owned(a);
    out.append(b);
    out.append(c);
    out
}

/// `a`, `b`, `c` and `d`, one after the other.
pub fn concat4(a: &str, b: &str, c: &str, d: &str) -> (r: String)
    ensures
        r@ == a@ + b@ + c@ + d@,
{
    let mut out: String = owned(a);
    out.append(b);
    out.append(c);
    out.append(d);
    out
}

/// Whether the optional string holds exactly the characters of `s`.
pub fn opt_is(o: &Option<String>, s: &str) -> (r: bool)
    ensures
        r == (opt_view(*o) == Some(s@)),
{
    match o {
        Some(value) => *value.as_str() == *s,
        None => false,
    }
}

// ---------------------------------------------------------------------------
// Letter case.

/// `A` to `Z` become `a` to `z`; any other character stays.
pub open spec fn lower_char(c: char) -> char {
    if 'A' <= c && c <= 'Z' {
        ((c as u8) + 32) as char
    } else {
        c
    }
}

/// The ASCII lower-case form of a string.
pub open spec fn ascii_lower(s: Seq<char>) -> Seq<char> {
    s.map_values(|c: char| lower_char(c))
}

pub fn lower_of(c: char) -> (r: char)
    ensures
        r == lower_char(c),
{
    if 'A' <= c && c <= 'Z' {
        ((c as u8) + 32) as char
    } else {
        c
    }
}

pub fn to_ascii_lowercase(s: &str) -> (r: String)
    ensures
        r@ == ascii_lower(s@),
{
    let chars = chars_of(s);
    let mut out: String = String::new();
    let mut i: usize = 0;
    while i < chars.len()
        invariant
            i <= chars@.len(),
            chars@ == s@,
            out@ == ascii_lower(chars@.subrange(0, i as int)),
        decreases chars@.len() - i,
    {
        out.push(lower_of(chars[i]));
        assert(ascii_lower(chars@.subrange(0, i + 1)) =~= ascii_lower(
            chars@.subrange(0, i as int),
        ).push(lower_char(chars@[i as int])));
        i += 1;
    }
    assert(chars@.subrange(0, i as int) =~= s@);
    out
}

/// Lower-casing twice is lower-casing once.
pub proof fn lemma_ascii_lower_idempotent(s: Seq<char>)
    ensures
        ascii_lower(ascii_lower(s)) == ascii_lower(s),
{
    assert forall|i: int| 0 <= i < s.len() implies lower_char(lower_char(s[i])) == lower_char(
        s[i],
    ) by {}
    assert(ascii_lower(ascii_lower(s)) =~= ascii_lower(s));
}

pub fn eq_ignore_ascii_case(a: &str, b: &str) -> (r: bool)
    ensures
        r == (ascii_lower(a@) == ascii_lower(b@)),
{
    let x = to_ascii_lowercase(a);
    let y = to_ascii_lowercase(b);
    *x.as_str() == *y.as_str()
}

// ---------------------------------------------------------------------------
// Prefixes, suffixes, substrings, positions.

/// Whether `pattern` stands in `s` at index `i`.
pub fn chars_match_at(s: &Vec<char>, pattern: &Vec<char>, i: usize) -> (r: bool)
    ensures
        r == occurs_at(s@, pattern@, i as int),
{
    if s.len() < pattern.len() || s.len() - pattern.len() < i {
        return false;
    }
    let n: usize = s.len();
    let mut k: usize = 0;
    while k < pattern.len()
        invariant
            n == s@.len(),
            k <= pattern@.len(),
            i + pattern@.len() <= s@.len(),
            forall|j: int| 0 <= j < k ==> s@[i + j] == pattern@[j],
        decreases pattern@.len() - k,
    {
        if s[i + k] != pattern[k] {
            assert(s@.subrange(i as int, i + pattern@.len())[k as int] != pattern@[k as int]);
            return false;
        }
        k += 1;
    }
    assert(s@.subrange(i as int, i + pattern@.len()) =~= pattern@);
    true
}

/// Whether `s` begins with `prefix`.
pub fn has_prefix(s: &str, prefix: &str) -> (r: bool)
    ensures
        r == prefix@.is_prefix_of(s@),
{
    let a = chars_of(s);
    let b = chars_of(prefix);
    let r = chars_match_at(&a, &b, 0);
    assert(r == prefix@.is_prefix_of(s@)) by {
        if prefix@.len() <= s@.len() {
            assert(s@.take(prefix@.len() as int) == s@.subrange(0, prefix@.len() as int));
        }
    }
    r
}

/// Whether `s` ends with the character `c`.
pub fn ends_with_char(s: &str, c: char) -> (r: bool)
    ensures
        r == (s@.len() > 0 && s@.last() == c),
{
    let a = chars_of(s);
    a.len() > 0 && a[a.len() - 1] == c
}

/// Whether `s` begins with the character `c`.
pub fn starts_with_char(s: &str, c: char) -> (r: bool)
    ensures
        r == (s@.len() > 0 && s@[0] == c),
{
    let a = chars_of(s);
    a.len() > 0 && a[0] == c
}

/// Whether `needle` is a substring of `s`.
pub fn has_substring(s: &str, needle: &str) -> (r: bool)
    ensures
        r == occurs_in(s@, needle@),
{
    let a = chars_of(s);
    let b = chars_of(needle);
    if a.len() < b.len() {
        assert forall|j: int| !occurs_at(s@, needle@, j) by {}
        return false;
    }
    let last: usize = a.len() - b.len();
    let mut i: usize = 0;
    loop
        invariant
            a@ == s@,
            b@ == needle@,
            i <= last,
            last == a@.len() - b@.len(),
            forall|j: int| 0 <= j < i ==> !occurs_at(a@, b@, j),
        decreases last - i,
    {
        if chars_match_at(&a, &b, i) {
            assert(occurs_at(s@, needle@, i as int));
            return true;
        }
        if i == last {
            assert forall|j: int| !occurs_at(s@, needle@, j) by {
                if 0 <= j < i {
                }
            }
            return false;
        }
        i += 1;
    }
}

/// Whether the character `c` stands in `s`.
pub fn has_char(s: &str, c: char) -> (r: bool)
    ensures
        r == s@.contains(c),
{
    let a = chars_of(s);
    let mut i: usize = 0;
    while i < a.len()
        invariant
            i <= a@.len(),
            a@ == s@,
            forall|j: int| 0 <= j < i ==> a@[j] != c,
        decreases a@.len() - i,
    {
        if a[i] == c {
            assert(s@[i as int] == c);
            return true;
        }
        i += 1;
    }
    false
}

/// The first index of `c` in `s`, or the length of `s` where it has none.
pub open spec fn first_index(s: Seq<char>, c: char) -> int
    decreases s.len(),
{
    if s.len() == 0 {
        0
    } else if s[0] == c {
        0
    } else {
        1 + first_index(s.drop_first(), c)
    }
}

/// The last index of `c` in `s`, or -1 where it has none.
pub open spec fn last_index(s: Seq<char>, c: char) -> int
    decreases s.len(),
{
    if s.len() == 0 {
        -1
    } else if s.last() == c {
        s.len() - 1
    } else {
        last_index(s.drop_last(), c)
    }
}

/// `first_index` is the one index with these properties.
pub proof fn lemma_first_index(s: Seq<char>, c: char, k: int)
    requires
        0 <= k <= s.len(),
        forall|j: int| 0 <= j < k ==> s[j] != c,
        k < s.len() ==> s[k] == c,
    ensures
        first_index(s, c) == k,
    decreases s.len(),
{
    if s.len() > 0 && s[0] != c {
        let t = s.drop_first();
        assert forall|j: int| 0 <= j < k - 1 implies t[j] != c by {
            assert(t[j] == s[j + 1]);
        }
        if k < s.len() {
            assert(t[k - 1] == s[k]);
        }
        lemma_first_index(t, c, k - 1);
    }
}

/// What `first_index` points at.
pub proof fn lemma_first_index_props(s: Seq<char>, c: char)
    ensures
        0 <= first_index(s, c) <= s.len(),
        first_index(s, c) < s.len() ==> s[first_index(s, c)] == c,
        forall|j: int| 0 <= j < first_index(s, c) ==> s[j] != c,
    decreases s.len(),
{
    if s.len() > 0 && s[0] != c {
        let t = s.drop_first();
        lemma_first_index_props(t, c);
        assert forall|j: int| 0 <= j < first_index(s, c) implies s[j] != c by {
            if j > 0 {
                assert(s[j] == t[j - 1]);
            }
        }
    }
}

/// `last_index` is the one index with these properties.
pub proof fn lemma_last_index(s: Seq<char>, c: char, k: int)
    requires
        -1 <= k < s.len(),
        forall|j: int| k < j < s.len() ==> s[j] != c,
        k >= 0 ==> s[k] == c,
    ensures
        last_index(s, c) == k,
    decreases s.len(),
{
    if s.len() > 0 && s.last() != c {
        let t = s.drop_last();
        assert forall|j: int| k < j < t.len() implies t[j] != c by {
            assert(t[j] == s[j]);
        }
        lemma_last_index(t, c, k);
    }
}

/// What `last_index` points at.
pub proof fn lemma_last_index_props(s: Seq<char>, c: char)
    ensures
        -1 <= last_index(s, c) < s.len(),
        last_index(s, c) >= 0 ==> s[last_index(s, c)] == c,
        forall|j: int| last_index(s, c) < j < s.len() ==> s[j] != c,
    decreases s.len(),
{
    if s.len() > 0 && s.last() != c {
        lemma_last_index_props(s.drop_last(), c);
        assert forall|j: int| last_index(s, c) < j < s.len() implies s[j] != c by {
            if j < s.len() - 1 {
                assert(s[j] == s.drop_last()[j]);
            }
        }
    }
}

/// The first index of `c` in `chars` from `from` on, or its length.
pub fn index_of_from(chars: &Vec<char>, c: char, from: usize) -> (r: usize)
    requires
        from <= chars@.len(),
    ensures
        r == from + first_index(chars@.subrange(from as int, chars@.len() as int), c),
        from <= r <= chars@.len(),
        forall|j: int| from <= j < r ==> chars@[j] != c,
        r < chars@.len() ==> chars@[r as int] == c,
{
    let mut i: usize = from;
    while i < chars.len() && chars[i] != c
        invariant
            from <= i <= chars@.len(),
            forall|j: int| from <= j < i ==> chars@[j] != c,
        decreases chars@.len() - i,
    {
        i += 1;
    }
    proof {
        let t = chars@.subrange(from as int, chars@.len() as int);
        assert forall|j: int| 0 <= j < i - from implies t[j] != c by {
            assert(t[j] == chars@[from + j]);
        }
        lemma_first_index(t, c, i - from);
    }
    i
}

/// The last index of `c` in `chars`, if any.
pub fn last_index_of(chars: &Vec<char>, c: char) -> (r: Option<usize>)
    ensures
        match r {
            Some(i) => i < chars@.len() && last_index(chars@, c) == i,
            None => last_index(chars@, c) == -1,
        },
{
    let mut i: usize = chars.len();
    while i > 0
        invariant
            i <= chars@.len(),
            forall|j: int| i <= j < chars@.len() ==> chars@[j] != c,
        decreases i,
    {
        i -= 1;
        if chars[i] == c {
            proof {
                lemma_last_index(chars@, c, i as int);
            }
            return Some(i);
        }
    }
    proof {
        lemma_last_index(chars@, c, -1);
    }
    None
}

/// What follows the last `c` of `s`, if `s` holds one.
pub open spec fn after_last(s: Seq<char>, c: char) -> Option<Seq<char>> {
    let k = last_index(s, c);
    if k < 0 {
        None
    } else {
        Some(s.subrange(k + 1, s.len() as int))
    }
}

/// The part of `s` behind its last `c`.
pub fn rsplit_after(s: &str, c: char) -> (r: Option<String>)
    ensures
        opt_view(r) == after_last(s@, c),
{
    let chars = chars_of(s);
    let n: usize = chars.len();
    match last_index_of(&chars, c) {
        Some(i) => Some(string_of(&chars, i + 1, n)),
        None => None,
    }
}

// ---------------------------------------------------------------------------
// Trimming.

/// The characters with the Unicode property White_Space.
pub open spec fn is_white(c: char) -> bool {
    let n = c as u32;
    ||| 0x9 <= n <= 0xd
    ||| n == 0x20
    ||| n == 0x85
    ||| n == 0xa0
    ||| n == 0x1680
    ||| 0x2000 <= n <= 0x200a
    ||| n == 0x2028
    ||| n == 0x2029
    ||| n == 0x202f
    ||| n == 0x205f
    ||| n == 0x3000
}

pub fn white(c: char) -> (r: bool)
    ensures
        r == is_white(c),
{
    let n: u32 = c as u32;
    (0x9 <= n && n <= 0xd) || n == 0x20 || n == 0x85 || n == 0xa0 || n == 0x1680 || (0x2000 <= n
        && n <= 0x200a) || n == 0x2028 || n == 0x2029 || n == 0x202f || n == 0x205f || n == 0x3000
}

/// `s` without the leading characters that satisfy `f`.
pub open spec fn drop_front(s: Seq<char>, f: spec_fn(char) -> bool) -> Seq<char>
    decreases s.len(),
{
    if s.len() > 0 && f(s[0]) {
        drop_front(s.drop_first(), f)
    } else {
        s
    }
}

/// `s` without the trailing characters that satisfy `f`.
pub open spec fn drop_back(s: Seq<char>, f: spec_fn(char) -> bool) -> Seq<char>
    decreases s.len(),
{
    if s.len() > 0 && f(s.last()) {
        drop_back(s.drop_last(), f)
    } else {
        s
    }
}

pub proof fn lemma_drop_front(s: Seq<char>, f: spec_fn(char) -> bool, k: int)
    requires
        0 <= k <= s.len(),
        forall|j: int| 0 <= j < k ==> f(s[j]),
        k < s.len() ==> !f(s[k]),
    ensures
        drop_front(s, f) == s.subrange(k, s.len() as int),
    decreases s.len(),
{
    if k == 0 {
        assert(s.subrange(0, s.len() as int) =~= s);
    } else {
        let t = s.drop_first();
        assert forall|j: int| 0 <= j < k - 1 implies f(t[j]) by {
            assert(t[j] == s[j + 1]);
        }
        if k < s.len() {
            assert(t[k - 1] == s[k]);
        }
        lemma_drop_front(t, f, k - 1);
        assert(t.subrange(k - 1, t.len() as int) =~= s.subrange(k, s.len() as int));
    }
}

pub proof fn lemma_drop_back(s: Seq<char>, f: spec_fn(char) -> bool, k: int)
    requires
        0 <= k <= s.len(),
        forall|j: int| k <= j < s.len() ==> f(s[j]),
        k > 0 ==> !f(s[k - 1]),
    ensures
        drop_back(s, f) == s.subrange(0, k),
    decreases s.len(),
{
    if k == s.len() {
        assert(s.subrange(0, k) =~= s);
    } else {
        let t = s.drop_last();
        lemma_drop_back(t, f, k);
        assert(t.subrange(0, k) =~= s.subrange(0, k));
    }
}

/// `s` without leading and trailing white space.
pub open spec fn trimmed(s: Seq<char>) -> Seq<char> {
    drop_back(drop_front(s, |c: char| is_white(c)), |c: char| is_white(c))
}

/// `s` without leading white space.
pub open spec fn trimmed_start(s: Seq<char>) -> Seq<char> {
    drop_front(s, |c: char| is_white(c))
}

/// The predicate that holds of `c` alone.
pub open spec fn is_char(c: char) -> spec_fn(char) -> bool {
    |x: char| x == c
}

/// `s` without the leading characters equal to `c`.
pub open spec fn strip_front(s: Seq<char>, c: char) -> Seq<char> {
    drop_front(s, is_char(c))
}

/// `s` without the trailing characters equal to `c`.
pub open spec fn strip_back(s: Seq<char>, c: char) -> Seq<char> {
    drop_back(s, is_char(c))
}

pub fn trim_start(s: &str) -> (r: String)
    ensures
        r@ == trimmed_start(s@),
{
    let chars = chars_of(s);
    let mut i: usize = 0;
    while i < chars.len() && white(chars[i])
        invariant
            i <= chars@.len(),
            chars@ == s@,
            forall|j: int| 0 <= j < i ==> is_white(chars@[j]),
        decreases chars@.len() - i,
    {
        i += 1;
    }
    proof {
        lemma_drop_front(s@, |c: char| is_white(c), i as int);
    }
    string_of(&chars, i, chars.len())
}

pub fn trim(s: &str) -> (r: String)
    ensures
        r@ == trimmed(s@),
{
    let head = trim_start(s);
    let chars = chars_of(head.as_str());
    let mut i: usize = chars.len();
    while i > 0 && white(chars[i - 1])
        invariant
            i <= chars@.len(),
            chars@ == trimmed_start(s@),
            forall|j: int| i <= j < chars@.len() ==> is_white(chars@[j]),
        decreases i,
    {
        i -= 1;
    }
    proof {
        lemma_drop_back(chars@, |c: char| is_white(c), i as int);
    }
    string_of(&chars, 0, i)
}

pub fn trim_start_char(s: &str, c: char) -> (r: String)
    ensures
        r@ == strip_front(s@, c),
{
    let chars = chars_of(s);
    let mut i: usize = 0;
    while i < chars.len() && chars[i] == c
        invariant
            i <= chars@.len(),
            chars@ == s@,
            forall|j: int| 0 <= j < i ==> chars@[j] == c,
        decreases chars@.len() - i,
    {
        i += 1;
    }
    proof {
        lemma_drop_front(s@, is_char(c), i as int);
    }
    string_of(&chars, i, chars.len())
}

pub fn trim_end_char(s: &str, c: char) -> (r: String)
    ensures
        r@ == strip_back(s@, c),
{
    let chars = chars_of(s);
    let mut i: usize = chars.len();
    while i > 0 && chars[i - 1] == c
        invariant
            i <= chars@.len(),
            chars@ == s@,
            forall|j: int| i <= j < chars@.len() ==> chars@[j] == c,
        decreases i,
    {
        i -= 1;
    }
    proof {
        lemma_drop_back(s@, is_char(c), i as int);
    }
    string_of(&chars, 0, i)
}

// ---------------------------------------------------------------------------
// Replacing characters, joining strings.

/// `s` with every `from` replaced by `to`.
pub open spec fn replaced(s: Seq<char>, from: char, to: char) -> Seq<char> {
    s.map_values(|c: char| if c == from { to } else { c })
}

pub fn replace_char(s: &str, from: char, to: char) -> (r: String)
    ensures
        r@ == replaced(s@, from, to),
{
    let chars = chars_of(s);
    let mut out: String = String::new();
    let mut i: usize = 0;
    while i < chars.len()
        invariant
            i <= chars@.len(),
            chars@ == s@,
            out@ == replaced(chars@.subrange(0, i as int), from, to),
        decreases chars@.len() - i,
    {
        let c = chars[i];
        if c == from {
            out.push(to);
        } else {
            out.push(c);
        }
        assert(out@ =~= replaced(chars@.subrange(0, i + 1), from, to));
        i += 1;
    }
    assert(chars@.subrange(0, i as int) =~= s@);
    out
}

/// The strings of `parts`, with `sep` between any two of them.
pub open spec fn joined(parts: Seq<Seq<char>>, sep: Seq<char>) -> Seq<char>
    decreases parts.len(),
{
    if parts.len() == 0 {
        seq![]
    } else if parts.len() == 1 {
        parts[0]
    } else {
        joined(parts.drop_last(), sep) + sep + parts.last()
    }
}

pub fn join(parts: &Vec<String>, sep: &str) -> (r: String)
    ensures
        r@ == joined(views(parts@), sep@),
{
    let mut out: String = String::new();
    let mut i: usize = 0;
    while i < parts.len()
        invariant
            i <= parts@.len(),
            out@ == joined(views(parts@.subrange(0, i as int)), sep@),
        decreases parts@.len() - i,
    {
        let ghost before = views(parts@.subrange(0, i as int));
        let ghost after = views(parts@.subrange(0, i + 1));
        if i > 0 {
            out.append(sep);
        }
        out.append(parts[i].as_str());
        proof {
            assert(after.drop_last() =~= before);
            assert(after.last() == parts@[i as int]@);
            if i == 0 {
                assert(before =~= seq![]);
                assert(out@ =~= after[0]);
            }
        }
        i += 1;
    }
    assert(parts@.subrange(0, i as int) =~= parts@);
    out
}

// ---------------------------------------------------------------------------
// Lines.

/// A line without the carriage return that may end it.
pub open spec fn line_body(s: Seq<char>) -> Seq<char> {
    if s.len() > 0 && s.last() == '\r' {
        s.drop_last()
    } else {
        s
    }
}

/// The lines of a text: each ends with `\n` or `\r\n`, the last one need not.
pub open spec fn lines(s: Seq<char>) -> Seq<Seq<char>>
    decreases s.len(),
{
    if s.len() == 0 {
        seq![]
    } else {
        let k = first_index(s, '\n');
        if k >= s.len() {
            seq![s]
        } else {
            proof {
                lemma_first_index_props(s, '\n');
            }
            seq![line_body(s.subrange(0, k))] + lines(s.subrange(k + 1, s.len() as int))
        }
    }
}

/// Splits a text into its lines.
pub fn split_lines(s: &str) -> (r: Vec<String>)
    ensures
        views(r@) == lines(s@),
{
    let chars = chars_of(s);
    let n: usize = chars.len();
    let mut out: Vec<String> = Vec::new();
    let mut start: usize = 0;
    assert(s@.subrange(0, s@.len() as int) =~= s@);
    assert(views(out@) + lines(s@) =~= lines(s@));
    while start < n
        invariant
            chars@ == s@,
            n == chars@.len(),
            start <= n,
            views(out@) + lines(s@.subrange(start as int, n as int)) == lines(s@),
        decreases n - start,
    {
        let ghost rest = s@.subrange(start as int, n as int);
        let ghost before = views(out@);
        let end: usize = index_of_from(&chars, '\n', start);
        if end >= n {
            let line = string_of(&chars, start, n);
            out.push(line);
            proof {
                assert(lines(rest) == seq![rest]);
                assert(views(out@) =~= before + seq![rest]);
                assert(s@.subrange(n as int, n as int) =~= seq![]);
                assert(views(out@) + lines(s@.subrange(n as int, n as int)) =~= lines(s@));
            }
            start = n;
        } else {
            let stop: usize = if end > start && chars[end - 1] == '\r' {
                end - 1
            } else {
                end
            };
            let line = string_of(&chars, start, stop);
            out.push(line);
            proof {
                let k = end - start;
                assert(rest.subrange(0, k) =~= s@.subrange(start as int, end as int));
                assert(rest.subrange(k + 1, rest.len() as int) =~= s@.subrange(
                    end + 1,
                    n as int,
                ));
                assert(line_body(rest.subrange(0, k)) =~= line@);
                assert(views(out@) =~= before + seq![line@]);
                assert(views(out@) + lines(s@.subrange(end + 1, n as int)) =~= before + (
                seq![line@] + lines(s@.subrange(end + 1, n as int))));
            }
            start = end + 1;
        }
    }
    assert(s@.subrange(start as int, n as int) =~= seq![]);
    assert(views(out@) + lines(seq![]) =~= views(out@));
    out
}

/// How many items satisfy `f`.
pub open spec fn count_if<T>(s: Seq<T>, f: spec_fn(T) -> bool) -> nat
    decreases s.len(),
{
    if s.len() == 0 {
        0
    } else {
        count_if(s.drop_last(), f) + if f(s.last()) {
            1nat
        } else {
            0
        }
    }
}

/// Some item satisfies `f` exactly where the count is not zero.
pub proof fn lemma_count_if<T>(s: Seq<T>, f: spec_fn(T) -> bool)
    ensures
        count_if(s, f) <= s.len(),
        count_if(s, f) > 0 <==> exists|i: int| 0 <= i < s.len() && f(#[trigger] s[i]),
    decreases s.len(),
{
    if s.len() > 0 {
        let t = s.drop_last();
        lemma_count_if(t, f);
        if count_if(t, f) > 0 {
            let i = choose|i: int| 0 <= i < t.len() && f(#[trigger] t[i]);
            assert(s[i] == t[i]);
        }
        if f(s.last()) {
            assert(f(s[s.len() - 1]));
        }
        if exists|i: int| 0 <= i < s.len() && f(#[trigger] s[i]) {
            let i = choose|i: int| 0 <= i < s.len() && f(#[trigger] s[i]);
            if i < t.len() {
                assert(f(t[i]));
            }
        }
    }
}

/// How many of the first `limit` strings satisfy `test`.
pub fn count_strings<F: Fn(&str) -> bool>(
    list: &Vec<String>,
    limit: usize,
    test: F,
    Ghost(f): Ghost<spec_fn(Seq<char>) -> bool>,
) -> (r: usize)
    requires
        forall|s: &str| #[trigger] call_requires(test, (s,)),
        forall|s: &str, b: bool| #[trigger] call_ensures(test, (s,), b) ==> b == f(s@),
    ensures
        r == count_if(head(views(list@), limit as int), f),
{
    let n: usize = if list.len() < limit {
        list.len()
    } else {
        limit
    };
    let mut count: usize = 0;
    let mut i: usize = 0;
    while i < n
        invariant
            i <= n <= list@.len(),
            count <= i,
            count == count_if(views(list@).subrange(0, i as int), f),
            forall|s: &str| #[trigger] call_requires(test, (s,)),
            forall|s: &str, b: bool| #[trigger] call_ensures(test, (s,), b) ==> b == f(s@),
        decreases n - i,
    {
        assert(views(list@).subrange(0, i + 1).drop_last() =~= views(list@).subrange(0, i as int));
        if test(list[i].as_str()) {
            count += 1;
        }
        i += 1;
    }
    count
}

/// The first `n` items, or all where there are fewer.
pub open spec fn head<T>(s: Seq<T>, n: int) -> Seq<T> {
    s.subrange(0, if s.len() < n {
        s.len() as int
    } else {
        n
    })
}

} // verus!
