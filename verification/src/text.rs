//! Character classes and small string utilities shared by the identifier
//! classifier and the citekey generator.
use vstd::prelude::*;
use vstd::string::StrSliceExecFns;

verus! {

/// ASCII lowercase of one character; anything but 'A'..'Z' is unchanged.
pub open spec fn lower_char(c: char) -> char {
    if 'A' <= c && c <= 'Z' {
        ((c as u32) + 32) as char
    } else {
        c
    }
}

/// A word character: ASCII letter, digit, or underscore.
pub open spec fn is_word_char(c: char) -> bool {
    ('a' <= c && c <= 'z') || ('A' <= c && c <= 'Z') || ('0' <= c && c <= '9') || c == '_'
}

/// An ASCII letter or digit.
pub open spec fn is_alnum_char(c: char) -> bool {
    ('a' <= c && c <= 'z') || ('A' <= c && c <= 'Z') || ('0' <= c && c <= '9')
}

/// An ASCII decimal digit.
pub open spec fn is_digit_char(c: char) -> bool {
    '0' <= c && c <= '9'
}

/// A whitespace character: space, tab, line feed, vertical tab, form feed or
/// carriage return.
pub open spec fn is_space_char(c: char) -> bool {
    c == ' ' || c == '\t' || c == '\n' || c == '\u{0B}' || c == '\u{0C}' || c == '\r'
}

pub open spec fn lower_seq(s: Seq<char>) -> Seq<char> {
    s.map_values(|c: char| lower_char(c))
}

pub fn to_lower(c: char) -> (r: char)
    ensures
        r == lower_char(c),
{
    let u: u32 = c as u32;
    if 65 <= u && u <= 90 {
        (((c as u8) + 32) as char)
    } else {
        c
    }
}

pub fn word_char(c: char) -> (r: bool)
    ensures
        r == is_word_char(c),
{
    let u: u32 = c as u32;
    (97 <= u && u <= 122) || (65 <= u && u <= 90) || (48 <= u && u <= 57) || u == 95
}

pub fn alnum_char(c: char) -> (r: bool)
    ensures
        r == is_alnum_char(c),
{
    let u: u32 = c as u32;
    (97 <= u && u <= 122) || (65 <= u && u <= 90) || (48 <= u && u <= 57)
}

pub fn digit_char(c: char) -> (r: bool)
    ensures
        r == is_digit_char(c),
{
    let u: u32 = c as u32;
    48 <= u && u <= 57
}

pub fn space_char(c: char) -> (r: bool)
    ensures
        r == is_space_char(c),
{
    c == ' ' || c == '\t' || c == '\n' || c == '\u{0B}' || c == '\u{0C}' || c == '\r'
}

/// The characters of `s`, in order, as a vector.
pub fn str_to_chars(s: &str) -> (v: Vec<char>)
    ensures
        v@ == s@,
{
    let n: usize = s.unicode_len();
    let mut v: Vec<char> = Vec::new();
    let mut i: usize = 0;
    while i < n
        invariant
            i <= n,
            n == s@.len(),
            v@.len() == i,
            forall|j: int| 0 <= j < i ==> v@[j] == s@[j],
        decreases n - i,
    {
        v.push(s.get_char(i));
        i = i + 1;
    }
    assert(v@ =~= s@);
    v
}

/// Relies on std's `String::push`: appends exactly one character.
#[verifier::external_body]
fn push_char(s: &mut String, c: char)
    ensures
        final(s)@ == old(s)@ + seq![c],
{
    s.push(c);
}

/// A string holding the characters of `v`, in order.
pub fn chars_to_string(v: &Vec<char>) -> (s: String)
    ensures
        s@ == v@,
{
    let mut s = String::new();
    let mut i: usize = 0;
    while i < v.len()
        invariant
            i <= v@.len(),
            s@ == v@.subrange(0, i as int),
        decreases v@.len() - i,
    {
        push_char(&mut s, v[i]);
        assert(s@ =~= v@.subrange(0, i + 1 as int));
        i = i + 1;
    }
    assert(s@ =~= v@);
    s
}

/// The pattern `pat` (written in lowercase) occurs at position `i` of `s`,
/// compared ASCII-case-insensitively, with at least one character of `s`
/// left after it.
pub open spec fn marker_at(s: Seq<char>, pat: Seq<char>, i: int) -> bool {
    &&& 0 <= i
    &&& i + pat.len() < s.len()
    &&& forall|j: int| 0 <= j < pat.len() ==> lower_char(s[i + j]) == pat[j]
}

/// Whether `pat` occurs case-insensitively at position `i` of `s` (bounds
/// already known to hold).
pub fn ci_match_prefix(s: &Vec<char>, pat: &Vec<char>, i: usize) -> (r: bool)
    requires
        i + pat@.len() <= s@.len(),
    ensures
        r == (forall|j: int| 0 <= j < pat@.len() ==> lower_char(s@[i + j]) == pat@[j]),
{
    let n: usize = s.len();
    let mut j: usize = 0;
    while j < pat.len()
        invariant
            j <= pat@.len(),
            i + pat@.len() <= s@.len(),
            n == s@.len(),
            forall|k: int| 0 <= k < j ==> lower_char(s@[i + k]) == pat@[k],
        decreases pat@.len() - j,
    {
        if to_lower(s[i + j]) != pat[j] {
            return false;
        }
        j = j + 1;
    }
    true
}

/// The position of the leftmost case-insensitive occurrence of `pat` in `s`
/// that leaves at least one character after it, if any.
pub fn find_marker(s: &Vec<char>, pat: &Vec<char>) -> (r: Option<usize>)
    ensures
        match r {
            Some(i) => marker_at(s@, pat@, i as int) && (forall|j: int|
                0 <= j < i ==> !marker_at(s@, pat@, j)),
            None => forall|j: int| !marker_at(s@, pat@, j),
        },
{
    if s.len() <= pat.len() {
        return None;
    }
    let limit: usize = s.len() - pat.len();
    let mut i: usize = 0;
    while i < limit
        invariant
            i <= limit,
            limit == s@.len() - pat@.len(),
            pat@.len() < s@.len(),
            forall|j: int| 0 <= j < i ==> !marker_at(s@, pat@, j),
        decreases limit - i,
    {
        if ci_match_prefix(s, pat, i) {
            return Some(i);
        }
        i = i + 1;
    }
    None
}

pub fn lower_chars(v: &Vec<char>) -> (r: Vec<char>)
    ensures
        r@ == lower_seq(v@),
{
    let mut r: Vec<char> = Vec::new();
    let mut i: usize = 0;
    while i < v.len()
        invariant
            i <= v@.len(),
            r@.len() == i,
            forall|j: int| 0 <= j < i ==> r@[j] == lower_char(v@[j]),
        decreases v@.len() - i,
    {
        r.push(to_lower(v[i]));
        i = i + 1;
    }
    assert(r@ =~= lower_seq(v@));
    r
}

/// The first position at or after `i` where `c` occurs in `s`, or `s.len()`
/// if it does not occur there.
pub open spec fn find_char_from(s: Seq<char>, i: int, c: char) -> int
    decreases s.len() - i,
{
    if i < 0 || i >= s.len() {
        s.len() as int
    } else if s[i] == c {
        i
    } else {
        find_char_from(s, i + 1, c)
    }
}

pub proof fn lemma_find_char_from(s: Seq<char>, i: int, c: char)
    requires
        0 <= i <= s.len(),
    ensures
        i <= find_char_from(s, i, c) <= s.len(),
        find_char_from(s, i, c) < s.len() ==> s[find_char_from(s, i, c)] == c,
        forall|j: int| i <= j < find_char_from(s, i, c) ==> s[j] != c,
    decreases s.len() - i,
{
    if i < s.len() && s[i] != c {
        lemma_find_char_from(s, i + 1, c);
    }
}

/// The first position at or after `i` holding a whitespace character, or
/// `s.len()` if there is none.
pub open spec fn find_space_from(s: Seq<char>, i: int) -> int
    decreases s.len() - i,
{
    if i < 0 || i >= s.len() {
        s.len() as int
    } else if is_space_char(s[i]) {
        i
    } else {
        find_space_from(s, i + 1)
    }
}

pub proof fn lemma_find_space_from(s: Seq<char>, i: int)
    requires
        0 <= i <= s.len(),
    ensures
        i <= find_space_from(s, i) <= s.len(),
        find_space_from(s, i) < s.len() ==> is_space_char(s[find_space_from(s, i)]),
        forall|j: int| i <= j < find_space_from(s, i) ==> !is_space_char(s[j]),
    decreases s.len() - i,
{
    if i < s.len() && !is_space_char(s[i]) {
        lemma_find_space_from(s, i + 1);
    }
}

/// The first position at or after `i` holding a character that is not an
/// ASCII letter or digit, or `s.len()` if there is none.
pub open spec fn find_nonalnum_from(s: Seq<char>, i: int) -> int
    decreases s.len() - i,
{
    if i < 0 || i >= s.len() {
        s.len() as int
    } else if !is_alnum_char(s[i]) {
        i
    } else {
        find_nonalnum_from(s, i + 1)
    }
}

pub proof fn lemma_find_nonalnum_from(s: Seq<char>, i: int)
    requires
        0 <= i <= s.len(),
    ensures
        i <= find_nonalnum_from(s, i) <= s.len(),
        find_nonalnum_from(s, i) < s.len() ==> !is_alnum_char(s[find_nonalnum_from(s, i)]),
        forall|j: int| i <= j < find_nonalnum_from(s, i) ==> is_alnum_char(s[j]),
    decreases s.len() - i,
{
    if i < s.len() && is_alnum_char(s[i]) {
        lemma_find_nonalnum_from(s, i + 1);
    }
}

/// The first position at or after `from` holding a character that is not an
/// ASCII letter or digit, or the length of `s`.
pub fn find_nonalnum(s: &Vec<char>, from: usize) -> (r: usize)
    requires
        from <= s@.len(),
    ensures
        r == find_nonalnum_from(s@, from as int),
        from <= r <= s@.len(),
{
    let n: usize = s.len();
    let mut j: usize = from;
    while j < n
        invariant
            from <= j <= n,
            n == s@.len(),
            find_nonalnum_from(s@, from as int) == find_nonalnum_from(s@, j as int),
        decreases n - j,
    {
        if !alnum_char(s[j]) {
            proof {
                lemma_find_nonalnum_from(s@, from as int);
            }
            return j;
        }
        j = j + 1;
    }
    proof {
        lemma_find_nonalnum_from(s@, from as int);
    }
    j
}

/// The pattern `pat` (written in lowercase) occurs at position `i` of `s`,
/// compared ASCII-case-insensitively; it may end exactly at the end of `s`.
pub open spec fn ci_at(s: Seq<char>, pat: Seq<char>, i: int) -> bool {
    &&& 0 <= i
    &&& i + pat.len() <= s.len()
    &&& forall|j: int| 0 <= j < pat.len() ==> lower_char(s[i + j]) == pat[j]
}

/// The position of the leftmost case-insensitive occurrence of `pat` in `s`
/// at or after `from`, if any.
pub fn find_ci_from(s: &Vec<char>, pat: &Vec<char>, from: usize) -> (r: Option<usize>)
    requires
        from <= s@.len(),
    ensures
        match r {
            Some(i) => from <= i && ci_at(s@, pat@, i as int) && (forall|j: int|
                from <= j < i ==> !ci_at(s@, pat@, j)),
            None => forall|j: int| from <= j ==> !ci_at(s@, pat@, j),
        },
{
    let n: usize = s.len();
    if n - from < pat.len() {
        return None;
    }
    let limit: usize = n - pat.len();
    let mut i: usize = from;
    while i <= limit
        invariant
            from <= i <= limit + 1,
            limit == s@.len() - pat@.len(),
            pat@.len() <= s@.len(),
            n == s@.len(),
            forall|j: int| from <= j < i ==> !ci_at(s@, pat@, j),
        decreases limit + 1 - i,
    {
        if ci_match_prefix(s, pat, i) {
            return Some(i);
        }
        i = i + 1;
    }
    None
}

/// The first position at or after `i` holding a character that is not
/// whitespace, or `s.len()` if there is none.
pub open spec fn find_nonspace_from(s: Seq<char>, i: int) -> int
    decreases s.len() - i,
{
    if i < 0 || i >= s.len() {
        s.len() as int
    } else if !is_space_char(s[i]) {
        i
    } else {
        find_nonspace_from(s, i + 1)
    }
}

pub proof fn lemma_find_nonspace_from(s: Seq<char>, i: int)
    requires
        0 <= i <= s.len(),
    ensures
        i <= find_nonspace_from(s, i) <= s.len(),
        forall|j: int| i <= j < find_nonspace_from(s, i) ==> is_space_char(s[j]),
    decreases s.len() - i,
{
    if i < s.len() && is_space_char(s[i]) {
        lemma_find_nonspace_from(s, i + 1);
    }
}

/// The length of `s` with trailing whitespace removed.
pub open spec fn trim_end_len(s: Seq<char>) -> int
    decreases s.len(),
{
    if s.len() == 0 {
        0
    } else if is_space_char(s[s.len() - 1]) {
        trim_end_len(s.drop_last())
    } else {
        s.len() as int
    }
}

proof fn lemma_trim_end_len(s: Seq<char>, e: int)
    requires
        0 <= e <= s.len(),
        forall|j: int| e <= j < s.len() ==> is_space_char(s[j]),
        e > 0 ==> !is_space_char(s[e - 1]),
    ensures
        trim_end_len(s) == e,
    decreases s.len(),
{
    if s.len() == 0 {
    } else if is_space_char(s[s.len() - 1]) {
        assert(e < s.len());
        lemma_trim_end_len(s.drop_last(), e);
    } else {
        assert(e == s.len());
    }
}

/// `s` with leading and trailing whitespace removed.
pub open spec fn trim_spaces(s: Seq<char>) -> Seq<char> {
    let b = find_nonspace_from(s, 0);
    let e = trim_end_len(s);
    if b < e {
        s.subrange(b, e)
    } else {
        Seq::empty()
    }
}

/// A copy of `s` with leading and trailing whitespace removed.
pub fn trim_chars(s: &Vec<char>) -> (r: Vec<char>)
    ensures
        r@ == trim_spaces(s@),
{
    let n: usize = s.len();
    let mut b: usize = 0;
    loop
        invariant
            b <= n,
            n == s@.len(),
            find_nonspace_from(s@, 0) == find_nonspace_from(s@, b as int),
        ensures
            b <= n,
            find_nonspace_from(s@, 0) == b,
        decreases n - b,
    {
        if b == n {
            break;
        }
        if !space_char(s[b]) {
            break;
        }
        b = b + 1;
    }
    let mut e: usize = n;
    loop
        invariant
            e <= n,
            n == s@.len(),
            forall|j: int| e <= j < n ==> is_space_char(s@[j]),
        ensures
            e <= n,
            forall|j: int| e <= j < n ==> is_space_char(s@[j]),
            e > 0 ==> !is_space_char(s@[e - 1]),
        decreases e,
    {
        if e == 0 {
            break;
        }
        if !space_char(s[e - 1]) {
            break;
        }
        e = e - 1;
    }
    proof {
        lemma_trim_end_len(s@, e as int);
    }
    if b < e {
        subvec(s, b, e)
    } else {
        let r: Vec<char> = Vec::new();
        assert(r@ =~= trim_spaces(s@));
        r
    }
}

/// The views of an optional owned string.
pub open spec fn view_opt(r: Option<String>) -> Option<Seq<char>> {
    match r {
        Option::Some(s) => Option::Some(s@),
        Option::None => Option::None,
    }
}

/// One scrubbing pass from position `i` on: a minimal "<...>" span, or any
/// character that is not a word character, hyphen or whitespace, is replaced
/// by `rep`; everything else is kept.
pub open spec fn scrub_from(s: Seq<char>, i: int, rep: Seq<char>) -> Seq<char>
    decreases s.len() - i,
    via scrub_from_decreases
{
    if i < 0 || i >= s.len() {
        Seq::empty()
    } else if s[i] == '<' && find_char_from(s, i + 1, '>') < s.len() {
        rep + scrub_from(s, find_char_from(s, i + 1, '>') + 1, rep)
    } else if is_word_char(s[i]) || s[i] == '-' || is_space_char(s[i]) {
        seq![s[i]] + scrub_from(s, i + 1, rep)
    } else {
        rep + scrub_from(s, i + 1, rep)
    }
}

#[via_fn]
proof fn scrub_from_decreases(s: Seq<char>, i: int, rep: Seq<char>) {
    if 0 <= i && i < s.len() {
        lemma_find_char_from(s, i + 1, '>');
    }
}

/// The scrubbed form of a whole string.
pub open spec fn scrub(s: Seq<char>, rep: Seq<char>) -> Seq<char> {
    scrub_from(s, 0, rep)
}

/// Whitespace runs collapsed to a single space, from position `i` on.
pub open spec fn collapse_ws_from(s: Seq<char>, i: int) -> Seq<char>
    decreases s.len() - i,
{
    if i < 0 || i >= s.len() {
        Seq::empty()
    } else if is_space_char(s[i]) {
        if i > 0 && is_space_char(s[i - 1]) {
            collapse_ws_from(s, i + 1)
        } else {
            seq![' '] + collapse_ws_from(s, i + 1)
        }
    } else {
        seq![s[i]] + collapse_ws_from(s, i + 1)
    }
}

/// Every maximal whitespace run of `s` replaced by one space.
pub open spec fn collapse_ws(s: Seq<char>) -> Seq<char> {
    collapse_ws_from(s, 0)
}

/// The whitespace-separated tokens of `s` from position `i` on; tokens are
/// nonempty and hold no whitespace.
pub open spec fn split_ws_from(s: Seq<char>, i: int) -> Seq<Seq<char>>
    decreases s.len() - i,
    via split_ws_from_decreases
{
    if i < 0 || i >= s.len() {
        Seq::empty()
    } else if is_space_char(s[i]) {
        split_ws_from(s, i + 1)
    } else {
        seq![s.subrange(i, find_space_from(s, i))] + split_ws_from(s, find_space_from(s, i))
    }
}

#[via_fn]
proof fn split_ws_from_decreases(s: Seq<char>, i: int) {
    if 0 <= i && i < s.len() && !is_space_char(s[i]) {
        lemma_find_space_from(s, i);
    }
}

/// The whitespace-separated tokens of `s`.
pub open spec fn split_ws(s: Seq<char>) -> Seq<Seq<char>> {
    split_ws_from(s, 0)
}

/// The fields of `s` from position `i` on, separated by `sep`; fields may
/// be empty, and splitting an empty string yields one empty field.
pub open spec fn split_char_from(s: Seq<char>, i: int, sep: char) -> Seq<Seq<char>>
    decreases s.len() - i,
    via split_char_from_decreases
{
    if i < 0 || i > s.len() {
        Seq::empty()
    } else {
        let e = find_char_from(s, i, sep);
        if e < s.len() {
            seq![s.subrange(i, e)] + split_char_from(s, e + 1, sep)
        } else {
            seq![s.subrange(i, s.len() as int)]
        }
    }
}

#[via_fn]
proof fn split_char_from_decreases(s: Seq<char>, i: int, sep: char) {
    if 0 <= i && i <= s.len() {
        lemma_find_char_from(s, i, sep);
    }
}

/// The fields of `s` separated by `sep`.
pub open spec fn split_char(s: Seq<char>, sep: char) -> Seq<Seq<char>> {
    split_char_from(s, 0, sep)
}

/// `parts` joined with the single character `sep` between consecutive parts.
pub open spec fn join_char(parts: Seq<Seq<char>>, sep: char) -> Seq<char>
    decreases parts.len(),
{
    if parts.len() == 0 {
        Seq::empty()
    } else if parts.len() == 1 {
        parts[0]
    } else {
        parts[0] + seq![sep] + join_char(parts.drop_first(), sep)
    }
}

/// The views of a sequence of character vectors.
pub open spec fn views_of(p: Seq<Vec<char>>) -> Seq<Seq<char>> {
    p.map_values(|v: Vec<char>| v@)
}

/// Appends all characters of `src` to `dst`.
pub fn push_all(dst: &mut Vec<char>, src: &Vec<char>)
    ensures
        final(dst)@ == old(dst)@ + src@,
{
    let mut j: usize = 0;
    while j < src.len()
        invariant
            j <= src@.len(),
            dst@ == old(dst)@ + src@.subrange(0, j as int),
        decreases src@.len() - j,
    {
        dst.push(src[j]);
        assert(dst@ =~= old(dst)@ + src@.subrange(0, j + 1 as int));
        j = j + 1;
    }
    assert(dst@ =~= old(dst)@ + src@);
}

/// A copy of `s[from..to]`.
pub fn subvec(s: &Vec<char>, from: usize, to: usize) -> (r: Vec<char>)
    requires
        from <= to <= s@.len(),
    ensures
        r@ == s@.subrange(from as int, to as int),
{
    let mut r: Vec<char> = Vec::new();
    let mut j: usize = from;
    while j < to
        invariant
            from <= j <= to <= s@.len(),
            r@ == s@.subrange(from as int, j as int),
        decreases to - j,
    {
        r.push(s[j]);
        assert(r@ =~= s@.subrange(from as int, j + 1 as int));
        j = j + 1;
    }
    r
}

/// The first position at or after `from` holding `c`, or the length of `s`.
pub fn find_char(s: &Vec<char>, from: usize, c: char) -> (r: usize)
    requires
        from <= s@.len(),
    ensures
        r == find_char_from(s@, from as int, c),
        from <= r <= s@.len(),
{
    let n: usize = s.len();
    let mut j: usize = from;
    while j < n
        invariant
            from <= j <= n,
            n == s@.len(),
            find_char_from(s@, from as int, c) == find_char_from(s@, j as int, c),
        decreases n - j,
    {
        if s[j] == c {
            proof {
                lemma_find_char_from(s@, from as int, c);
            }
            return j;
        }
        j = j + 1;
    }
    proof {
        lemma_find_char_from(s@, from as int, c);
    }
    j
}

/// The first position at or after `from` holding whitespace, or the length
/// of `s`.
pub fn find_space(s: &Vec<char>, from: usize) -> (r: usize)
    requires
        from <= s@.len(),
    ensures
        r == find_space_from(s@, from as int),
        from <= r <= s@.len(),
{
    let n: usize = s.len();
    let mut j: usize = from;
    while j < n
        invariant
            from <= j <= n,
            n == s@.len(),
            find_space_from(s@, from as int) == find_space_from(s@, j as int),
        decreases n - j,
    {
        if space_char(s[j]) {
            proof {
                lemma_find_space_from(s@, from as int);
            }
            return j;
        }
        j = j + 1;
    }
    proof {
        lemma_find_space_from(s@, from as int);
    }
    j
}

/// Scrubs `s`: each minimal "<...>" span and each character that is not a
/// word character, hyphen or whitespace becomes `rep`.
pub fn scrub_chars(s: &Vec<char>, rep: &Vec<char>) -> (r: Vec<char>)
    ensures
        r@ == scrub(s@, rep@),
{
    let n: usize = s.len();
    let mut out: Vec<char> = Vec::new();
    let mut i: usize = 0;
    while i < n
        invariant
            i <= n,
            n == s@.len(),
            scrub_from(s@, 0, rep@) == out@ + scrub_from(s@, i as int, rep@),
        decreases n - i,
    {
        let ghost prev = out@;
        let c = s[i];
        if c == '<' {
            let e = find_char(s, i + 1, '>');
            if e < n {
                push_all(&mut out, rep);
                proof {
                    assert(scrub_from(s@, i as int, rep@) == rep@ + scrub_from(
                        s@,
                        e + 1 as int,
                        rep@,
                    ));
                    assert(prev + (rep@ + scrub_from(s@, e + 1 as int, rep@)) =~= (prev + rep@)
                        + scrub_from(s@, e + 1 as int, rep@));
                }
                i = e + 1;
            } else {
                push_all(&mut out, rep);
                proof {
                    assert(!is_word_char('<') && '<' != '-' && !is_space_char('<'));
                    assert(scrub_from(s@, i as int, rep@) == rep@ + scrub_from(
                        s@,
                        i + 1 as int,
                        rep@,
                    ));
                    assert(prev + (rep@ + scrub_from(s@, i + 1 as int, rep@)) =~= (prev + rep@)
                        + scrub_from(s@, i + 1 as int, rep@));
                }
                i = i + 1;
            }
        } else if word_char(c) || c == '-' || space_char(c) {
            out.push(c);
            proof {
                assert(scrub_from(s@, i as int, rep@) == seq![s@[i as int]] + scrub_from(
                    s@,
                    i + 1 as int,
                    rep@,
                ));
                assert(prev + (seq![s@[i as int]] + scrub_from(s@, i + 1 as int, rep@)) =~= (prev
                    + seq![s@[i as int]]) + scrub_from(s@, i + 1 as int, rep@));
                assert(out@ =~= prev + seq![s@[i as int]]);
            }
            i = i + 1;
        } else {
            push_all(&mut out, rep);
            proof {
                assert(scrub_from(s@, i as int, rep@) == rep@ + scrub_from(
                    s@,
                    i + 1 as int,
                    rep@,
                ));
                assert(prev + (rep@ + scrub_from(s@, i + 1 as int, rep@)) =~= (prev + rep@)
                    + scrub_from(s@, i + 1 as int, rep@));
            }
            i = i + 1;
        }
    }
    proof {
        assert(scrub_from(s@, n as int, rep@) =~= Seq::<char>::empty());
        assert(out@ + Seq::<char>::empty() =~= out@);
    }
    out
}

/// Collapses each whitespace run of `s` to a single space.
pub fn collapse_ws_chars(s: &Vec<char>) -> (r: Vec<char>)
    ensures
        r@ == collapse_ws(s@),
{
    let n: usize = s.len();
    let mut out: Vec<char> = Vec::new();
    let mut i: usize = 0;
    while i < n
        invariant
            i <= n,
            n == s@.len(),
            collapse_ws_from(s@, 0) == out@ + collapse_ws_from(s@, i as int),
        decreases n - i,
    {
        let ghost prev = out@;
        let c = s[i];
        if space_char(c) {
            if i > 0 && space_char(s[i - 1]) {
                // inside a run: nothing emitted
            } else {
                out.push(' ');
                proof {
                    assert(prev + (seq![' '] + collapse_ws_from(s@, i + 1 as int)) =~= (prev
                        + seq![' ']) + collapse_ws_from(s@, i + 1 as int));
                    assert(out@ =~= prev + seq![' ']);
                }
            }
        } else {
            out.push(c);
            proof {
                assert(prev + (seq![s@[i as int]] + collapse_ws_from(s@, i + 1 as int)) =~= (prev
                    + seq![s@[i as int]]) + collapse_ws_from(s@, i + 1 as int));
                assert(out@ =~= prev + seq![s@[i as int]]);
            }
        }
        i = i + 1;
    }
    proof {
        assert(out@ + Seq::<char>::empty() =~= out@);
    }
    out
}

/// The whitespace-separated tokens of `s`.
pub fn split_ws_chars(s: &Vec<char>) -> (r: Vec<Vec<char>>)
    ensures
        views_of(r@) == split_ws(s@),
{
    let n: usize = s.len();
    let mut r: Vec<Vec<char>> = Vec::new();
    let mut i: usize = 0;
    while i < n
        invariant
            i <= n,
            n == s@.len(),
            split_ws(s@) == views_of(r@) + split_ws_from(s@, i as int),
        decreases n - i,
    {
        let ghost prevs = views_of(r@);
        if space_char(s[i]) {
            i = i + 1;
        } else {
            let e = find_space(s, i);
            proof {
                lemma_find_space_from(s@, i as int);
            }
            let tok = subvec(s, i, e);
            r.push(tok);
            proof {
                assert(views_of(r@) =~= prevs + seq![tok@]);
                assert(split_ws_from(s@, i as int) == seq![s@.subrange(i as int, e as int)]
                    + split_ws_from(s@, e as int));
                assert(prevs + (seq![tok@] + split_ws_from(s@, e as int)) =~= (prevs + seq![tok@])
                    + split_ws_from(s@, e as int));
            }
            i = e;
        }
    }
    proof {
        assert(views_of(r@) + Seq::<Seq<char>>::empty() =~= views_of(r@));
    }
    r
}

/// The fields of `s` separated by `sep`; fields may be empty.
pub fn split_char_chars(s: &Vec<char>, sep: char) -> (r: Vec<Vec<char>>)
    ensures
        views_of(r@) == split_char(s@, sep),
{
    let n: usize = s.len();
    let mut r: Vec<Vec<char>> = Vec::new();
    let mut i: usize = 0;
    loop
        invariant_except_break
            split_char(s@, sep) == views_of(r@) + split_char_from(s@, i as int, sep),
        invariant
            i <= n,
            n == s@.len(),
        ensures
            views_of(r@) == split_char(s@, sep),
        decreases n - i,
    {
        let ghost prevs = views_of(r@);
        let e = find_char(s, i, sep);
        let tok = subvec(s, i, e);
        r.push(tok);
        proof {
            assert(views_of(r@) =~= prevs + seq![tok@]);
        }
        if e < n {
            proof {
                assert(split_char_from(s@, i as int, sep) == seq![s@.subrange(i as int, e as int)]
                    + split_char_from(s@, e + 1 as int, sep));
                assert(prevs + (seq![tok@] + split_char_from(s@, e + 1 as int, sep)) =~= (prevs
                    + seq![tok@]) + split_char_from(s@, e + 1 as int, sep));
            }
            i = e + 1;
        } else {
            proof {
                assert(split_char_from(s@, i as int, sep) =~= seq![
                    s@.subrange(i as int, n as int),
                ]);
                assert(prevs + seq![tok@] =~= views_of(r@));
                assert(views_of(r@) =~= split_char(s@, sep));
            }
            break;
        }
    }
    r
}

/// `parts` joined with `sep` between consecutive parts.
pub fn join_with(parts: &Vec<Vec<char>>, sep: char) -> (r: Vec<char>)
    ensures
        r@ == join_char(views_of(parts@), sep),
{
    let mut out: Vec<char> = Vec::new();
    let mut i: usize = 0;
    while i < parts.len()
        invariant
            i <= parts@.len(),
            out@ == join_char(views_of(parts@).take(i as int), sep),
        decreases parts@.len() - i,
    {
        let ghost prev = out@;
        if i > 0 {
            out.push(sep);
        }
        let p = &parts[i];
        push_all(&mut out, p);
        proof {
            if i == 0 {
                assert(views_of(parts@).take(1) =~= seq![parts@[0]@]);
                assert(join_char(seq![parts@[0]@], sep) == parts@[0]@);
                assert(out@ =~= parts@[0]@);
            } else {
                lemma_join_take_succ(views_of(parts@), sep, i as int);
                assert(out@ =~= prev + seq![sep] + parts@[i as int]@);
                assert(views_of(parts@)[i as int] == parts@[i as int]@);
            }
        }
        i = i + 1;
    }
    proof {
        assert(views_of(parts@).take(parts@.len() as int) =~= views_of(parts@));
        if parts@.len() == 0 {
            assert(join_char(views_of(parts@).take(0), sep) =~= Seq::<char>::empty());
        }
    }
    out
}

/// Extending a join by one more part appends one separator and the part.
pub proof fn lemma_join_take_succ(parts: Seq<Seq<char>>, sep: char, i: int)
    requires
        1 <= i < parts.len(),
    ensures
        join_char(parts.take(i + 1), sep) == join_char(parts.take(i), sep) + seq![sep]
            + parts[i],
    decreases i,
{
    if i == 1 {
        assert(parts.take(2).drop_first() =~= seq![parts[1]]);
        assert(parts.take(1) =~= seq![parts[0]]);
        assert(parts.take(2)[0] == parts[0]);
        assert(join_char(seq![parts[1]], sep) == parts[1]);
        assert(join_char(parts.take(2), sep) == parts.take(2)[0] + seq![sep] + join_char(
            parts.take(2).drop_first(),
            sep,
        ));
    } else {
        lemma_join_take_succ(parts.drop_first(), sep, i - 1);
        assert(parts.take(i + 1).drop_first() =~= parts.drop_first().take(i));
        assert(parts.take(i).drop_first() =~= parts.drop_first().take(i - 1));
        assert(parts.take(i + 1)[0] == parts[0]);
        assert(join_char(parts.take(i + 1), sep) == parts[0] + seq![sep] + join_char(
            parts.drop_first().take(i),
            sep,
        ));
        assert(join_char(parts.take(i), sep) == parts[0] + seq![sep] + join_char(
            parts.drop_first().take(i - 1),
            sep,
        ));
        assert(parts.drop_first()[i - 1] == parts[i]);
    }
}

/// Every character of `s` is a word character or a hyphen.
pub open spec fn safe_seq(s: Seq<char>) -> bool {
    forall|i: int| 0 <= i < s.len() ==> is_word_char(#[trigger] s[i]) || s[i] == '-'
}

/// Every character of `s` is a word character, a hyphen or whitespace.
pub open spec fn wds_seq(s: Seq<char>) -> bool {
    forall|i: int|
        0 <= i < s.len() ==> is_word_char(#[trigger] s[i]) || s[i] == '-' || is_space_char(s[i])
}

pub proof fn lemma_concat_wds(a: Seq<char>, b: Seq<char>)
    requires
        wds_seq(a),
        wds_seq(b),
    ensures
        wds_seq(a + b),
{
    assert forall|i: int| 0 <= i < (a + b).len() implies is_word_char(#[trigger] (a + b)[i]) || (a
        + b)[i] == '-' || is_space_char((a + b)[i]) by {
        if i < a.len() {
            assert((a + b)[i] == a[i]);
        } else {
            assert((a + b)[i] == b[i - a.len()]);
        }
    }
}

pub proof fn lemma_concat_safe(a: Seq<char>, b: Seq<char>)
    requires
        safe_seq(a),
        safe_seq(b),
    ensures
        safe_seq(a + b),
{
    assert forall|i: int| 0 <= i < (a + b).len() implies is_word_char(#[trigger] (a + b)[i]) || (a
        + b)[i] == '-' by {
        if i < a.len() {
            assert((a + b)[i] == a[i]);
        } else {
            assert((a + b)[i] == b[i - a.len()]);
        }
    }
}

/// Whatever goes in, the scrubber only lets word characters, hyphens and
/// whitespace out (given a replacement of that same shape).
pub proof fn lemma_scrub_wds(s: Seq<char>, i: int, rep: Seq<char>)
    requires
        wds_seq(rep),
    ensures
        wds_seq(scrub_from(s, i, rep)),
    decreases s.len() - i,
{
    if i < 0 || i >= s.len() {
    } else if s[i] == '<' && find_char_from(s, i + 1, '>') < s.len() {
        lemma_find_char_from(s, i + 1, '>');
        lemma_scrub_wds(s, find_char_from(s, i + 1, '>') + 1, rep);
        lemma_concat_wds(rep, scrub_from(s, find_char_from(s, i + 1, '>') + 1, rep));
    } else if is_word_char(s[i]) || s[i] == '-' || is_space_char(s[i]) {
        lemma_scrub_wds(s, i + 1, rep);
        lemma_concat_wds(seq![s[i]], scrub_from(s, i + 1, rep));
    } else {
        lemma_scrub_wds(s, i + 1, rep);
        lemma_concat_wds(rep, scrub_from(s, i + 1, rep));
    }
}

/// Lowercasing keeps characters word characters, hyphens or whitespace.
pub proof fn lemma_lower_wds(s: Seq<char>)
    requires
        wds_seq(s),
    ensures
        wds_seq(lower_seq(s)),
{
    assert forall|i: int| 0 <= i < lower_seq(s).len() implies is_word_char(
        #[trigger] lower_seq(s)[i],
    ) || lower_seq(s)[i] == '-' || is_space_char(lower_seq(s)[i]) by {
        assert(lower_seq(s)[i] == lower_char(s[i]));
    }
}

/// The whitespace-separated tokens of a word/hyphen/whitespace string hold
/// word characters and hyphens only.
pub proof fn lemma_split_ws_safe(s: Seq<char>, i: int)
    requires
        wds_seq(s),
    ensures
        forall|k: int|
            0 <= k < split_ws_from(s, i).len() ==> safe_seq(#[trigger] split_ws_from(s, i)[k]),
    decreases s.len() - i,
{
    if i < 0 || i >= s.len() {
    } else if is_space_char(s[i]) {
        lemma_split_ws_safe(s, i + 1);
        assert(split_ws_from(s, i) == split_ws_from(s, i + 1));
    } else {
        let e = find_space_from(s, i);
        lemma_find_space_from(s, i);
        lemma_split_ws_safe(s, e);
        let tok = s.subrange(i, e);
        assert(split_ws_from(s, i) == seq![tok] + split_ws_from(s, e));
        assert(safe_seq(tok)) by {
            assert forall|j: int| 0 <= j < tok.len() implies is_word_char(#[trigger] tok[j])
                || tok[j] == '-' by {
                assert(tok[j] == s[i + j]);
                assert(!is_space_char(s[i + j]));
            }
        }
        assert forall|k: int| 0 <= k < split_ws_from(s, i).len() implies safe_seq(
            #[trigger] split_ws_from(s, i)[k],
        ) by {
            if k == 0 {
                assert(split_ws_from(s, i)[0] == tok);
            } else {
                assert(split_ws_from(s, i)[k] == split_ws_from(s, e)[k - 1]);
            }
        }
    }
}

/// Joining word/hyphen parts with a hyphen yields a word/hyphen string.
pub proof fn lemma_join_safe(ps: Seq<Seq<char>>, sep: char)
    requires
        is_word_char(sep) || sep == '-',
        forall|k: int| 0 <= k < ps.len() ==> safe_seq(#[trigger] ps[k]),
    ensures
        safe_seq(join_char(ps, sep)),
    decreases ps.len(),
{
    if ps.len() == 0 {
    } else if ps.len() == 1 {
        assert(safe_seq(ps[0]));
    } else {
        assert forall|k: int| 0 <= k < ps.drop_first().len() implies safe_seq(
            #[trigger] ps.drop_first()[k],
        ) by {
            assert(ps.drop_first()[k] == ps[k + 1]);
        }
        lemma_join_safe(ps.drop_first(), sep);
        assert(safe_seq(seq![sep]));
        lemma_concat_safe(ps[0], seq![sep]);
        lemma_concat_safe(ps[0] + seq![sep], join_char(ps.drop_first(), sep));
        assert(ps[0] + seq![sep] + join_char(ps.drop_first(), sep) == (ps[0] + seq![sep])
            + join_char(ps.drop_first(), sep));
    }
}

/// The hyphen-separated fields of a word/hyphen string hold word
/// characters and hyphens only.
pub proof fn lemma_split_char_safe(s: Seq<char>, i: int, sep: char)
    requires
        safe_seq(s),
    ensures
        forall|k: int|
            0 <= k < split_char_from(s, i, sep).len() ==> safe_seq(
                #[trigger] split_char_from(s, i, sep)[k],
            ),
    decreases s.len() - i,
{
    if i < 0 || i > s.len() {
    } else {
        let e = find_char_from(s, i, sep);
        lemma_find_char_from(s, i, sep);
        assert forall|lo: int, hi: int|
            0 <= lo <= hi <= s.len() implies safe_seq(s.subrange(lo, hi)) by {
            let sub = s.subrange(lo, hi);
            assert forall|j: int| 0 <= j < sub.len() implies is_word_char(#[trigger] sub[j])
                || sub[j] == '-' by {
                assert(sub[j] == s[lo + j]);
            }
        }
        if e < s.len() {
            lemma_split_char_safe(s, e + 1, sep);
            assert forall|k: int| 0 <= k < split_char_from(s, i, sep).len() implies safe_seq(
                #[trigger] split_char_from(s, i, sep)[k],
            ) by {
                if k == 0 {
                    assert(split_char_from(s, i, sep)[0] == s.subrange(i, e));
                } else {
                    assert(split_char_from(s, i, sep)[k] == split_char_from(s, e + 1, sep)[k - 1]);
                }
            }
        } else {
            assert(split_char_from(s, i, sep) == seq![s.subrange(i, s.len() as int)]);
        }
    }
}

} // verus!
