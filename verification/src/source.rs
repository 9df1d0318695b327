//! Classification of raw identifiers (DOIs or URLs) into the upstream
//! family they belong to.
use vstd::prelude::*;
use vstd::string::StrSliceExecFns;
use vstd::string::StringExecFns;

use crate::text::find_marker;
use crate::text::digit_char;
use crate::text::is_digit_char;
use crate::text::lower_char;
use crate::text::marker_at;
use crate::text::str_to_chars;

verus! {

/// The upstream family a raw identifier belongs to, with the captured
/// family-specific id, or `Other` holding the unchanged input.
#[derive(Debug, Clone)]
pub enum Source {
    Arxiv(String),
    Biorxiv(String),
    Osf(String),
    Other(String),
}

/// The arXiv DOI marker, lowercase: "10.48550/arxiv."
pub open spec fn arxiv_marker() -> Seq<char> {
    seq!['1', '0', '.', '4', '8', '5', '5', '0', '/', 'a', 'r', 'x', 'i', 'v', '.']
}

/// The bioRxiv/medRxiv DOI marker, lowercase: "10.1101/"
pub open spec fn biorxiv_marker() -> Seq<char> {
    seq!['1', '0', '.', '1', '1', '0', '1', '/']
}

/// The head of the OSF DOI pattern: "10."
pub open spec fn osf_head() -> Seq<char> {
    seq!['1', '0', '.']
}

/// The tail of the OSF DOI pattern, between registrant digits and id: "/osf.io/"
pub open spec fn osf_tail() -> Seq<char> {
    seq!['/', 'o', 's', 'f', '.', 'i', 'o', '/']
}

/// The OSF pattern matches at `i` with exactly `m` registrant digits:
/// "10." then `m` digits then "/osf.io/" then a nonempty id.
pub open spec fn osf_match_with(s: Seq<char>, i: int, m: int) -> bool {
    &&& 4 <= m <= 9
    &&& 0 <= i
    &&& i + 3 + m + 8 < s.len()
    &&& (forall|j: int| 0 <= j < 3 ==> lower_char(s[i + j]) == osf_head()[j])
    &&& (forall|j: int| i + 3 <= j < i + 3 + m ==> is_digit_char(s[j]))
    &&& (forall|j: int| 0 <= j < 8 ==> lower_char(s[i + 3 + m + j]) == osf_tail()[j])
}

pub open spec fn osf_match_at(s: Seq<char>, i: int) -> bool {
    exists|m: int| osf_match_with(s, i, m)
}

/// `i` is the leftmost arXiv marker occurrence in `s`.
pub open spec fn arxiv_first_at(s: Seq<char>, i: int) -> bool {
    &&& marker_at(s, arxiv_marker(), i)
    &&& forall|j: int| 0 <= j < i ==> !marker_at(s, arxiv_marker(), j)
}

/// `i` is the leftmost bioRxiv marker occurrence in `s`.
pub open spec fn biorxiv_first_at(s: Seq<char>, i: int) -> bool {
    &&& marker_at(s, biorxiv_marker(), i)
    &&& forall|j: int| 0 <= j < i ==> !marker_at(s, biorxiv_marker(), j)
}

/// The OSF pattern matches leftmost at `i`, with `m` registrant digits.
pub open spec fn osf_first_at(s: Seq<char>, i: int, m: int) -> bool {
    &&& osf_match_with(s, i, m)
    &&& forall|j: int| 0 <= j < i ==> !osf_match_at(s, j)
}

pub open spec fn has_arxiv(s: Seq<char>) -> bool {
    exists|i: int| marker_at(s, arxiv_marker(), i)
}

pub open spec fn has_biorxiv(s: Seq<char>) -> bool {
    exists|i: int| marker_at(s, biorxiv_marker(), i)
}

pub open spec fn has_osf(s: Seq<char>) -> bool {
    exists|i: int| osf_match_at(s, i)
}

/// What `classify` promises: the recognizers are tried in a fixed order
/// (arXiv, then bioRxiv, then OSF); the first family whose pattern occurs
/// anywhere in the input wins, capturing from the leftmost occurrence the
/// nonempty rest of the input after the marker; an input matching no
/// pattern is passed through unchanged as `Other`.
pub open spec fn classified_as(raw: Seq<char>, src: Source) -> bool {
    if has_arxiv(raw) {
        &&& src matches Source::Arxiv(id)
        &&& exists|i: int|
            #[trigger] arxiv_first_at(raw, i) && id@ == raw.subrange(i + 15, raw.len() as int)
    } else if has_biorxiv(raw) {
        &&& src matches Source::Biorxiv(id)
        &&& exists|i: int|
            #[trigger] biorxiv_first_at(raw, i) && id@ == raw.subrange(i + 8, raw.len() as int)
    } else if has_osf(raw) {
        &&& src matches Source::Osf(id)
        &&& exists|i: int, m: int|
            #[trigger] osf_first_at(raw, i, m) && id@ == raw.subrange(
                i + 3 + m + 8,
                raw.len() as int,
            )
    } else {
        &&& src matches Source::Other(r)
        &&& r@ == raw
    }
}

fn arxiv_marker_vec() -> (v: Vec<char>)
    ensures
        v@ == arxiv_marker(),
{
    let v: Vec<char> = vec!['1', '0', '.', '4', '8', '5', '5', '0', '/', 'a', 'r', 'x', 'i', 'v', '.'];
    assert(v@ =~= arxiv_marker());
    v
}

fn biorxiv_marker_vec() -> (v: Vec<char>)
    ensures
        v@ == biorxiv_marker(),
{
    let v: Vec<char> = vec!['1', '0', '.', '1', '1', '0', '1', '/'];
    assert(v@ =~= biorxiv_marker());
    v
}

fn osf_head_vec() -> (v: Vec<char>)
    ensures
        v@ == osf_head(),
{
    let v: Vec<char> = vec!['1', '0', '.'];
    assert(v@ =~= osf_head());
    v
}

fn osf_tail_vec() -> (v: Vec<char>)
    ensures
        v@ == osf_tail(),
{
    let v: Vec<char> = vec!['/', 'o', 's', 'f', '.', 'i', 'o', '/'];
    assert(v@ =~= osf_tail());
    v
}

/// Whether the OSF pattern matches at `i`; if so, also the start of the
/// captured id (the position right after "/osf.io/").
fn osf_match_here(s: &Vec<char>, i: usize) -> (r: Option<usize>)
    ensures
        match r {
            Some(st) => osf_match_with(s@, i as int, st - i - 11) && st <= s@.len(),
            None => !osf_match_at(s@, i as int),
        },
{
    let head = osf_head_vec();
    let tail = osf_tail_vec();
    if s.len() < 3 || i > s.len() - 3 {
        assert forall|m: int| !osf_match_with(s@, i as int, m) by {}
        return None;
    }
    if !crate::text::ci_match_prefix(s, &head, i) {
        assert forall|m: int| !osf_match_with(s@, i as int, m) by {}
        return None;
    }
    // count the digit run after "10.", capped just above the largest allowed
    let mut m: usize = 0;
    loop
        invariant
            m <= 10,
            i + 3 + m <= s@.len(),
            forall|j: int| i + 3 <= j < i + 3 + m ==> is_digit_char(s@[j]),
        ensures
            m <= 10,
            i + 3 + m <= s@.len(),
            forall|j: int| i + 3 <= j < i + 3 + m ==> is_digit_char(s@[j]),
            m == 10 || i + 3 + m == s@.len() || !is_digit_char(s@[i + 3 + m]),
        decreases 10 - m,
    {
        if m >= 10 {
            break;
        }
        if m >= s.len() - (i + 3) {
            break;
        }
        if !digit_char(s[i + 3 + m]) {
            break;
        }
        m = m + 1;
    }
    // m is now the length of the digit run (capped at 10)
    if m < 4 || m > 9 {
        assert forall|m2: int| !osf_match_with(s@, i as int, m2) by {
            if osf_match_with(s@, i as int, m2) {
                if m2 < m {
                    assert(is_digit_char(s@[i + 3 + m2]));
                    assert(lower_char(s@[i + 3 + m2 + 0]) == osf_tail()[0]);
                } else {
                    assert(m < 10);
                    assert(m2 > m);
                    assert(is_digit_char(s@[i + 3 + m]));
                }
            }
        }
        return None;
    }
    // the run ended (m < 10), so the character after it, if any, is not a digit
    if s.len() - (i + 3 + m) <= 8 {
        assert forall|m2: int| !osf_match_with(s@, i as int, m2) by {
            if osf_match_with(s@, i as int, m2) {
                if m2 < m {
                    assert(is_digit_char(s@[i + 3 + m2]));
                    assert(lower_char(s@[i + 3 + m2 + 0]) == osf_tail()[0]);
                } else if m2 > m {
                    assert(is_digit_char(s@[i + 3 + m]));
                }
            }
        }
        return None;
    }
    if !crate::text::ci_match_prefix(s, &tail, i + 3 + m) {
        assert forall|m2: int| !osf_match_with(s@, i as int, m2) by {
            if osf_match_with(s@, i as int, m2) {
                if m2 < m {
                    assert(is_digit_char(s@[i + 3 + m2]));
                    assert(lower_char(s@[i + 3 + m2 + 0]) == osf_tail()[0]);
                } else if m2 > m {
                    assert(is_digit_char(s@[i + 3 + m]));
                }
            }
        }
        return None;
    }
    Some(i + 3 + m + 8)
}

/// The leftmost OSF match, as (start of match, start of captured id).
fn find_osf(s: &Vec<char>) -> (r: Option<(usize, usize)>)
    ensures
        match r {
            Some(p) => osf_first_at(s@, p.0 as int, p.1 - p.0 - 11) && p.1 <= s@.len(),
            None => forall|j: int| !osf_match_at(s@, j),
        },
{
    let mut i: usize = 0;
    while i < s.len()
        invariant
            i <= s@.len(),
            forall|j: int| 0 <= j < i ==> !osf_match_at(s@, j),
        decreases s@.len() - i,
    {
        match osf_match_here(s, i) {
            Some(st) => {
                return Some((i, st));
            },
            None => {},
        }
        i = i + 1;
    }
    assert forall|j: int| !osf_match_at(s@, j) by {
        if osf_match_at(s@, j) {
            let m = choose|m: int| osf_match_with(s@, j, m);
            assert(0 <= j < s@.len());
        }
    }
    None
}

/// Classifies a raw identifier into its upstream family by matching the
/// family recognizers in a fixed priority order; unrecognized input is
/// preserved unchanged.
pub fn classify(raw: String) -> (src: Source)
    ensures
        classified_as(raw@, src),
{
    let chars = str_to_chars(raw.as_str());
    let n: usize = chars.len();
    if let Some(i) = find_marker(&chars, &arxiv_marker_vec()) {
        let id = String::from_str(raw.as_str().substring_char(i + 15, n));
        proof {
            assert(marker_at(raw@, arxiv_marker(), i as int));
            assert(arxiv_first_at(raw@, i as int));
            assert(id@ == raw@.subrange(i + 15, raw@.len() as int));
        }
        return Source::Arxiv(id);
    }
    if let Some(i) = find_marker(&chars, &biorxiv_marker_vec()) {
        let id = String::from_str(raw.as_str().substring_char(i + 8, n));
        proof {
            assert(forall|j: int| !marker_at(raw@, arxiv_marker(), j));
            assert(marker_at(raw@, biorxiv_marker(), i as int));
            assert(biorxiv_first_at(raw@, i as int));
            assert(id@ == raw@.subrange(i + 8, raw@.len() as int));
        }
        return Source::Biorxiv(id);
    }
    if let Some(p) = find_osf(&chars) {
        let i = p.0;
        let st = p.1;
        let id = String::from_str(raw.as_str().substring_char(st, n));
        proof {
            assert(forall|j: int| !marker_at(raw@, arxiv_marker(), j));
            assert(forall|j: int| !marker_at(raw@, biorxiv_marker(), j));
            assert(osf_first_at(raw@, i as int, st - i - 11));
            assert(osf_match_at(raw@, i as int));
            assert(id@ == raw@.subrange(i + 3 + (st - i - 11) + 8, raw@.len() as int));
        }
        return Source::Osf(id);
    }
    proof {
        assert(forall|j: int| !marker_at(raw@, arxiv_marker(), j));
        assert(forall|j: int| !marker_at(raw@, biorxiv_marker(), j));
        assert(forall|j: int| !osf_match_at(raw@, j));
    }
    Source::Other(raw)
}

} // verus!
