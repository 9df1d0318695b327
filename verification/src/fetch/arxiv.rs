//! The arXiv family: a deterministic PDF URL, and a published-DOI lookup
//! that pattern-extracts the "<arxiv:doi>" element from the query API's
//! XML response.
use vstd::prelude::*;
use vstd::string::StrSliceExecFns;
use vstd::string::StringExecFns;

use crate::fetch::http::http_get;
use crate::fetch::FetchError;
use crate::text::chars_to_string;
use crate::text::ci_at;
use crate::text::find_char;
use crate::text::find_char_from;
use crate::text::find_ci_from;
use crate::text::str_to_chars;
use crate::text::subvec;
use crate::text::trim_chars;
use crate::text::trim_spaces;
use crate::text::view_opt;

verus! {

/// The opening tag prefix looked for, lowercase: "<arxiv:doi"
pub open spec fn doi_open_tag() -> Seq<char> {
    seq!['<', 'a', 'r', 'x', 'i', 'v', ':', 'd', 'o', 'i']
}

/// The closing tag, lowercase: "</arxiv:doi>"
pub open spec fn doi_close_tag() -> Seq<char> {
    seq!['<', '/', 'a', 'r', 'x', 'i', 'v', ':', 'd', 'o', 'i', '>']
}

/// `o` is the leftmost case-insensitive occurrence of the opening tag.
pub open spec fn open_first_at(body: Seq<char>, o: int) -> bool {
    &&& ci_at(body, doi_open_tag(), o)
    &&& forall|j: int| 0 <= j < o ==> !ci_at(body, doi_open_tag(), j)
}

/// `c` is the leftmost case-insensitive occurrence of the closing tag at
/// or after `from`.
pub open spec fn close_first_at(body: Seq<char>, from: int, c: int) -> bool {
    &&& from <= c
    &&& ci_at(body, doi_close_tag(), c)
    &&& forall|j: int| from <= j < c ==> !ci_at(body, doi_close_tag(), j)
}

/// What extracting the published DOI from a response body yields: from the
/// first opening tag, past the first '>' closing it, the nonempty content
/// up to the first closing tag, trimmed; or nothing when any of those
/// pieces is missing.
pub open spec fn extracted_doi(body: Seq<char>, r: Option<Seq<char>>) -> bool {
    if exists|i: int| ci_at(body, doi_open_tag(), i) {
        exists|o: int|
            {
                &&& #[trigger] open_first_at(body, o)
                &&& {
                    let g = find_char_from(body, o + 10, '>');
                    if g >= body.len() {
                        r is None
                    } else if exists|c: int| g + 2 <= c && ci_at(body, doi_close_tag(), c) {
                        exists|c: int|
                            #[trigger] close_first_at(body, g + 2, c) && r == Option::Some(
                                trim_spaces(body.subrange(g + 1, c)),
                            )
                    } else {
                        r is None
                    }
                }
            }
    } else {
        r is None
    }
}

fn doi_open_vec() -> (v: Vec<char>)
    ensures
        v@ == doi_open_tag(),
{
    let v: Vec<char> = vec!['<', 'a', 'r', 'x', 'i', 'v', ':', 'd', 'o', 'i'];
    assert(v@ =~= doi_open_tag());
    v
}

fn doi_close_vec() -> (v: Vec<char>)
    ensures
        v@ == doi_close_tag(),
{
    let v: Vec<char> = vec!['<', '/', 'a', 'r', 'x', 'i', 'v', ':', 'd', 'o', 'i', '>'];
    assert(v@ =~= doi_close_tag());
    v
}

/// Pattern-extracts the published DOI from an arXiv query API response
/// body: the trimmed content of the first "<arxiv:doi ...>...</arxiv:doi>"
/// element, if one is there.
pub fn extract_published_doi(body: &str) -> (r: Option<String>)
    ensures
        extracted_doi(body@, view_opt(r)),
{
    let chars = str_to_chars(body);
    let n: usize = chars.len();
    let open = doi_open_vec();
    let close = doi_close_vec();
    let o = match find_ci_from(&chars, &open, 0) {
        Option::Some(o) => o,
        Option::None => {
            return None;
        },
    };
    proof {
        assert(open_first_at(body@, o as int));
    }
    let g = find_char(&chars, o + 10, '>');
    if g == n {
        return None;
    }
    if n - g < 2 {
        proof {
            assert forall|c: int| !(g + 2 <= c && ci_at(body@, doi_close_tag(), c)) by {}
        }
        return None;
    }
    match find_ci_from(&chars, &close, g + 2) {
        Option::Some(c) => {
            let content = subvec(&chars, g + 1, c);
            let trimmed = trim_chars(&content);
            let r = chars_to_string(&trimmed);
            proof {
                assert(close_first_at(body@, g + 2 as int, c as int));
                assert(r@ == trim_spaces(body@.subrange(g + 1 as int, c as int)));
            }
            Some(r)
        },
        Option::None => None,
    }
}

/// The arXiv query API URL for one identifier.
pub fn query_url(arxiv_id: &str) -> (r: String)
    ensures
        r@ == "http://export.arxiv.org/api/query?id_list="@ + arxiv_id@,
{
    let mut r = String::from_str("http://export.arxiv.org/api/query?id_list=");
    r.append(arxiv_id);
    r
}

/// The deterministic arXiv full-text PDF URL for one identifier.
pub fn pdf_url(arxiv_id: &str) -> (r: String)
    ensures
        r@ == "https://arxiv.org/pdf/"@ + arxiv_id@,
{
    let mut r = String::from_str("https://arxiv.org/pdf/");
    r.append(arxiv_id);
    r
}

/// Queries the arXiv API for one identifier and pattern-extracts the DOI
/// of the published version, if the record names one. Absence of the
/// element is a normal empty result; only transport failures are errors.
pub fn published_doi(arxiv_id: &str) -> (r: Result<Option<String>, FetchError>)
    ensures
        r matches Err(e) ==> e matches FetchError::Transport(_),
{
    let url = query_url(arxiv_id);
    let body = match http_get(url.as_str(), "application/xml; charset=utf-8") {
        Ok(b) => b,
        Err(m) => {
            return Err(FetchError::Transport(m));
        },
    };
    Ok(extract_published_doi(body.as_str()))
}

} // verus!
