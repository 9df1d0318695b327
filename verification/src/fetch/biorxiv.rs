//! The bioRxiv/medRxiv family: a deterministic PDF URL, and a published-DOI
//! lookup that tries the bioRxiv pubs endpoint first and falls back to the
//! medRxiv one when the first reports no collection entry.
use vstd::prelude::*;
use vstd::string::StringExecFns;

use crate::fetch::http::http_get;
use crate::fetch::FetchError;
use crate::json::get_field;
use crate::json::json_field;
use crate::json::opt_at;
use crate::json::opt_field;
use crate::json::opt_str;
use crate::json::parse_json;
use crate::json::str_of;
use crate::json::JsonValue;
use crate::text::view_opt;

verus! {

/// The deterministic bioRxiv full-text PDF URL for one identifier.
pub fn pdf_url(biorxiv_id: &str) -> (r: String)
    ensures
        r@ == "https://www.biorxiv.org/content/"@ + biorxiv_id@ + ".full.pdf"@,
{
    let mut r = String::from_str("https://www.biorxiv.org/content/");
    r.append(biorxiv_id);
    r.append(".full.pdf");
    r
}

/// The pubs endpoints queried for one identifier, in the order they are
/// tried: bioRxiv first, then medRxiv.
pub fn pubs_urls(biorxiv_id: &str) -> (r: Vec<String>)
    ensures
        r@.len() == 2,
        r@[0]@ == "https://api.biorxiv.org/pubs/biorxiv/"@ + biorxiv_id@,
        r@[1]@ == "https://api.biorxiv.org/pubs/medrxiv/"@ + biorxiv_id@,
{
    let mut b = String::from_str("https://api.biorxiv.org/pubs/biorxiv/");
    b.append(biorxiv_id);
    let mut m = String::from_str("https://api.biorxiv.org/pubs/medrxiv/");
    m.append(biorxiv_id);
    let mut r: Vec<String> = Vec::new();
    r.push(b);
    r.push(m);
    r
}

/// The published DOI a pubs response names: the "published_doi" string of
/// the first collection item.
pub open spec fn published_doi_of(v: JsonValue) -> Option<Seq<char>> {
    opt_str(opt_field(opt_at(json_field(v, "collection"@), 0), "published_doi"@))
}

/// Reads the published DOI out of a pubs response.
pub fn extract_published_doi(v: &JsonValue) -> (r: Option<String>)
    ensures
        view_opt(r) == published_doi_of(*v),
{
    let collection = match get_field(v, &String::from_str("collection")) {
        Option::Some(c) => c,
        Option::None => {
            return None;
        },
    };
    let first = match crate::json::at_index(collection, 0) {
        Option::Some(f) => f,
        Option::None => {
            return None;
        },
    };
    match get_field(first, &String::from_str("published_doi")) {
        Option::Some(d) => str_of(d),
        Option::None => None,
    }
}

/// Queries the pubs endpoints in order for one identifier and returns the
/// first published DOI reported; an endpoint reporting no collection entry
/// is a normal empty result that lets the next endpoint be tried, and only
/// transport failures and unparseable bodies are errors.
pub fn published_doi(biorxiv_id: &str) -> (r: Result<Option<String>, FetchError>)
    ensures
        r matches Err(e) ==> (e matches FetchError::Transport(_) || e is MalformedResponse),
{
    let urls = pubs_urls(biorxiv_id);
    let mut k: usize = 0;
    while k < urls.len()
        invariant
            k <= urls@.len(),
        decreases urls@.len() - k,
    {
        let body = match http_get(urls[k].as_str(), "application/json; charset=utf-8") {
            Ok(b) => b,
            Err(m) => {
                return Err(FetchError::Transport(m));
            },
        };
        let v = match parse_json(body.as_str()) {
            Option::Some(v) => v,
            Option::None => {
                return Err(FetchError::MalformedResponse);
            },
        };
        match extract_published_doi(&v) {
            Option::Some(doi) => {
                return Ok(Some(doi));
            },
            Option::None => {},
        }
        k = k + 1;
    }
    Ok(None)
}

} // verus!
