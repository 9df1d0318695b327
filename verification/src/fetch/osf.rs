//! The OSF family: a published-DOI lookup through the preprints API, and a
//! PDF lookup through the preprint's primary file storage listing.
use vstd::prelude::*;
use vstd::string::StringExecFns;

use crate::fetch::http::http_get;
use crate::fetch::FetchError;
use crate::json::at_index;
use crate::json::get_field;
use crate::json::json_field;
use crate::json::opt_at;
use crate::json::opt_field;
use crate::json::opt_str;
use crate::json::parse_json;
use crate::json::str_of;
use crate::json::JsonValue;
use crate::text::view_opt;

verus! {

/// The OSF preprints API URL for one identifier.
pub fn preprint_url(osf_id: &str) -> (r: String)
    ensures
        r@ == "https://api.osf.io/v2/preprints/"@ + osf_id@,
{
    let mut r = String::from_str("https://api.osf.io/v2/preprints/");
    r.append(osf_id);
    r
}

/// The OSF file-listing URL for one identifier's primary storage.
pub fn files_url(osf_id: &str) -> (r: String)
    ensures
        r@ == "https://api.osf.io/v2/preprints/"@ + osf_id@ + "/files/osfstorage/"@,
{
    let mut r = preprint_url(osf_id);
    r.append("/files/osfstorage/");
    r
}

/// The published DOI a preprints response names: the string at
/// "data.attributes.doi".
pub open spec fn published_doi_of(v: JsonValue) -> Option<Seq<char>> {
    opt_str(opt_field(opt_field(json_field(v, "data"@), "attributes"@), "doi"@))
}

/// Reads the published DOI out of a preprints response.
pub fn extract_published_doi(v: &JsonValue) -> (r: Option<String>)
    ensures
        view_opt(r) == published_doi_of(*v),
{
    let data = match get_field(v, &String::from_str("data")) {
        Option::Some(d) => d,
        Option::None => {
            return None;
        },
    };
    let attrs = match get_field(data, &String::from_str("attributes")) {
        Option::Some(a) => a,
        Option::None => {
            return None;
        },
    };
    match get_field(attrs, &String::from_str("doi")) {
        Option::Some(d) => str_of(d),
        Option::None => None,
    }
}

/// The download link a file-listing response names: the string at
/// "data[0].links.download".
pub open spec fn download_link_of(v: JsonValue) -> Option<Seq<char>> {
    opt_str(opt_field(opt_field(opt_at(json_field(v, "data"@), 0), "links"@), "download"@))
}

/// Reads the first listed file's download link out of a file-listing
/// response.
pub fn extract_download_link(v: &JsonValue) -> (r: Option<String>)
    ensures
        view_opt(r) == download_link_of(*v),
{
    let data = match get_field(v, &String::from_str("data")) {
        Option::Some(d) => d,
        Option::None => {
            return None;
        },
    };
    let first = match at_index(data, 0) {
        Option::Some(f) => f,
        Option::None => {
            return None;
        },
    };
    let links = match get_field(first, &String::from_str("links")) {
        Option::Some(l) => l,
        Option::None => {
            return None;
        },
    };
    match get_field(links, &String::from_str("download")) {
        Option::Some(d) => str_of(d),
        Option::None => None,
    }
}

/// Queries the OSF preprints API for one identifier and returns the DOI of
/// the published version, if the record names one. Absence of the field is
/// a normal empty result; only transport failures and unparseable bodies
/// are errors.
pub fn published_doi(osf_id: &str) -> (r: Result<Option<String>, FetchError>)
    ensures
        r matches Err(e) ==> (e matches FetchError::Transport(_) || e is MalformedResponse),
{
    let url = preprint_url(osf_id);
    let body = match http_get(url.as_str(), "application/vnd.api+json; charset=utf-8") {
        Ok(b) => b,
        Err(m) => {
            return Err(FetchError::Transport(m));
        },
    };
    let v = match parse_json(body.as_str()) {
        Option::Some(v) => v,
        Option::None => {
            return Err(FetchError::MalformedResponse);
        },
    };
    Ok(extract_published_doi(&v))
}

/// Queries the OSF file listing for one identifier and returns the first
/// file's download link; a listing without one is a "not found" failure.
pub fn pdf_url(osf_id: &str) -> (r: Result<String, FetchError>)
    ensures
        r matches Err(e) ==> (e matches FetchError::Transport(_) || e is MalformedResponse
            || e is NotFound),
{
    let url = files_url(osf_id);
    let body = match http_get(url.as_str(), "application/vnd.api+json; charset=utf-8") {
        Ok(b) => b,
        Err(m) => {
            return Err(FetchError::Transport(m));
        },
    };
    let v = match parse_json(body.as_str()) {
        Option::Some(v) => v,
        Option::None => {
            return Err(FetchError::MalformedResponse);
        },
    };
    match extract_download_link(&v) {
        Option::Some(link) => Ok(link),
        Option::None => Err(FetchError::NotFound),
    }
}

} // verus!
