//! The open-access fallback for identifiers of no known family: ask the
//! open-access lookup service for every reported location and pick the
//! best-ranked one that exposes a direct PDF link.
use vstd::prelude::*;
use vstd::string::StringExecFns;

use crate::fetch::http::http_get_query;
use crate::fetch::FetchError;
use crate::json::get_field;
use crate::json::json_field;
use crate::json::opt_str;
use crate::json::parse_json;
use crate::json::str_of;
use crate::json::JsonValue;
use crate::text::view_opt;

verus! {

/// The version of a work an open-access location serves, ordered by rank:
/// a published version supersedes an accepted manuscript, which supersedes
/// a submitted preprint.
#[derive(Debug, Clone, Copy, PartialEq, Eq, Structural)]
pub enum Version {
    Submitted,
    Accepted,
    Published,
}

/// The rank a location's version competes with.
pub open spec fn rank(v: Version) -> int {
    match v {
        Version::Submitted => 0,
        Version::Accepted => 1,
        Version::Published => 2,
    }
}

pub fn rank_of(v: Version) -> (r: u8)
    ensures
        r as int == rank(v),
{
    match v {
        Version::Submitted => 0,
        Version::Accepted => 1,
        Version::Published => 2,
    }
}

/// One reported open-access location.
#[derive(Debug, Clone)]
pub struct OaLocation {
    pub url_for_pdf: Option<String>,
    pub url_for_landing_page: String,
    pub version: Version,
}

/// A location is eligible for automatic download only when it exposes a
/// direct PDF link.
pub open spec fn eligible(l: OaLocation) -> bool {
    l.url_for_pdf is Some
}

/// `i` is the selected index: the first eligible location whose version
/// rank no other eligible location exceeds.
pub open spec fn picked_at(ls: Seq<OaLocation>, i: int) -> bool {
    &&& 0 <= i < ls.len()
    &&& eligible(ls[i])
    &&& forall|j: int|
        0 <= j < ls.len() && eligible(#[trigger] ls[j]) ==> rank(ls[j].version) <= rank(
            ls[i].version,
        )
    &&& forall|j: int|
        0 <= j < i && eligible(#[trigger] ls[j]) ==> rank(ls[j].version) < rank(ls[i].version)
}

/// The non-fatal notice handed back when the chosen PDF is not the
/// published version: the published version's landing page, when the
/// service reports one, for manual retrieval.
#[derive(Debug, Clone)]
pub struct Advisory {
    pub published_landing: Option<String>,
}

/// The outcome of the selection: the chosen direct PDF link, if any
/// location was eligible, and the advisory, if the chosen version is not
/// the published one.
#[derive(Debug, Clone)]
pub struct PdfChoice {
    pub url: Option<String>,
    pub advisory: Option<Advisory>,
}

/// What the advisory says, given the service's best location: the landing
/// page of the published version if that is what the best location holds,
/// and nothing otherwise.
pub open spec fn advisory_for(best: Option<OaLocation>, a: Advisory) -> bool {
    match best {
        Option::Some(b) => if b.version is Published {
            a.published_landing == Option::Some(b.url_for_landing_page)
        } else {
            a.published_landing is None
        },
        Option::None => a.published_landing is None,
    }
}

/// Picks the best available full-text version: among the locations with a
/// direct PDF link, the first of highest rank (Published > Accepted >
/// Submitted). No eligible location yields no URL and no advisory; a
/// chosen location below Published also yields the advisory.
pub fn select_pdf(locations: &Vec<OaLocation>, best: &Option<OaLocation>) -> (r: PdfChoice)
    ensures
        (forall|i: int| 0 <= i < locations@.len() ==> !eligible(#[trigger] locations@[i]))
            ==> r.url is None && r.advisory is None,
        (exists|i: int| 0 <= i < locations@.len() && eligible(#[trigger] locations@[i]))
            ==> exists|i: int|
            {
                &&& #[trigger] picked_at(locations@, i)
                &&& r.url == locations@[i].url_for_pdf
                &&& if locations@[i].version is Published {
                    r.advisory is None
                } else {
                    r.advisory matches Some(a) && advisory_for(*best, a)
                }
            },
{
    let n: usize = locations.len();
    let mut found: bool = false;
    let mut bi: usize = 0;
    let mut i: usize = 0;
    while i < n
        invariant
            i <= n,
            n == locations@.len(),
            !found ==> forall|j: int| 0 <= j < i ==> !eligible(#[trigger] locations@[j]),
            found ==> bi < i && eligible(locations@[bi as int]),
            found ==> forall|j: int|
                0 <= j < i && eligible(#[trigger] locations@[j]) ==> rank(locations@[j].version)
                    <= rank(locations@[bi as int].version),
            found ==> forall|j: int|
                0 <= j < bi && eligible(#[trigger] locations@[j]) ==> rank(locations@[j].version)
                    < rank(locations@[bi as int].version),
        decreases n - i,
    {
        if locations[i].url_for_pdf.is_some() {
            if !found {
                found = true;
                bi = i;
            } else if rank_of(locations[i].version) > rank_of(locations[bi].version) {
                bi = i;
            }
        }
        i = i + 1;
    }
    if !found {
        return PdfChoice { url: None, advisory: None };
    }
    proof {
        assert(picked_at(locations@, bi as int));
    }
    let url: Option<String> = match &locations[bi].url_for_pdf {
        Option::Some(u) => Some(u.clone()),
        Option::None => None,
    };
    let advisory: Option<Advisory> = if rank_of(locations[bi].version) == 2 {
        None
    } else {
        let published_landing: Option<String> = match best {
            Option::Some(b) => if b.version == Version::Published {
                Some(b.url_for_landing_page.clone())
            } else {
                None
            },
            Option::None => None,
        };
        Some(Advisory { published_landing })
    };
    PdfChoice { url, advisory }
}

/// How a location's "url_for_pdf" field reads: an absent or null field is
/// a missing link, a string is the link, anything else (the outer nothing)
/// is malformed.
pub open spec fn loc_pdf_of(v: JsonValue) -> Option<Option<Seq<char>>> {
    match json_field(v, "url_for_pdf"@) {
        Option::None => Option::Some(Option::None),
        Option::Some(x) => match x {
            JsonValue::Null => Option::Some(Option::None),
            JsonValue::Str(s) => Option::Some(Option::Some(s@)),
            _ => Option::None,
        },
    }
}

/// The landing page a location names, when the field holds a string.
pub open spec fn loc_landing_of(v: JsonValue) -> Option<Seq<char>> {
    opt_str(json_field(v, "url_for_landing_page"@))
}

/// The version a location names, when the field holds a known tag.
pub open spec fn loc_version_of(v: JsonValue) -> Option<Version> {
    match opt_str(json_field(v, "version"@)) {
        Option::Some(s) => version_of(s),
        Option::None => Option::None,
    }
}

/// The location object is well-formed.
pub open spec fn loc_ok(v: JsonValue) -> bool {
    loc_pdf_of(v) is Some && loc_landing_of(v) is Some && loc_version_of(v) is Some
}

/// `l` is exactly the location the object `v` describes.
pub open spec fn loc_matches(l: OaLocation, v: JsonValue) -> bool {
    &&& loc_pdf_of(v) == Option::Some(view_opt(l.url_for_pdf))
    &&& loc_landing_of(v) == Option::Some(l.url_for_landing_page@)
    &&& loc_version_of(v) == Option::Some(l.version)
}

/// Reads one open-access location out of its JSON object; a missing or
/// ill-typed required field makes the whole response count as malformed.
pub fn location_from_json(v: &JsonValue) -> (r: Result<OaLocation, FetchError>)
    ensures
        r is Ok <==> loc_ok(*v),
        r matches Ok(l) ==> loc_matches(l, *v),
        r matches Err(e) ==> e is MalformedResponse,
{
    let url_for_pdf: Option<String> = match get_field(v, &String::from_str("url_for_pdf")) {
        Option::Some(x) => match x {
            JsonValue::Null => None,
            JsonValue::Str(s) => Some(s.clone()),
            _ => {
                return Err(FetchError::MalformedResponse);
            },
        },
        Option::None => None,
    };
    let url_for_landing_page: String = match get_field(
        v,
        &String::from_str("url_for_landing_page"),
    ) {
        Option::Some(x) => match str_of(x) {
            Option::Some(s) => s,
            Option::None => {
                return Err(FetchError::MalformedResponse);
            },
        },
        Option::None => {
            return Err(FetchError::MalformedResponse);
        },
    };
    let vs: String = match get_field(v, &String::from_str("version")) {
        Option::Some(x) => match str_of(x) {
            Option::Some(s) => s,
            Option::None => {
                return Err(FetchError::MalformedResponse);
            },
        },
        Option::None => {
            return Err(FetchError::MalformedResponse);
        },
    };
    let version = match parse_version(vs.as_str()) {
        Ok(w) => w,
        Err(e) => {
            return Err(e);
        },
    };
    Ok(OaLocation { url_for_pdf, url_for_landing_page, version })
}

/// The version named by the service's version tag.
pub open spec fn version_of(s: Seq<char>) -> Option<Version> {
    if s == "submittedVersion"@ {
        Option::Some(Version::Submitted)
    } else if s == "acceptedVersion"@ {
        Option::Some(Version::Accepted)
    } else if s == "publishedVersion"@ {
        Option::Some(Version::Published)
    } else {
        Option::None
    }
}

/// Parses the service's version tag; anything unknown counts as a
/// malformed response.
pub fn parse_version(s: &str) -> (r: Result<Version, FetchError>)
    ensures
        match version_of(s@) {
            Option::Some(v) => r == Ok::<Version, FetchError>(v),
            Option::None => r == Err::<Version, FetchError>(FetchError::MalformedResponse),
        },
{
    let sv = String::from_str(s);
    if sv == String::from_str("submittedVersion") {
        Ok(Version::Submitted)
    } else if sv == String::from_str("acceptedVersion") {
        Ok(Version::Accepted)
    } else if sv == String::from_str("publishedVersion") {
        Ok(Version::Published)
    } else {
        Err(FetchError::MalformedResponse)
    }
}

/// The array of reported locations; empty when the field is no array.
pub open spec fn resp_locations(v: JsonValue) -> Seq<JsonValue> {
    match json_field(v, "oa_locations"@) {
        Option::Some(JsonValue::Arr(a)) => a@,
        _ => Seq::empty(),
    }
}

/// The response carries an "oa_locations" array at all.
pub open spec fn resp_has_locations(v: JsonValue) -> bool {
    json_field(v, "oa_locations"@) matches Option::Some(JsonValue::Arr(_))
}

/// The "best_oa_location" field, as the service sent it.
pub open spec fn best_field(v: JsonValue) -> Option<JsonValue> {
    json_field(v, "best_oa_location"@)
}

/// The whole lookup response is well-formed: a locations array whose
/// members all are, and a best location that is absent, null or
/// well-formed.
pub open spec fn resp_ok(v: JsonValue) -> bool {
    &&& resp_has_locations(v)
    &&& (forall|i: int|
        0 <= i < resp_locations(v).len() ==> loc_ok(#[trigger] resp_locations(v)[i]))
    &&& match best_field(v) {
        Option::Some(b) => b is Null || loc_ok(b),
        Option::None => true,
    }
}

/// `best` is exactly what the "best_oa_location" field describes.
pub open spec fn best_matches(best: Option<OaLocation>, v: JsonValue) -> bool {
    match best_field(v) {
        Option::Some(b) => if b is Null {
            best is None
        } else {
            best matches Some(l) && loc_matches(l, b)
        },
        Option::None => best is None,
    }
}

/// Reads the reported locations and the service's best location out of a
/// lookup response: it succeeds exactly on well-formed responses, and then
/// hands back every reported location, in order, and the best location.
pub fn locations_from_json(v: &JsonValue) -> (r: Result<
    (Vec<OaLocation>, Option<OaLocation>),
    FetchError,
>)
    ensures
        r is Ok <==> resp_ok(*v),
        r matches Ok(p) ==> {
            &&& p.0@.len() == resp_locations(*v).len()
            &&& (forall|i: int|
                0 <= i < p.0@.len() ==> loc_matches(#[trigger] p.0@[i], resp_locations(*v)[i]))
            &&& best_matches(p.1, *v)
        },
        r matches Err(e) ==> e is MalformedResponse,
{
    let arr = match get_field(v, &String::from_str("oa_locations")) {
        Option::Some(a) => a,
        Option::None => {
            return Err(FetchError::MalformedResponse);
        },
    };
    let items: &Vec<JsonValue> = match arr {
        JsonValue::Arr(a) => a,
        _ => {
            return Err(FetchError::MalformedResponse);
        },
    };
    proof {
        assert(resp_locations(*v) == items@);
    }
    let n: usize = items.len();
    let mut ls: Vec<OaLocation> = Vec::new();
    let mut i: usize = 0;
    while i < n
        invariant
            i <= n,
            n == items@.len(),
            resp_locations(*v) == items@,
            resp_has_locations(*v),
            ls@.len() == i,
            forall|k: int| 0 <= k < i ==> loc_ok(#[trigger] items@[k]),
            forall|k: int| 0 <= k < i ==> loc_matches(#[trigger] ls@[k], items@[k]),
        decreases n - i,
    {
        let loc = match location_from_json(&items[i]) {
            Ok(l) => l,
            Err(e) => {
                proof {
                    assert(!loc_ok(resp_locations(*v)[i as int]));
                }
                return Err(e);
            },
        };
        ls.push(loc);
        i = i + 1;
    }
    let best: Option<OaLocation> = match get_field(v, &String::from_str("best_oa_location")) {
        Option::Some(b) => match b {
            JsonValue::Null => None,
            _ => match location_from_json(b) {
                Ok(l) => Some(l),
                Err(e) => {
                    return Err(e);
                },
            },
        },
        Option::None => None,
    };
    Ok((ls, best))
}

/// The open-access lookup URL for one DOI.
pub fn lookup_url(doi: &str) -> (r: String)
    ensures
        r@ == "https://api.unpaywall.org/v2/"@ + doi@,
{
    let mut r = String::from_str("https://api.unpaywall.org/v2/");
    r.append(doi);
    r
}

/// Asks the open-access lookup service about one DOI (passing the contact
/// email its usage policy asks for) and picks the best available full-text
/// version among the reported locations.
pub fn pdf_url(doi: &str, email: &str) -> (r: Result<PdfChoice, FetchError>)
    ensures
        r matches Err(e) ==> (e matches FetchError::Transport(_) || e is MalformedResponse),
{
    let url = lookup_url(doi);
    let body = match http_get_query(
        url.as_str(),
        "application/json; charset=utf-8",
        "email",
        email,
    ) {
        Ok(b) => b,
        Err(m) => {
            return Err(FetchError::Transport(m));
        },
    };
    let v = match parse_json(body.as_str()) {
        Option::Some(v) => v,
        Option::None => {
            return Err(FetchError::MalformedResponse);
        },
    };
    let parsed = match locations_from_json(&v) {
        Ok(p) => p,
        Err(e) => {
            return Err(e);
        },
    };
    Ok(select_pdf(&parsed.0, &parsed.1))
}

} // verus!
