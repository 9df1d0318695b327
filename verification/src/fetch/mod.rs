//! Fetching: published-version resolution, metadata retrieval and PDF
//! location, dispatched over the classified identifier source.
use vstd::prelude::*;
use vstd::string::StringExecFns;

pub mod arxiv;
pub mod biorxiv;
mod http;
pub mod osf;
pub mod unpaywall;

use crate::entry::Author;
use crate::entry::Entry;
use crate::entry::EntryData;
use crate::fetch::http::http_get;
use crate::fetch::unpaywall::Advisory;
use crate::fetch::unpaywall::PdfChoice;
use crate::json::at_index;
use crate::json::field_str;
use crate::json::get_field;
use crate::json::int_of;
use crate::json::json_field;
use crate::json::opt_at;
use crate::json::opt_field;
use crate::json::opt_int;
use crate::json::opt_str;
use crate::json::parse_json;
use crate::json::JsonValue;
use crate::source::classified_as;
use crate::source::classify;
use crate::source::Source;
use crate::text::view_opt;

verus! {

/// Why a fetch failed.
#[derive(Debug, Clone, PartialEq, Eq)]
pub enum FetchError {
    /// The network call failed, or the service answered with a non-2xx
    /// status; carries the underlying message.
    Transport(String),
    /// The response body did not parse as the expected JSON shape.
    MalformedResponse,
    /// No PDF location or download link was to be had.
    NotFound,
}

impl FetchError {
    /// A short human-readable account of the failure.
    pub fn describe(&self) -> (r: String)
        ensures
            self matches FetchError::Transport(m) ==> r@ == "transport error: "@ + m@,
            self is MalformedResponse ==> r@ == "malformed response"@,
            self is NotFound ==> r@ == "not found"@,
    {
        match self {
            FetchError::Transport(m) => {
                let mut r = String::from_str("transport error: ");
                r.append(m.as_str());
                r
            },
            FetchError::MalformedResponse => String::from_str("malformed response"),
            FetchError::NotFound => String::from_str("not found"),
        }
    }
}

/// Checks whether a published version of the work exists (for instance
/// when the identifier names a preprint) and returns its DOI if the
/// matching upstream service reports one. Identifiers of no known family
/// always resolve to "no published version", never to an error.
pub fn published_doi(source: &Source) -> (r: Result<Option<String>, FetchError>)
    ensures
        source matches Source::Other(_) ==> r matches Ok(o) && o is None,
        r matches Err(e) ==> (e matches FetchError::Transport(_) || e is MalformedResponse),
{
    match source {
        Source::Arxiv(id) => arxiv::published_doi(id.as_str()),
        Source::Biorxiv(id) => biorxiv::published_doi(id.as_str()),
        Source::Osf(id) => osf::published_doi(id.as_str()),
        Source::Other(_) => Ok(None),
    }
}

/// The field names the record builder reads at fixed paths; everything
/// else passes through into the record's extra fields.
pub open spec fn known_key(k: Seq<char>) -> bool {
    k == "author"@ || k == "issued"@ || k == "title"@ || k == "title-short"@ || k == "shortTitle"@
        || k == "source"@ || k == "container-title"@ || k == "DOI"@
}

fn is_known_key(k: &String) -> (r: bool)
    ensures
        r == known_key(k@),
{
    let ks = k.clone();
    ks == String::from_str("author") || ks == String::from_str("issued") || ks
        == String::from_str("title") || ks == String::from_str("title-short") || ks
        == String::from_str("shortTitle") || ks == String::from_str("source") || ks
        == String::from_str("container-title") || ks == String::from_str("DOI")
}

/// The title a response carries.
pub open spec fn title_of(v: JsonValue) -> Option<Seq<char>> {
    opt_str(json_field(v, "title"@))
}

/// The short title: the "title-short" string, else the "shortTitle" one.
pub open spec fn title_short_of(v: JsonValue) -> Option<Seq<char>> {
    match opt_str(json_field(v, "title-short"@)) {
        Option::Some(s) => Option::Some(s),
        Option::None => opt_str(json_field(v, "shortTitle"@)),
    }
}

/// The container string: the "source" string, else "container-title".
pub open spec fn container_of(v: JsonValue) -> Option<Seq<char>> {
    match opt_str(json_field(v, "source"@)) {
        Option::Some(s) => Option::Some(s),
        Option::None => opt_str(json_field(v, "container-title"@)),
    }
}

/// The DOI a response carries.
pub open spec fn doi_of(v: JsonValue) -> Option<Seq<char>> {
    opt_str(json_field(v, "DOI"@))
}

/// The issued year: the first date-part at "issued.date-parts[0][0]".
pub open spec fn year_of(v: JsonValue) -> Option<i64> {
    opt_int(opt_at(opt_at(opt_field(json_field(v, "issued"@), "date-parts"@), 0), 0))
}

/// The elements of the "author" array; empty when there is no such array.
pub open spec fn author_items(v: JsonValue) -> Seq<JsonValue> {
    match json_field(v, "author"@) {
        Option::Some(JsonValue::Arr(a)) => a@,
        _ => Seq::empty(),
    }
}

/// `a` is exactly the author the object `x` describes.
pub open spec fn author_matches(a: Author, x: JsonValue) -> bool {
    &&& view_opt(a.family) == opt_str(json_field(x, "family"@))
    &&& view_opt(a.given) == opt_str(json_field(x, "given"@))
    &&& view_opt(a.literal) == opt_str(json_field(x, "literal"@))
}

/// The entry list of a JSON object; empty for any other value.
pub open spec fn obj_entries(v: JsonValue) -> Seq<(String, JsonValue)> {
    match v {
        JsonValue::Obj(es) => es@,
        _ => Seq::empty(),
    }
}

/// The entries whose names the record builder does not read, in order.
pub open spec fn extra_of(es: Seq<(String, JsonValue)>) -> Seq<(String, JsonValue)>
    decreases es.len(),
{
    if es.len() == 0 {
        Seq::empty()
    } else if known_key(es[0].0@) {
        extra_of(es.drop_first())
    } else {
        seq![es[0]] + extra_of(es.drop_first())
    }
}

/// Builds a record from a citation-metadata response: the fields the tool
/// reads are taken at their fixed paths, every unread field passes through
/// untouched and in order, and the tags and managerial fields start out
/// unset.
pub fn record_from_json(v: JsonValue) -> (d: EntryData)
    ensures
        d.custom.tags@.len() == 0,
        d.custom.other@.len() == 0,
        d.id is None,
        d.citation_key is None,
        d.legacy_id is None,
        d.legacy_citation_key is None,
        view_opt(d.title) == title_of(v),
        view_opt(d.title_short) == title_short_of(v),
        view_opt(d.container) == container_of(v),
        view_opt(d.doi) == doi_of(v),
        d.issued_year == year_of(v),
        d.authors@.len() == author_items(v).len(),
        forall|i: int|
            0 <= i < d.authors@.len() ==> author_matches(#[trigger] d.authors@[i], author_items(v)[i]),
        d.extra@ == extra_of(obj_entries(v)),
{
    let mut d = EntryData::new();
    match get_field(&v, &String::from_str("author")) {
        Option::Some(av) => match av {
            JsonValue::Arr(items) => {
                proof {
                    assert(author_items(v) == items@);
                }
                let n: usize = items.len();
                let mut i: usize = 0;
                while i < n
                    invariant
                        i <= n,
                        n == items@.len(),
                        author_items(v) == items@,
                        d.authors@.len() == i,
                        forall|k: int|
                            0 <= k < i ==> author_matches(#[trigger] d.authors@[k], items@[k]),
                        d.custom.tags@.len() == 0,
                        d.custom.other@.len() == 0,
                        d.id is None,
                        d.citation_key is None,
                        d.legacy_id is None,
                        d.legacy_citation_key is None,
                        d.issued_year is None,
                        d.title is None,
                        d.title_short is None,
                        d.container is None,
                        d.doi is None,
                        d.extra@.len() == 0,
                    decreases n - i,
                {
                    let item = &items[i];
                    let family = field_str(item, &String::from_str("family"));
                    let given = field_str(item, &String::from_str("given"));
                    let literal = field_str(item, &String::from_str("literal"));
                    d.authors.push(Author { family, given, literal });
                    i = i + 1;
                }
            },
            _ => {
                proof {
                    assert(author_items(v) =~= Seq::<JsonValue>::empty());
                }
            },
        },
        Option::None => {
            proof {
                assert(author_items(v) =~= Seq::<JsonValue>::empty());
            }
        },
    }
    d.issued_year = match get_field(&v, &String::from_str("issued")) {
        Option::Some(iss) => match get_field(iss, &String::from_str("date-parts")) {
            Option::Some(dp) => match at_index(dp, 0) {
                Option::Some(first) => match at_index(first, 0) {
                    Option::Some(y) => int_of(y),
                    Option::None => None,
                },
                Option::None => None,
            },
            Option::None => None,
        },
        Option::None => None,
    };
    assert(d.issued_year == year_of(v));
    d.title = field_str(&v, &String::from_str("title"));
    d.title_short = match field_str(&v, &String::from_str("title-short")) {
        Option::Some(s) => Some(s),
        Option::None => field_str(&v, &String::from_str("shortTitle")),
    };
    d.container = match field_str(&v, &String::from_str("source")) {
        Option::Some(s) => Some(s),
        Option::None => field_str(&v, &String::from_str("container-title")),
    };
    d.doi = field_str(&v, &String::from_str("DOI"));
    let mut extra: Vec<(String, JsonValue)> = Vec::new();
    match v {
        JsonValue::Obj(mut entries) => {
            let ghost orig = entries@;
            while entries.len() > 0
                invariant
                    extra_of(orig) == extra@ + extra_of(entries@),
                decreases entries@.len(),
            {
                let ghost prev = extra@;
                let ghost before = entries@;
                let e = entries.remove(0);
                proof {
                    assert(before.remove(0) =~= before.drop_first());
                }
                if !is_known_key(&e.0) {
                    extra.push(e);
                    proof {
                        assert(extra_of(before) == seq![before[0]] + extra_of(before.drop_first()));
                        assert(prev + (seq![before[0]] + extra_of(entries@)) =~= (prev + seq![
                            before[0],
                        ]) + extra_of(entries@));
                        assert(extra@ =~= prev + seq![before[0]]);
                    }
                } else {
                    proof {
                        assert(extra_of(before) == extra_of(before.drop_first()));
                    }
                }
            }
            proof {
                assert(extra@ + extra_of(entries@) =~= extra@);
            }
        },
        _ => {
            proof {
                assert(obj_entries(v) =~= Seq::<(String, JsonValue)>::empty());
            }
        },
    }
    d.extra = extra;
    d
}

/// The DOI the metadata lookup is keyed by: the published version's when
/// the resolver reported one, else the originally supplied identifier.
pub fn resolve_target(resolved: Option<String>, doi: String) -> (t: String)
    ensures
        t == match resolved {
            Option::Some(d) => d,
            Option::None => doi,
        },
{
    match resolved {
        Option::Some(d) => d,
        Option::None => doi,
    }
}

/// The DOI content-negotiation URL for one identifier.
pub fn doi_resolve_url(target: &str) -> (r: String)
    ensures
        r@ == "https://dx.doi.org/"@ + target@,
{
    let mut r = String::from_str("https://dx.doi.org/");
    r.append(target);
    r
}

/// Resolves the final DOI (preferring the published version when the
/// identifier names a preprint), fetches the citation metadata record for
/// it, and returns the record bundled with the source classified from the
/// originally supplied identifier.
pub fn fetch_metadata(doi: String) -> (r: Result<Entry, FetchError>)
    ensures
        r matches Ok(e) ==> e.source matches Some(s) && classified_as(doi@, s),
        r matches Err(e) ==> (e matches FetchError::Transport(_) || e is MalformedResponse),
{
    let source = classify(doi.clone());
    let resolved: Option<String> = match published_doi(&source) {
        Ok(o) => o,
        Err(e) => {
            return Err(e);
        },
    };
    let target: String = resolve_target(resolved, doi);
    let url = doi_resolve_url(target.as_str());
    let body = match http_get(
        url.as_str(),
        "application/vnd.citationstyles.csl+json; charset=utf-8",
    ) {
        Ok(b) => b,
        Err(m) => {
            return Err(FetchError::Transport(m));
        },
    };
    let v = match parse_json(body.as_str()) {
        Option::Some(v) => v,
        Option::None => {
            return Err(FetchError::MalformedResponse);
        },
    };
    let data = record_from_json(v);
    Ok(Entry { source: Some(source), data })
}

/// A located full-text PDF: the URL to download, and the advisory to show
/// when only a version below the published one is available.
#[derive(Debug, Clone)]
pub struct LocatedPdf {
    pub url: String,
    pub advisory: Option<Advisory>,
}

/// Turns the open-access lookup's outcome into the located PDF at the
/// call site: a chosen link succeeds unchanged, no eligible location is
/// the "no open access PDF found" failure.
pub fn located_from_choice(choice: PdfChoice) -> (r: Result<LocatedPdf, FetchError>)
    ensures
        choice.url matches Some(u) ==> r matches Ok(p) && p.url == u && p.advisory
            == choice.advisory,
        choice.url is None ==> (r matches Err(e) && e is NotFound),
{
    let PdfChoice { url, advisory } = choice;
    match url {
        Option::Some(u) => Ok(LocatedPdf { url: u, advisory }),
        Option::None => Err(FetchError::NotFound),
    }
}

/// Returns a direct or best-effort URL to a full-text PDF for a classified
/// source: deterministic URLs for the arXiv and bioRxiv families, the OSF
/// file listing for OSF preprints, and the ranked open-access lookup for
/// everything else; "no open access PDF found" is the NotFound error.
pub fn fetch_pdf_url(source: &Source, email: &str) -> (r: Result<LocatedPdf, FetchError>)
    ensures
        source matches Source::Arxiv(id) ==> r matches Ok(p) && p.url@ == "https://arxiv.org/pdf/"@
            + id@ && p.advisory is None,
        source matches Source::Biorxiv(id) ==> r matches Ok(p) && p.url@
            == "https://www.biorxiv.org/content/"@ + id@ + ".full.pdf"@ && p.advisory is None,
        r matches Err(e) ==> (e matches FetchError::Transport(_) || e is MalformedResponse
            || e is NotFound),
{
    match source {
        Source::Arxiv(id) => Ok(LocatedPdf { url: arxiv::pdf_url(id.as_str()), advisory: None }),
        Source::Biorxiv(id) => Ok(
            LocatedPdf { url: biorxiv::pdf_url(id.as_str()), advisory: None },
        ),
        Source::Osf(id) => match osf::pdf_url(id.as_str()) {
            Ok(u) => Ok(LocatedPdf { url: u, advisory: None }),
            Err(e) => Err(e),
        },
        Source::Other(doi) => match unpaywall::pdf_url(doi.as_str(), email) {
            Ok(choice) => located_from_choice(choice),
            Err(e) => Err(e),
        },
    }
}

} // verus!
