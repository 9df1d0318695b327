use picoref::citekey::get_key;
use picoref::fetch::{fetch_pdf_url, record_from_json};
use picoref::json::{parse_json, JsonValue};
use picoref::source::Source;

#[test]
fn record_is_built_from_citeproc_json() {
    let body = "{\"author\": [{\"family\": \"Smith\", \"given\": \"Ann\"}, {\"literal\": \"Some Lab\"}], \"issued\": {\"date-parts\": [[2021, 3, 2]]}, \"title\": \"A Study of Cats\", \"DOI\": \"10.1000/xyz\", \"container-title\": \"Journal of Cats\", \"volume\": \"7\"}";
    let v = parse_json(body).unwrap();
    let d = record_from_json(v);
    assert_eq!(d.authors.len(), 2);
    assert_eq!(d.authors[0].family.as_deref(), Some("Smith"));
    assert_eq!(d.authors[0].given.as_deref(), Some("Ann"));
    assert_eq!(d.authors[1].literal.as_deref(), Some("Some Lab"));
    assert_eq!(d.issued_year, Some(2021));
    assert_eq!(d.title.as_deref(), Some("A Study of Cats"));
    assert_eq!(d.doi.as_deref(), Some("10.1000/xyz"));
    assert_eq!(d.container.as_deref(), Some("Journal of Cats"));
    assert!(d.id.is_none());
    assert!(d.citation_key.is_none());
    assert!(get_tags_len(&d) == 0);
    // the unknown field passes through untouched
    assert_eq!(d.extra.len(), 1);
    assert_eq!(d.extra[0].0, "volume");
    assert!(matches!(&d.extra[0].1, JsonValue::Str(s) if s == "7"));
    // and the whole record derives the expected citekey
    assert_eq!(get_key(&d), "smith_2021_study-cats");
}

fn get_tags_len(d: &picoref::entry::EntryData) -> usize {
    picoref::tags::get_tags(d).len()
}

#[test]
fn record_from_empty_object_is_empty() {
    let v = parse_json("{}").unwrap();
    let d = record_from_json(v);
    assert!(d.authors.is_empty());
    assert!(d.issued_year.is_none());
    assert!(d.title.is_none());
    assert!(d.doi.is_none());
    assert!(d.extra.is_empty());
    assert_eq!(get_key(&d), "noauthor_xxxx_no-title");
}

#[test]
fn pdf_urls_for_preprint_families_need_no_network() {
    let arxiv = fetch_pdf_url(&Source::Arxiv("1234.5678".to_string()), "me@example.org").unwrap();
    assert_eq!(arxiv.url, "https://arxiv.org/pdf/1234.5678");
    assert!(arxiv.advisory.is_none());
    let biorxiv = fetch_pdf_url(
        &Source::Biorxiv("2020.01.01.100000".to_string()),
        "me@example.org",
    )
    .unwrap();
    assert_eq!(
        biorxiv.url,
        "https://www.biorxiv.org/content/2020.01.01.100000.full.pdf"
    );
    assert!(biorxiv.advisory.is_none());
}
