use picoref::fetch::unpaywall::{
    location_from_json, locations_from_json, parse_version, select_pdf, Advisory, OaLocation,
    Version,
};
use picoref::fetch::FetchError;
use picoref::json::parse_json;

fn loc(version: Version, pdf: Option<&str>, landing: &str) -> OaLocation {
    OaLocation {
        url_for_pdf: pdf.map(|s| s.to_string()),
        url_for_landing_page: landing.to_string(),
        version,
    }
}

#[test]
fn published_version_wins_without_advisory() {
    let locations = vec![
        loc(Version::Submitted, Some("url1"), "l1"),
        loc(Version::Published, Some("url2"), "l2"),
        loc(Version::Accepted, Some("url3"), "l3"),
    ];
    let r = select_pdf(&locations, &None);
    assert_eq!(r.url.as_deref(), Some("url2"));
    assert!(r.advisory.is_none());
}

#[test]
fn accepted_is_next_best_and_comes_with_advisory() {
    let locations = vec![
        loc(Version::Submitted, Some("url1"), "l1"),
        loc(Version::Accepted, Some("url3"), "l3"),
    ];
    let r = select_pdf(&locations, &None);
    assert_eq!(r.url.as_deref(), Some("url3"));
    let advisory = r.advisory.expect("a non-published choice carries an advisory");
    assert!(advisory.published_landing.is_none());
}

#[test]
fn advisory_names_published_landing_page_when_known() {
    let locations = vec![loc(Version::Submitted, Some("url1"), "l1")];
    let best = Some(loc(Version::Published, None, "https://publisher.example/landing"));
    let r = select_pdf(&locations, &best);
    assert_eq!(r.url.as_deref(), Some("url1"));
    let advisory = r.advisory.expect("advisory expected");
    assert_eq!(
        advisory.published_landing.as_deref(),
        Some("https://publisher.example/landing")
    );
}

#[test]
fn non_published_best_location_gives_no_landing_page() {
    let locations = vec![loc(Version::Submitted, Some("url1"), "l1")];
    let best = Some(loc(Version::Accepted, None, "l"));
    let r = select_pdf(&locations, &best);
    let advisory = r.advisory.expect("advisory expected");
    assert!(advisory.published_landing.is_none());
}

#[test]
fn locations_without_pdf_links_are_ineligible() {
    let locations = vec![
        loc(Version::Published, None, "l1"),
        loc(Version::Submitted, Some("url1"), "l2"),
    ];
    let r = select_pdf(&locations, &None);
    assert_eq!(r.url.as_deref(), Some("url1"));
    assert!(r.advisory.is_some());
}

#[test]
fn no_eligible_location_yields_nothing() {
    let r = select_pdf(&Vec::new(), &None);
    assert!(r.url.is_none());
    assert!(r.advisory.is_none());
    let locations = vec![loc(Version::Published, None, "l1")];
    let r2 = select_pdf(&locations, &None);
    assert!(r2.url.is_none());
    assert!(r2.advisory.is_none());
}

#[test]
fn first_of_equally_ranked_candidates_is_kept() {
    let locations = vec![
        loc(Version::Accepted, Some("first"), "l1"),
        loc(Version::Accepted, Some("second"), "l2"),
    ];
    let r = select_pdf(&locations, &None);
    assert_eq!(r.url.as_deref(), Some("first"));
}

#[test]
fn version_tags_parse_exactly() {
    assert_eq!(parse_version("submittedVersion"), Ok(Version::Submitted));
    assert_eq!(parse_version("acceptedVersion"), Ok(Version::Accepted));
    assert_eq!(parse_version("publishedVersion"), Ok(Version::Published));
    assert_eq!(
        parse_version("draftVersion"),
        Err(FetchError::MalformedResponse)
    );
}

#[test]
fn location_parses_from_json() {
    let v = parse_json(
        "{\"url_for_pdf\": \"https://x/p.pdf\", \"url_for_landing_page\": \"https://x\", \"version\": \"acceptedVersion\", \"updated\": \"2020\"}",
    )
    .unwrap();
    let l = location_from_json(&v).unwrap();
    assert_eq!(l.url_for_pdf.as_deref(), Some("https://x/p.pdf"));
    assert_eq!(l.url_for_landing_page, "https://x");
    assert_eq!(l.version, Version::Accepted);
}

#[test]
fn null_pdf_link_counts_as_absent() {
    let v = parse_json(
        "{\"url_for_pdf\": null, \"url_for_landing_page\": \"https://x\", \"version\": \"publishedVersion\"}",
    )
    .unwrap();
    let l = location_from_json(&v).unwrap();
    assert!(l.url_for_pdf.is_none());
}

#[test]
fn unknown_version_is_malformed() {
    let v = parse_json("{\"url_for_landing_page\": \"https://x\", \"version\": \"weird\"}")
        .unwrap();
    assert!(matches!(
        location_from_json(&v),
        Err(FetchError::MalformedResponse)
    ));
}

#[test]
fn whole_response_parses_with_best_location() {
    let body = "{\"is_oa\": true, \"doi_url\": \"https://doi.org/10.1/x\", \"updated\": \"2020\", \"best_oa_location\": {\"url_for_pdf\": null, \"url_for_landing_page\": \"https://pub\", \"version\": \"publishedVersion\"}, \"oa_locations\": [{\"url_for_pdf\": \"https://a.pdf\", \"url_for_landing_page\": \"https://a\", \"version\": \"submittedVersion\"}]}";
    let v = parse_json(body).unwrap();
    let (ls, best) = locations_from_json(&v).unwrap();
    assert_eq!(ls.len(), 1);
    assert_eq!(ls[0].version, Version::Submitted);
    let b = best.unwrap();
    assert_eq!(b.version, Version::Published);
    let choice = select_pdf(&ls, &Some(b));
    assert_eq!(choice.url.as_deref(), Some("https://a.pdf"));
    assert_eq!(
        choice.advisory.unwrap().published_landing.as_deref(),
        Some("https://pub")
    );
}

#[test]
fn missing_locations_array_is_malformed() {
    let v = parse_json("{\"is_oa\": false}").unwrap();
    assert!(matches!(
        locations_from_json(&v),
        Err(FetchError::MalformedResponse)
    ));
}

#[test]
fn advisory_struct_is_plain_data() {
    let a = Advisory {
        published_landing: Some("x".to_string()),
    };
    assert_eq!(a.published_landing.as_deref(), Some("x"));
}
