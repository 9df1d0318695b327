use picoref::config::Config;
use picoref::fetch::{arxiv, biorxiv, osf, FetchError};
use picoref::ops::{all_keys, data_path, entry_root_path, key_from_path, pdf_path, update_metadata};
use picoref::entry::EntryData;
use picoref::json::parse_json;

#[test]
fn arxiv_pdf_url_is_deterministic() {
    assert_eq!(arxiv::pdf_url("1234.5678"), "https://arxiv.org/pdf/1234.5678");
}

#[test]
fn biorxiv_pdf_url_is_deterministic() {
    assert_eq!(
        biorxiv::pdf_url("2020.01.01.100000"),
        "https://www.biorxiv.org/content/2020.01.01.100000.full.pdf"
    );
}

#[test]
fn arxiv_query_url_is_exact() {
    assert_eq!(
        arxiv::query_url("1234.5678"),
        "http://export.arxiv.org/api/query?id_list=1234.5678"
    );
}

#[test]
fn biorxiv_is_tried_before_medrxiv() {
    let urls = biorxiv::pubs_urls("2020.01.01.100000");
    assert_eq!(urls.len(), 2);
    assert_eq!(urls[0], "https://api.biorxiv.org/pubs/biorxiv/2020.01.01.100000");
    assert_eq!(urls[1], "https://api.biorxiv.org/pubs/medrxiv/2020.01.01.100000");
}

#[test]
fn biorxiv_published_doi_is_read_from_first_collection_item() {
    let body = "{\"collection\": [{\"published_doi\": \"10.1000/pub\", \"preprint_doi\": \"10.1101/x\"}]}";
    let v = parse_json(body).unwrap();
    assert_eq!(
        biorxiv::extract_published_doi(&v).as_deref(),
        Some("10.1000/pub")
    );
}

#[test]
fn biorxiv_empty_collection_yields_nothing() {
    let v = parse_json("{\"collection\": []}").unwrap();
    assert!(biorxiv::extract_published_doi(&v).is_none());
    let v2 = parse_json("{\"messages\": []}").unwrap();
    assert!(biorxiv::extract_published_doi(&v2).is_none());
}

#[test]
fn osf_published_doi_is_read_from_attributes() {
    let body = "{\"data\": {\"attributes\": {\"doi\": \"10.1000/pub\"}}}";
    let v = parse_json(body).unwrap();
    assert_eq!(osf::extract_published_doi(&v).as_deref(), Some("10.1000/pub"));
    let v2 = parse_json("{\"data\": {\"attributes\": {\"doi\": null}}}").unwrap();
    assert!(osf::extract_published_doi(&v2).is_none());
}

#[test]
fn osf_download_link_is_read_from_first_file() {
    let body = "{\"data\": [{\"links\": {\"download\": \"https://osf.example/d\"}}]}";
    let v = parse_json(body).unwrap();
    assert_eq!(
        osf::extract_download_link(&v).as_deref(),
        Some("https://osf.example/d")
    );
    let v2 = parse_json("{\"data\": []}").unwrap();
    assert!(osf::extract_download_link(&v2).is_none());
}

#[test]
fn osf_urls_are_exact() {
    assert_eq!(
        osf::preprint_url("abcde"),
        "https://api.osf.io/v2/preprints/abcde"
    );
    assert_eq!(
        osf::files_url("abcde"),
        "https://api.osf.io/v2/preprints/abcde/files/osfstorage/"
    );
}

#[test]
fn arxiv_doi_element_is_extracted_and_trimmed() {
    let body = "<feed><entry><arxiv:doi xmlns:arxiv=\"http://arxiv.org/schemas/atom\"> 10.1000/published </arxiv:doi></entry></feed>";
    assert_eq!(
        arxiv::extract_published_doi(body).as_deref(),
        Some("10.1000/published")
    );
}

#[test]
fn arxiv_response_without_doi_element_yields_nothing() {
    let body = "<feed><entry><title>Some paper</title></entry></feed>";
    assert!(arxiv::extract_published_doi(body).is_none());
}

#[test]
fn arxiv_extraction_is_case_insensitive() {
    let body = "<ArXiv:DOI> 10.5/x</ARXIV:DOI>";
    assert_eq!(arxiv::extract_published_doi(body).as_deref(), Some("10.5/x"));
}

#[test]
fn fetch_error_description() {
    assert_eq!(
        FetchError::Transport("boom".to_string()).describe(),
        "transport error: boom"
    );
    assert_eq!(FetchError::MalformedResponse.describe(), "malformed response");
    assert_eq!(FetchError::NotFound.describe(), "not found");
}

#[test]
fn entry_paths_are_derived_from_root_and_key() {
    assert_eq!(entry_root_path("/lib", "smith_2021_cats"), "/lib/smith_2021_cats");
    assert_eq!(
        data_path("/lib", "smith_2021_cats"),
        "/lib/smith_2021_cats/smith_2021_cats.toml"
    );
    assert_eq!(
        pdf_path("/lib", "smith_2021_cats"),
        "/lib/smith_2021_cats/smith_2021_cats.pdf"
    );
}

#[test]
fn key_is_last_path_component() {
    assert_eq!(key_from_path("/lib/smith_2021_cats"), "smith_2021_cats");
    assert_eq!(key_from_path("smith_2021_cats"), "smith_2021_cats");
    let keys = all_keys(&vec![
        "/lib/a_2020_x".to_string(),
        "/lib/b_2021_y".to_string(),
    ]);
    assert_eq!(keys, vec!["a_2020_x".to_string(), "b_2021_y".to_string()]);
}

#[test]
fn update_metadata_saves_previous_values_as_legacy() {
    let mut d = EntryData::new();
    update_metadata(&mut d, "new_key");
    assert_eq!(d.id.as_deref(), Some("new_key"));
    assert_eq!(d.citation_key.as_deref(), Some("new_key"));
    assert!(d.legacy_id.is_none());
    assert!(d.legacy_citation_key.is_none());

    update_metadata(&mut d, "newer_key");
    assert_eq!(d.id.as_deref(), Some("newer_key"));
    assert_eq!(d.citation_key.as_deref(), Some("newer_key"));
    assert_eq!(d.legacy_id.as_deref(), Some("new_key"));
    assert_eq!(d.legacy_citation_key.as_deref(), Some("new_key"));
}

#[test]
fn config_carries_root_and_email() {
    let c = Config::new("/lib".to_string(), "me@example.org".to_string());
    assert_eq!(c.root, "/lib");
    assert_eq!(c.email, "me@example.org");
}
