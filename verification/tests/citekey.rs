use picoref::citekey::get_key;
use picoref::date::get_year;
use picoref::entry::{Author, Entry, EntryData};
use picoref::source::Source;
use picoref::tags::{get_tags, set_tags};

fn empty_record() -> EntryData {
    EntryData::new()
}

fn person(family: &str) -> Author {
    Author {
        family: Some(family.to_string()),
        given: None,
        literal: None,
    }
}

#[test]
fn end_to_end_example() {
    let mut d = empty_record();
    d.authors.push(person("Smith"));
    d.issued_year = Some(2021);
    d.title = Some("A Study of Cats".to_string());
    assert_eq!(get_key(&d), "smith_2021_study-cats");
}

#[test]
fn generator_is_deterministic() {
    let mut d = empty_record();
    d.authors.push(person("Curie"));
    d.issued_year = Some(1903);
    d.title = Some("Recherches sur les substances radioactives".to_string());
    let k1 = get_key(&d);
    let k2 = get_key(&d);
    assert_eq!(k1, k2);
}

#[test]
fn organization_literal_falls_back_to_last_token() {
    let mut d = empty_record();
    d.authors.push(Author {
        family: None,
        given: None,
        literal: Some("World Health Organization".to_string()),
    });
    assert_eq!(get_key(&d), "organization_xxxx_no-title");
}

#[test]
fn missing_issued_year_yields_xxxx() {
    let mut d = empty_record();
    d.authors.push(person("Smith"));
    d.title = Some("A Study of Cats".to_string());
    assert_eq!(get_key(&d), "smith_xxxx_study-cats");
}

#[test]
fn stop_words_are_removed_and_two_words_kept() {
    let mut d = empty_record();
    d.authors.push(person("Fox"));
    d.issued_year = Some(2000);
    d.title = Some("The Quick, Brown Fox Jumps".to_string());
    assert_eq!(get_key(&d), "fox_2000_quick-brown");
}

#[test]
fn accented_author_is_transliterated() {
    let mut d = empty_record();
    d.authors.push(person("Müller"));
    d.issued_year = Some(1999);
    d.title = Some("Über die Dinge".to_string());
    assert_eq!(get_key(&d), "muller_1999_uber-die");
}

#[test]
fn short_title_is_preferred_over_title() {
    let mut d = empty_record();
    d.authors.push(person("Smith"));
    d.issued_year = Some(2021);
    d.title = Some("A Very Long Descriptive Title".to_string());
    d.title_short = Some("Short Name".to_string());
    assert_eq!(get_key(&d), "smith_2021_short-name");
}

#[test]
fn container_token_with_www_prefix() {
    let mut d = empty_record();
    d.issued_year = Some(2024);
    d.title = Some("Some Page".to_string());
    d.container = Some("www.nature.com".to_string());
    assert_eq!(get_key(&d), "nature_2024_page");
}

#[test]
fn container_token_without_prefix_is_capped_at_ten_chars() {
    let mut d = empty_record();
    d.container = Some("supercalifragilistic.org".to_string());
    assert_eq!(get_key(&d), "supercalif_xxxx_no-title");
}

#[test]
fn no_author_at_all_yields_sentinel() {
    let d = empty_record();
    assert_eq!(get_key(&d), "noauthor_xxxx_no-title");
}

#[test]
fn family_name_with_apostrophe_is_hyphenated() {
    let mut d = empty_record();
    d.authors.push(person("O'Brien"));
    d.issued_year = Some(2010);
    d.title = Some("On Nothing".to_string());
    assert_eq!(get_key(&d), "o-brien_2010_nothing");
}

#[test]
fn html_tags_in_title_are_stripped() {
    let mut d = empty_record();
    d.authors.push(person("Smith"));
    d.issued_year = Some(2022);
    d.title = Some("Genes and <i>E. coli</i> Growth".to_string());
    // "<i>" and "</i>" vanish; "E." loses its dot; stop words go
    assert_eq!(get_key(&d), "smith_2022_genes-e");
}

#[test]
fn container_token_with_full_url_prefix() {
    let mut d = empty_record();
    d.container = Some("https://www.example.com/page".to_string());
    assert_eq!(get_key(&d), "example_xxxx_no-title");
}

#[test]
fn title_of_only_stop_words_becomes_empty() {
    let mut d = empty_record();
    d.authors.push(person("Smith"));
    d.issued_year = Some(2021);
    d.title = Some("Of The".to_string());
    assert_eq!(get_key(&d), "smith_2021_");
}

#[test]
fn year_rendering_is_exact() {
    assert_eq!(get_year(None), "xxxx");
    assert_eq!(get_year(Some(2021)), "2021");
    assert_eq!(get_year(Some(0)), "0");
    assert_eq!(get_year(Some(-44)), "-44");
    assert_eq!(get_year(Some(10000)), "10000");
}

#[test]
fn tags_roundtrip() {
    let mut d = empty_record();
    assert!(get_tags(&d).is_empty());
    set_tags(&mut d, vec!["biology".to_string(), "ml".to_string()]);
    assert_eq!(get_tags(&d), vec!["biology".to_string(), "ml".to_string()]);
    set_tags(&mut d, Vec::new());
    assert!(get_tags(&d).is_empty());
}

#[test]
fn entry_from_data_classifies_its_doi() {
    let mut d = empty_record();
    d.doi = Some("10.48550/arXiv.1234.5678".to_string());
    let e = Entry::from_data(d);
    match e.source {
        Some(Source::Arxiv(id)) => assert_eq!(id, "1234.5678"),
        other => panic!("expected Some(Arxiv), got {:?}", other),
    }
    let e2 = Entry::from_data(empty_record());
    assert!(e2.source.is_none());
}
