use picoref::source::{classify, Source};

#[test]
fn arxiv_doi_is_classified() {
    match classify("10.48550/arXiv.1234.5678".to_string()) {
        Source::Arxiv(id) => assert_eq!(id, "1234.5678"),
        other => panic!("expected Arxiv, got {:?}", other),
    }
}

#[test]
fn biorxiv_doi_is_classified() {
    match classify("10.1101/2020.01.01.100000".to_string()) {
        Source::Biorxiv(id) => assert_eq!(id, "2020.01.01.100000"),
        other => panic!("expected Biorxiv, got {:?}", other),
    }
}

#[test]
fn osf_doi_is_classified() {
    match classify("10.31219/osf.io/abcde".to_string()) {
        Source::Osf(id) => assert_eq!(id, "abcde"),
        other => panic!("expected Osf, got {:?}", other),
    }
}

#[test]
fn unknown_doi_falls_through_unchanged() {
    match classify("10.1000/xyz123".to_string()) {
        Source::Other(raw) => assert_eq!(raw, "10.1000/xyz123"),
        other => panic!("expected Other, got {:?}", other),
    }
}

#[test]
fn arxiv_marker_is_found_inside_a_url() {
    match classify("https://doi.org/10.48550/ARXIV.2101.00001".to_string()) {
        Source::Arxiv(id) => assert_eq!(id, "2101.00001"),
        other => panic!("expected Arxiv, got {:?}", other),
    }
}

#[test]
fn arxiv_marker_with_empty_id_is_not_a_match() {
    match classify("10.48550/arxiv.".to_string()) {
        Source::Other(raw) => assert_eq!(raw, "10.48550/arxiv."),
        other => panic!("expected Other, got {:?}", other),
    }
}

#[test]
fn osf_needs_four_to_nine_registrant_digits() {
    assert!(matches!(
        classify("10.312/osf.io/abcde".to_string()),
        Source::Other(_)
    ));
    assert!(matches!(
        classify("10.3121912345/osf.io/abcde".to_string()),
        Source::Other(_)
    ));
    match classify("10.312191234/osf.io/abcde".to_string()) {
        Source::Osf(id) => assert_eq!(id, "abcde"),
        other => panic!("nine registrant digits should match, got {:?}", other),
    }
}

#[test]
fn arxiv_takes_priority_over_biorxiv() {
    match classify("10.48550/arxiv.10.1101/x".to_string()) {
        Source::Arxiv(id) => assert_eq!(id, "10.1101/x"),
        other => panic!("expected Arxiv, got {:?}", other),
    }
}

#[test]
fn empty_input_is_other() {
    match classify(String::new()) {
        Source::Other(raw) => assert_eq!(raw, ""),
        other => panic!("expected Other, got {:?}", other),
    }
}

#[test]
fn biorxiv_marker_is_found_inside_a_url() {
    match classify("https://doi.org/10.1101/2024.05.01.591234".to_string()) {
        Source::Biorxiv(id) => assert_eq!(id, "2024.05.01.591234"),
        other => panic!("expected Biorxiv, got {:?}", other),
    }
}

#[test]
fn case_of_captured_id_is_preserved() {
    match classify("10.31219/OSF.IO/AbCdE".to_string()) {
        Source::Osf(id) => assert_eq!(id, "AbCdE"),
        other => panic!("expected Osf, got {:?}", other),
    }
}
