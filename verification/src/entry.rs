//! The in-memory model of a bibliographic record and its library entry.
use vstd::prelude::*;

use crate::json::JsonValue;
use crate::source::classified_as;
use crate::source::classify;
use crate::source::Source;

verus! {

/// One creator of a work: a personal name split into family and given
/// parts, or an organization's literal name.
#[derive(Debug, Clone)]
pub struct Author {
    pub family: Option<String>,
    pub given: Option<String>,
    pub literal: Option<String>,
}

/// Fields managed by this tool rather than fetched: the tag list, plus any
/// unknown custom fields carried through unchanged (name, raw value).
#[derive(Debug, Clone)]
pub struct CustomFields {
    pub tags: Vec<String>,
    pub other: Vec<(String, String)>,
}

/// A bibliographic record: the fields the tool reads, broken out as plain
/// values, plus every remaining field passed through untouched, in order,
/// as (name, value) pairs.
#[derive(Debug)]
pub struct EntryData {
    pub custom: CustomFields,
    pub authors: Vec<Author>,
    pub issued_year: Option<i64>,
    pub title: Option<String>,
    pub title_short: Option<String>,
    pub container: Option<String>,
    pub doi: Option<String>,
    pub id: Option<String>,
    pub citation_key: Option<String>,
    pub legacy_id: Option<String>,
    pub legacy_citation_key: Option<String>,
    pub extra: Vec<(String, JsonValue)>,
}

impl EntryData {
    /// An empty record: no authors, no dates, no titles, no tags.
    pub fn new() -> (r: EntryData)
        ensures
            r.custom.tags@.len() == 0,
            r.custom.other@.len() == 0,
            r.authors@.len() == 0,
            r.issued_year is None,
            r.title is None,
            r.title_short is None,
            r.container is None,
            r.doi is None,
            r.id is None,
            r.citation_key is None,
            r.legacy_id is None,
            r.legacy_citation_key is None,
            r.extra@.len() == 0,
    {
        EntryData {
            custom: CustomFields { tags: Vec::new(), other: Vec::new() },
            authors: Vec::new(),
            issued_year: None,
            title: None,
            title_short: None,
            container: None,
            doi: None,
            id: None,
            citation_key: None,
            legacy_id: None,
            legacy_citation_key: None,
            extra: Vec::new(),
        }
    }
}

/// A record bundled with the classified source of its DOI, so that a later
/// PDF lookup knows whether the work started out as a preprint.
#[derive(Debug)]
pub struct Entry {
    pub source: Option<Source>,
    pub data: EntryData,
}

impl Entry {
    /// Bundles a record with the source classified from its DOI field; a
    /// record with no DOI gets no source.
    pub fn from_data(data: EntryData) -> (r: Entry)
        ensures
            r.data == data,
            match data.doi {
                Option::Some(d) => r.source matches Some(s) && classified_as(d@, s),
                Option::None => r.source is None,
            },
    {
        let source = match &data.doi {
            Option::Some(d) => Some(classify(d.clone())),
            Option::None => None,
        };
        Entry { source, data }
    }
}

} // verus!
