//! The tag list carried on a record.
use vstd::prelude::*;

use crate::entry::CustomFields;
use crate::entry::EntryData;

verus! {

/// Replaces the record's tag list, leaving every other field unchanged.
pub fn set_tags(entry: &mut EntryData, tags: Vec<String>)
    ensures
        *final(entry) == (EntryData {
            custom: CustomFields { tags: tags, other: old(entry).custom.other },
            ..*old(entry)
        }),
{
    entry.custom.tags = tags;
}

/// The record's tag list, as a fresh vector.
pub fn get_tags(entry: &EntryData) -> (r: Vec<String>)
    ensures
        r@ == entry.custom.tags@,
{
    let n: usize = entry.custom.tags.len();
    let mut r: Vec<String> = Vec::new();
    let mut i: usize = 0;
    while i < n
        invariant
            i <= n,
            n == entry.custom.tags@.len(),
            r@.len() == i,
            forall|j: int| 0 <= j < i ==> r@[j] == entry.custom.tags@[j],
        decreases n - i,
    {
        r.push(entry.custom.tags[i].clone());
        i = i + 1;
    }
    assert(r@ =~= entry.custom.tags@);
    r
}

} // verus!
