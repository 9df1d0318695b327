//! Path derivation and metadata bookkeeping for library entries. One
//! directory per citekey holds one metadata file and at most one PDF; the
//! directory I/O itself is the surrounding program's business.
use vstd::prelude::*;
use vstd::string::StrSliceExecFns;
use vstd::string::StringExecFns;

use crate::entry::EntryData;
use crate::text::str_to_chars;

verus! {

/// The index right after the last '/' of `p`, or 0 when `p` has none.
pub open spec fn after_last_slash(p: Seq<char>) -> int
    decreases p.len(),
{
    if p.len() == 0 {
        0
    } else if p[p.len() - 1] == '/' {
        p.len() as int
    } else {
        after_last_slash(p.drop_last())
    }
}

proof fn lemma_after_last_slash(p: Seq<char>, i: int)
    requires
        0 <= i <= p.len(),
        forall|j: int| i <= j < p.len() ==> p[j] != '/',
        i > 0 ==> p[i - 1] == '/',
    ensures
        after_last_slash(p) == i,
    decreases p.len(),
{
    if p.len() == 0 {
    } else if p[p.len() - 1] == '/' {
        assert(i == p.len());
    } else {
        assert(i < p.len());
        lemma_after_last_slash(p.drop_last(), i);
    }
}

/// The directory of the entry with citekey `key`: "{root}/{key}".
pub fn entry_root_path(root: &str, key: &str) -> (r: String)
    ensures
        r@ == root@ + seq!['/'] + key@,
{
    let mut r = String::from_str(root);
    r.append("/");
    r.append(key);
    proof {
        reveal_strlit("/");
        assert(r@ =~= root@ + seq!['/'] + key@);
    }
    r
}

/// The metadata file of the entry with citekey `key`:
/// "{root}/{key}/{key}.toml".
pub fn data_path(root: &str, key: &str) -> (r: String)
    ensures
        r@ == root@ + seq!['/'] + key@ + seq!['/'] + key@ + ".toml"@,
{
    let mut r = entry_root_path(root, key);
    r.append("/");
    r.append(key);
    r.append(".toml");
    proof {
        reveal_strlit("/");
        assert(r@ =~= root@ + seq!['/'] + key@ + seq!['/'] + key@ + ".toml"@);
    }
    r
}

/// The PDF file of the entry with citekey `key`: "{root}/{key}/{key}.pdf".
pub fn pdf_path(root: &str, key: &str) -> (r: String)
    ensures
        r@ == root@ + seq!['/'] + key@ + seq!['/'] + key@ + ".pdf"@,
{
    let mut r = entry_root_path(root, key);
    r.append("/");
    r.append(key);
    r.append(".pdf");
    proof {
        reveal_strlit("/");
        assert(r@ =~= root@ + seq!['/'] + key@ + seq!['/'] + key@ + ".pdf"@);
    }
    r
}

/// The citekey named by an entry path: everything after the last '/'.
pub fn key_from_path(path: &str) -> (r: String)
    ensures
        r@ == path@.subrange(after_last_slash(path@), path@.len() as int),
{
    let chars = str_to_chars(path);
    let n: usize = chars.len();
    let mut i: usize = n;
    loop
        invariant
            i <= n,
            n == path@.len(),
            chars@ == path@,
            forall|j: int| i <= j < n ==> path@[j] != '/',
        ensures
            i <= n,
            forall|j: int| i <= j < n ==> path@[j] != '/',
            i > 0 ==> path@[i - 1] == '/',
        decreases i,
    {
        if i == 0 {
            break;
        }
        if chars[i - 1] == '/' {
            break;
        }
        i = i - 1;
    }
    proof {
        lemma_after_last_slash(path@, i as int);
    }
    String::from_str(path.substring_char(i, n))
}

/// The citekeys named by a list of entry paths, in order.
pub fn all_keys(paths: &Vec<String>) -> (r: Vec<String>)
    ensures
        r@.len() == paths@.len(),
        forall|k: int|
            0 <= k < paths@.len() ==> r@[k]@ == paths@[k]@.subrange(
                after_last_slash(paths@[k]@),
                paths@[k]@.len() as int,
            ),
{
    let n: usize = paths.len();
    let mut r: Vec<String> = Vec::new();
    let mut i: usize = 0;
    while i < n
        invariant
            i <= n,
            n == paths@.len(),
            r@.len() == i,
            forall|k: int|
                0 <= k < i ==> r@[k]@ == paths@[k]@.subrange(
                    after_last_slash(paths@[k]@),
                    paths@[k]@.len() as int,
                ),
        decreases n - i,
    {
        r.push(key_from_path(paths[i].as_str()));
        i = i + 1;
    }
    r
}

/// Writes the citekey into the record's id and citation-key fields, saving
/// any previous values under the legacy fields first; nothing else changes.
pub fn update_metadata(data: &mut EntryData, key: &str)
    ensures
        final(data).id matches Some(k) && k@ == key@,
        final(data).citation_key matches Some(k) && k@ == key@,
        old(data).id is Some ==> final(data).legacy_id == old(data).id,
        old(data).id is None ==> final(data).legacy_id == old(data).legacy_id,
        old(data).citation_key is Some ==> final(data).legacy_citation_key == old(
            data,
        ).citation_key,
        old(data).citation_key is None ==> final(data).legacy_citation_key == old(
            data,
        ).legacy_citation_key,
        final(data).custom == old(data).custom,
        final(data).authors == old(data).authors,
        final(data).issued_year == old(data).issued_year,
        final(data).title == old(data).title,
        final(data).title_short == old(data).title_short,
        final(data).container == old(data).container,
        final(data).doi == old(data).doi,
        final(data).extra == old(data).extra,
{
    match &data.id {
        Option::Some(old_id) => {
            let saved = old_id.clone();
            data.legacy_id = Some(saved);
        },
        Option::None => {},
    }
    data.id = Some(String::from_str(key));
    match &data.citation_key {
        Option::Some(old_key) => {
            let saved = old_key.clone();
            data.legacy_citation_key = Some(saved);
        },
        Option::None => {},
    }
    data.citation_key = Some(String::from_str(key));
}

} // verus!
