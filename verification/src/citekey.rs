//! Derivation of a deterministic, filesystem-safe citekey from a record.
//!
//! A citekey is "{author}_{year}_{short-title}": the author component comes
//! from the first author's family name, falling back to the last token of an
//! organization's literal name, then to a short token of the record's
//! source/container string, then to the sentinel "noauthor"; the year
//! component is the issued year or "xxxx"; the short-title component keeps
//! the first two stop-word-free words of the short title (or title), or
//! "no-title".
use vstd::prelude::*;
use vstd::string::StrSliceExecFns;

use crate::date::get_year;
use crate::date::year_str;
use crate::entry::EntryData;
use crate::text::chars_to_string;
use crate::text::collapse_ws;
use crate::text::collapse_ws_chars;
use crate::text::find_nonalnum;
use crate::text::find_nonalnum_from;
use crate::text::join_char;
use crate::text::join_with;
use crate::text::lower_char;
use crate::text::lower_chars;
use crate::text::lower_seq;
use crate::text::scrub;
use crate::text::scrub_chars;
use crate::text::split_char;
use crate::text::split_char_chars;
use crate::text::split_ws;
use crate::text::split_ws_chars;
use crate::text::str_to_chars;
use crate::text::subvec;
use crate::text::views_of;

verus! {

/// What the transliteration of a string is; fixed by the characters alone.
pub uninterp spec fn translit_of(s: Seq<char>) -> Seq<char>;

/// Relies on deunicode's `deunicode_with_tofu` with an empty placeholder:
/// a best-effort ASCII transliteration that depends on the characters
/// alone. A string whose characters all lie below 0x7F comes back
/// unchanged (the borrowed fast path); control characters and DEL may be
/// dropped elsewhere, and unconvertible characters are replaced by the
/// empty placeholder.
#[verifier::external_body]
fn transliterate(s: &str) -> (r: String)
    ensures
        r@ == translit_of(s@),
        (forall|i: int| 0 <= i < s@.len() ==> (s@[i] as u32) < 127) ==> r@ == s@,
{
    deunicode::deunicode_with_tofu(s, "")
}

/// The fixed stop-word list removed from title words.
pub open spec fn stopwords() -> Seq<Seq<char>> {
    seq![
        seq!['o', 'f'],
        seq!['t', 'h', 'e'],
        seq!['a', 'n', 'd'],
        seq!['i', 'n'],
        seq!['f', 'o', 'r'],
        seq!['a'],
        seq!['o', 'n'],
        seq!['w', 'i', 't', 'h'],
        seq!['t', 'o'],
        seq!['f', 'r', 'o', 'm'],
        seq!['a', 'n'],
        seq!['a', 't'],
        seq!['b', 'y'],
        seq!['a', 's'],
        seq!['i', 't', 's'],
        seq!['i', 's'],
        seq!['v', 'i', 'a'],
        seq!['u', 's', 'i', 'n', 'g'],
        seq!['t', 'h', 'r', 'o', 'u', 'g', 'h'],
        seq!['t', 'h', 'e', 'i', 'r'],
        seq!['s', 'o', 'm', 'e'],
        seq!['a', 'r', 'e'],
    ]
}

pub open spec fn is_stopword(w: Seq<char>) -> bool {
    stopwords().contains(w)
}

/// The words of `ws` that are not stop-words, in order.
pub open spec fn remove_stopwords(ws: Seq<Seq<char>>) -> Seq<Seq<char>>
    decreases ws.len(),
{
    if ws.len() == 0 {
        Seq::empty()
    } else if is_stopword(ws[0]) {
        remove_stopwords(ws.drop_first())
    } else {
        seq![ws[0]] + remove_stopwords(ws.drop_first())
    }
}

/// "https://www", written lowercase.
pub open spec fn https_www() -> Seq<char> {
    seq!['h', 't', 't', 'p', 's', ':', '/', '/', 'w', 'w', 'w']
}

/// "http://www", written lowercase.
pub open spec fn http_www() -> Seq<char> {
    seq!['h', 't', 't', 'p', ':', '/', '/', 'w', 'w', 'w']
}

/// "www".
pub open spec fn www_pat() -> Seq<char> {
    seq!['w', 'w', 'w']
}

/// `pat` (written lowercase) is a case-insensitive prefix of `s`.
pub open spec fn ci_prefix(s: Seq<char>, pat: Seq<char>) -> bool {
    pat.len() <= s.len() && forall|j: int| 0 <= j < pat.len() ==> lower_char(s[j]) == pat[j]
}

/// The length of the optional leading "(http(s)://)?www" prefix followed by
/// a dot or hyphen, or 0 when the string does not start that way.
pub open spec fn url_prefix_len(s: Seq<char>) -> int {
    if ci_prefix(s, https_www()) && 11 < s.len() && (s[11] == '.' || s[11] == '-') {
        12
    } else if ci_prefix(s, http_www()) && 10 < s.len() && (s[10] == '.' || s[10] == '-') {
        11
    } else if ci_prefix(s, www_pat()) && 3 < s.len() && (s[3] == '.' || s[3] == '-') {
        4
    } else {
        0
    }
}

/// The short alphanumeric token of a source/container string: after the
/// optional URL prefix, the leading run of ASCII letters and digits, capped
/// at ten characters; empty when none starts there.
pub open spec fn container_token(s: Seq<char>) -> Seq<char> {
    let p = url_prefix_len(s);
    let e0 = find_nonalnum_from(s, p);
    let e = if e0 > p + 10 {
        p + 10
    } else {
        e0
    };
    s.subrange(p, e)
}

/// The author pipeline over a chosen raw text: transliterate, lowercase,
/// scrub (bad characters become spaces), then hyphen-join the remaining
/// whitespace-separated tokens.
pub open spec fn author_from_raw(raw: Seq<char>) -> Seq<char> {
    join_char(split_ws(scrub(lower_seq(translit_of(raw)), seq![' '])), '-')
}

/// The raw token the author component is derived from, if the record's
/// container string yields one.
pub open spec fn container_raw(d: EntryData) -> Option<Seq<char>> {
    match d.container {
        Option::Some(c) => if container_token(c@).len() > 0 {
            Option::Some(container_token(c@))
        } else {
            Option::None
        },
        Option::None => Option::None,
    }
}

/// The raw text the author component is derived from: the first author's
/// family name; else the last whitespace-separated token of the first
/// author's literal name; else a short token of the container string.
pub open spec fn author_raw(d: EntryData) -> Option<Seq<char>> {
    if d.authors@.len() > 0 {
        match d.authors@[0].family {
            Option::Some(f) => Option::Some(f@),
            Option::None => match d.authors@[0].literal {
                Option::Some(l) => if split_ws(l@).len() > 0 {
                    Option::Some(split_ws(l@).last())
                } else {
                    container_raw(d)
                },
                Option::None => container_raw(d),
            },
        }
    } else {
        container_raw(d)
    }
}

/// The author component: the pipeline over the chosen raw text, or the
/// sentinel "noauthor" when no text is resolvable.
pub open spec fn author_component(d: EntryData) -> Seq<char> {
    match author_raw(d) {
        Option::Some(raw) => author_from_raw(raw),
        Option::None => seq!['n', 'o', 'a', 'u', 't', 'h', 'o', 'r'],
    }
}

/// The title pipeline: collapse whitespace, transliterate, scrub (bad
/// characters dropped), lowercase, remove stop-words, hyphen-join, and keep
/// only the first two hyphen-separated words.
pub open spec fn title_pipeline(t: Seq<char>) -> Seq<char> {
    let a = translit_of(collapse_ws(t));
    let words = remove_stopwords(split_ws(lower_seq(scrub(a, Seq::empty()))));
    let joined = join_char(words, '-');
    let frags = split_char(joined, '-');
    let kept = if frags.len() <= 2 {
        frags
    } else {
        frags.take(2)
    };
    join_char(kept, '-')
}

/// The short-title component: the pipeline over the short title, else over
/// the title, else the sentinel "no-title".
pub open spec fn title_component(d: EntryData) -> Seq<char> {
    match d.title_short {
        Option::Some(t) => title_pipeline(t@),
        Option::None => match d.title {
            Option::Some(t) => title_pipeline(t@),
            Option::None => seq!['n', 'o', '-', 't', 'i', 't', 'l', 'e'],
        },
    }
}

/// The whole citekey: author, year and short-title joined by underscores.
pub open spec fn citekey_spec(d: EntryData) -> Seq<char> {
    author_component(d) + seq!['_'] + year_str(d.issued_year) + seq!['_'] + title_component(d)
}

/// The citekey is a function of the record alone: deriving it twice from
/// one fixed record yields identical keys.
pub proof fn lemma_citekey_deterministic(d: EntryData, k1: Seq<char>, k2: Seq<char>)
    requires
        k1 == citekey_spec(d),
        k2 == citekey_spec(d),
    ensures
        k1 == k2,
{
}

proof fn lemma_remove_stopwords_safe(ws: Seq<Seq<char>>)
    requires
        forall|k: int| 0 <= k < ws.len() ==> crate::text::safe_seq(#[trigger] ws[k]),
    ensures
        forall|k: int|
            0 <= k < remove_stopwords(ws).len() ==> crate::text::safe_seq(
                #[trigger] remove_stopwords(ws)[k],
            ),
    decreases ws.len(),
{
    if ws.len() == 0 {
    } else {
        assert forall|k: int| 0 <= k < ws.drop_first().len() implies crate::text::safe_seq(
            #[trigger] ws.drop_first()[k],
        ) by {
            assert(ws.drop_first()[k] == ws[k + 1]);
        }
        lemma_remove_stopwords_safe(ws.drop_first());
        if !is_stopword(ws[0]) {
            assert(remove_stopwords(ws) == seq![ws[0]] + remove_stopwords(ws.drop_first()));
            assert forall|k: int| 0 <= k < remove_stopwords(ws).len() implies crate::text::safe_seq(
                #[trigger] remove_stopwords(ws)[k],
            ) by {
                if k == 0 {
                    assert(remove_stopwords(ws)[0] == ws[0]);
                } else {
                    assert(remove_stopwords(ws)[k] == remove_stopwords(ws.drop_first())[k - 1]);
                }
            }
        }
    }
}

proof fn lemma_author_component_safe(d: EntryData)
    ensures
        crate::text::safe_seq(author_component(d)),
{
    match author_raw(d) {
        Option::Some(raw) => {
            let scrubbed = crate::text::scrub(lower_seq(translit_of(raw)), seq![' ']);
            assert(crate::text::wds_seq(seq![' ']));
            crate::text::lemma_scrub_wds(lower_seq(translit_of(raw)), 0, seq![' ']);
            crate::text::lemma_split_ws_safe(scrubbed, 0);
            crate::text::lemma_join_safe(split_ws(scrubbed), '-');
        },
        Option::None => {
            assert(crate::text::safe_seq(seq!['n', 'o', 'a', 'u', 't', 'h', 'o', 'r']));
        },
    }
}

proof fn lemma_title_pipeline_safe(t: Seq<char>)
    ensures
        crate::text::safe_seq(title_pipeline(t)),
{
    let a = translit_of(collapse_ws(t));
    let scrubbed = crate::text::scrub(a, Seq::empty());
    assert(crate::text::wds_seq(Seq::<char>::empty()));
    crate::text::lemma_scrub_wds(a, 0, Seq::empty());
    crate::text::lemma_lower_wds(scrubbed);
    crate::text::lemma_split_ws_safe(lower_seq(scrubbed), 0);
    let words = remove_stopwords(split_ws(lower_seq(scrubbed)));
    lemma_remove_stopwords_safe(split_ws(lower_seq(scrubbed)));
    crate::text::lemma_join_safe(words, '-');
    let joined = join_char(words, '-');
    crate::text::lemma_split_char_safe(joined, 0, '-');
    let frags = split_char(joined, '-');
    let kept = if frags.len() <= 2 {
        frags
    } else {
        frags.take(2)
    };
    assert forall|k: int| 0 <= k < kept.len() implies crate::text::safe_seq(
        #[trigger] kept[k],
    ) by {
        assert(kept[k] == frags[k]);
    }
    crate::text::lemma_join_safe(kept, '-');
}

proof fn lemma_title_component_safe(d: EntryData)
    ensures
        crate::text::safe_seq(title_component(d)),
{
    match d.title_short {
        Option::Some(t) => {
            lemma_title_pipeline_safe(t@);
        },
        Option::None => match d.title {
            Option::Some(t) => {
                lemma_title_pipeline_safe(t@);
            },
            Option::None => {
                assert(crate::text::safe_seq(seq!['n', 'o', '-', 't', 'i', 't', 'l', 'e']));
            },
        },
    }
}

/// A citekey is safe as a file or directory name: every character is an
/// ASCII letter, digit, underscore or hyphen, so it holds no path
/// separator and no control character.
pub proof fn lemma_citekey_filesystem_safe(d: EntryData)
    ensures
        crate::text::safe_seq(citekey_spec(d)),
{
    lemma_author_component_safe(d);
    crate::date::lemma_year_str_safe(d.issued_year);
    lemma_title_component_safe(d);
    assert(crate::text::safe_seq(seq!['_']));
    crate::text::lemma_concat_safe(author_component(d), seq!['_']);
    crate::text::lemma_concat_safe(author_component(d) + seq!['_'], year_str(d.issued_year));
    crate::text::lemma_concat_safe(
        author_component(d) + seq!['_'] + year_str(d.issued_year),
        seq!['_'],
    );
    crate::text::lemma_concat_safe(
        author_component(d) + seq!['_'] + year_str(d.issued_year) + seq!['_'],
        title_component(d),
    );
}

fn chars_eq(a: &Vec<char>, b: &Vec<char>) -> (r: bool)
    ensures
        r == (a@ == b@),
{
    if a.len() != b.len() {
        proof {
            if a@ == b@ {
                assert(a@.len() == b@.len());
            }
        }
        return false;
    }
    let mut j: usize = 0;
    while j < a.len()
        invariant
            j <= a@.len(),
            a@.len() == b@.len(),
            forall|k: int| 0 <= k < j ==> a@[k] == b@[k],
        decreases a@.len() - j,
    {
        if a[j] != b[j] {
            proof {
                if a@ == b@ {
                    assert(a@[j as int] == b@[j as int]);
                }
            }
            return false;
        }
        j = j + 1;
    }
    proof {
        assert(a@ =~= b@);
    }
    true
}

fn stopword_list() -> (r: Vec<Vec<char>>)
    ensures
        views_of(r@) == stopwords(),
{
    let mut r: Vec<Vec<char>> = Vec::new();
    r.push(vec!['o', 'f']);
    r.push(vec!['t', 'h', 'e']);
    r.push(vec!['a', 'n', 'd']);
    r.push(vec!['i', 'n']);
    r.push(vec!['f', 'o', 'r']);
    r.push(vec!['a']);
    r.push(vec!['o', 'n']);
    r.push(vec!['w', 'i', 't', 'h']);
    r.push(vec!['t', 'o']);
    r.push(vec!['f', 'r', 'o', 'm']);
    r.push(vec!['a', 'n']);
    r.push(vec!['a', 't']);
    r.push(vec!['b', 'y']);
    r.push(vec!['a', 's']);
    r.push(vec!['i', 't', 's']);
    r.push(vec!['i', 's']);
    r.push(vec!['v', 'i', 'a']);
    r.push(vec!['u', 's', 'i', 'n', 'g']);
    r.push(vec!['t', 'h', 'r', 'o', 'u', 'g', 'h']);
    r.push(vec!['t', 'h', 'e', 'i', 'r']);
    r.push(vec!['s', 'o', 'm', 'e']);
    r.push(vec!['a', 'r', 'e']);
    proof {
        assert(views_of(r@) =~~= stopwords());
    }
    r
}

fn is_stop(w: &Vec<char>) -> (r: bool)
    ensures
        r == is_stopword(w@),
{
    let list = stopword_list();
    let n: usize = list.len();
    let mut k: usize = 0;
    while k < n
        invariant
            k <= n,
            n == stopwords().len(),
            views_of(list@) == stopwords(),
            forall|j: int| 0 <= j < k ==> stopwords()[j] != w@,
        decreases n - k,
    {
        if chars_eq(w, &list[k]) {
            proof {
                assert(views_of(list@)[k as int] == list@[k as int]@);
                assert(stopwords()[k as int] == w@);
            }
            return true;
        }
        proof {
            assert(views_of(list@)[k as int] == list@[k as int]@);
        }
        k = k + 1;
    }
    proof {
        if stopwords().contains(w@) {
            let j = choose|j: int| 0 <= j < stopwords().len() && stopwords()[j] == w@;
            assert(stopwords()[j] != w@);
        }
    }
    false
}

fn filter_stop(ws: &Vec<Vec<char>>) -> (r: Vec<Vec<char>>)
    ensures
        views_of(r@) == remove_stopwords(views_of(ws@)),
{
    let n: usize = ws.len();
    let mut r: Vec<Vec<char>> = Vec::new();
    let mut i: usize = 0;
    proof {
        assert(views_of(ws@).skip(0) =~= views_of(ws@));
        assert(views_of(r@) =~= Seq::<Seq<char>>::empty());
        assert(Seq::<Seq<char>>::empty() + remove_stopwords(views_of(ws@)) =~= remove_stopwords(
            views_of(ws@),
        ));
    }
    while i < n
        invariant
            i <= n,
            n == ws@.len(),
            remove_stopwords(views_of(ws@)) == views_of(r@) + remove_stopwords(
                views_of(ws@).skip(i as int),
            ),
        decreases n - i,
    {
        let ghost prevs = views_of(r@);
        let w = &ws[i];
        proof {
            assert(views_of(ws@).skip(i as int).drop_first() =~= views_of(ws@).skip(i + 1 as int));
            assert(views_of(ws@).skip(i as int)[0] == ws@[i as int]@);
        }
        if !is_stop(w) {
            let copy = subvec(w, 0, w.len());
            proof {
                assert(copy@ =~= ws@[i as int]@);
            }
            r.push(copy);
            proof {
                assert(views_of(r@) =~= prevs + seq![ws@[i as int]@]);
                assert(prevs + (seq![ws@[i as int]@] + remove_stopwords(
                    views_of(ws@).skip(i + 1 as int),
                )) =~= (prevs + seq![ws@[i as int]@]) + remove_stopwords(
                    views_of(ws@).skip(i + 1 as int),
                ));
            }
        }
        i = i + 1;
    }
    proof {
        assert(views_of(ws@).skip(n as int) =~= Seq::<Seq<char>>::empty());
        assert(views_of(r@) + Seq::<Seq<char>>::empty() =~= views_of(r@));
    }
    r
}

fn take_two(v: &Vec<Vec<char>>) -> (r: Vec<Vec<char>>)
    ensures
        views_of(r@) == if views_of(v@).len() <= 2 {
            views_of(v@)
        } else {
            views_of(v@).take(2)
        },
{
    let keep: usize = if v.len() <= 2 {
        v.len()
    } else {
        2
    };
    let mut r: Vec<Vec<char>> = Vec::new();
    let mut i: usize = 0;
    while i < keep
        invariant
            i <= keep,
            keep <= v@.len(),
            keep == if v@.len() <= 2 {
                v@.len() as int
            } else {
                2
            },
            views_of(r@) =~= views_of(v@).take(i as int),
        decreases keep - i,
    {
        let ghost prevs = views_of(r@);
        let w = &v[i];
        let copy = subvec(w, 0, w.len());
        proof {
            assert(copy@ =~= v@[i as int]@);
        }
        r.push(copy);
        proof {
            assert(views_of(r@) =~= prevs + seq![v@[i as int]@]);
            assert(views_of(v@).take(i + 1 as int) =~= views_of(v@).take(i as int) + seq![
                v@[i as int]@,
            ]);
        }
        i = i + 1;
    }
    proof {
        if v@.len() <= 2 {
            assert(views_of(v@).take(v@.len() as int) =~= views_of(v@));
        }
    }
    r
}

/// The author pipeline applied to a chosen raw text.
fn author_from_raw_exec(raw: &str) -> (r: Vec<char>)
    ensures
        r@ == author_from_raw(raw@),
{
    let t = transliterate(raw);
    let chars = str_to_chars(t.as_str());
    let low = lower_chars(&chars);
    let rep: Vec<char> = vec![' '];
    proof {
        assert(rep@ =~= seq![' ']);
    }
    let scr = scrub_chars(&low, &rep);
    let toks = split_ws_chars(&scr);
    join_with(&toks, '-')
}

/// The token of the container string, when there is one.
fn container_token_exec(c: &str) -> (r: Vec<char>)
    ensures
        r@ == container_token(c@),
{
    let s = str_to_chars(c);
    let n: usize = s.len();
    let mut p: usize = 0;
    let https = vec!['h', 't', 't', 'p', 's', ':', '/', '/', 'w', 'w', 'w'];
    let http = vec!['h', 't', 't', 'p', ':', '/', '/', 'w', 'w', 'w'];
    let www = vec!['w', 'w', 'w'];
    proof {
        assert(https@ =~= https_www());
        assert(http@ =~= http_www());
        assert(www@ =~= www_pat());
    }
    if n > 11 && crate::text::ci_match_prefix(&s, &https, 0) && (s[11] == '.' || s[11] == '-') {
        p = 12;
    } else if n > 10 && crate::text::ci_match_prefix(&s, &http, 0) && (s[10] == '.' || s[10]
        == '-') {
        p = 11;
    } else if n > 3 && crate::text::ci_match_prefix(&s, &www, 0) && (s[3] == '.' || s[3] == '-') {
        p = 4;
    } else {
        p = 0;
    }
    assert(p == url_prefix_len(s@));
    let e0 = find_nonalnum(&s, p);
    let e: usize = if e0 - p > 10 {
        p + 10
    } else {
        e0
    };
    subvec(&s, p, e)
}

/// The raw text the author component is derived from, as characters.
fn select_author_raw(d: &EntryData) -> (r: Option<Vec<char>>)
    ensures
        match r {
            Option::Some(v) => author_raw(*d) matches Some(raw) && v@ == raw,
            Option::None => author_raw(*d) is None,
        },
{
    if d.authors.len() > 0 {
        let a = &d.authors[0];
        if let Option::Some(f) = &a.family {
            return Some(str_to_chars(f.as_str()));
        }
        if let Option::Some(l) = &a.literal {
            let lc = str_to_chars(l.as_str());
            let toks = split_ws_chars(&lc);
            if toks.len() > 0 {
                let last = &toks[toks.len() - 1];
                let copy = subvec(last, 0, last.len());
                proof {
                    assert(views_of(toks@)[toks@.len() - 1] == toks@[toks@.len() - 1]@);
                    assert(copy@ == split_ws(l@).last());
                }
                return Some(copy);
            }
        }
    }
    match &d.container {
        Option::Some(c) => {
            let tok = container_token_exec(c.as_str());
            if tok.len() > 0 {
                Some(tok)
            } else {
                None
            }
        },
        Option::None => None,
    }
}

/// The title pipeline applied to a title string.
fn title_pipeline_exec(t: &str) -> (r: Vec<char>)
    ensures
        r@ == title_pipeline(t@),
{
    let tc = str_to_chars(t);
    let col = collapse_ws_chars(&tc);
    let cs = chars_to_string(&col);
    let tr = transliterate(cs.as_str());
    let a = str_to_chars(tr.as_str());
    let empty_rep: Vec<char> = Vec::new();
    let scr = scrub_chars(&a, &empty_rep);
    let low = lower_chars(&scr);
    let toks = split_ws_chars(&low);
    let words = filter_stop(&toks);
    let joined = join_with(&words, '-');
    let frags = split_char_chars(&joined, '-');
    let kept = take_two(&frags);
    join_with(&kept, '-')
}

/// Derives the citekey of a record: deterministic, free of path separators
/// and control characters, of the form "{author}_{year}_{short-title}".
pub fn get_key(data: &EntryData) -> (key: String)
    ensures
        key@ == citekey_spec(*data),
{
    let author: Vec<char> = match select_author_raw(data) {
        Option::Some(v) => {
            let s = chars_to_string(&v);
            author_from_raw_exec(s.as_str())
        },
        Option::None => {
            let v: Vec<char> = vec!['n', 'o', 'a', 'u', 't', 'h', 'o', 'r'];
            proof {
                assert(v@ =~= seq!['n', 'o', 'a', 'u', 't', 'h', 'o', 'r']);
            }
            v
        },
    };
    let year: String = get_year(data.issued_year);
    let title: Vec<char> = match &data.title_short {
        Option::Some(t) => title_pipeline_exec(t.as_str()),
        Option::None => match &data.title {
            Option::Some(t) => title_pipeline_exec(t.as_str()),
            Option::None => {
                let v: Vec<char> = vec!['n', 'o', '-', 't', 'i', 't', 'l', 'e'];
                proof {
                    assert(v@ =~= seq!['n', 'o', '-', 't', 'i', 't', 'l', 'e']);
                }
                v
            },
        },
    };
    let mut out: Vec<char> = author;
    out.push('_');
    let yc = str_to_chars(year.as_str());
    crate::text::push_all(&mut out, &yc);
    out.push('_');
    crate::text::push_all(&mut out, &title);
    proof {
        assert(out@ =~= citekey_spec(*data));
    }
    chars_to_string(&out)
}

} // verus!
