use vstd::prelude::*;
use crate::structs::{Chapter, ChapterV};

verus! {

/// Shared post-processing of every parser: chapters are handed out
/// oldest-first, so a source listing newest first is reversed.
pub open spec fn spec_finalize(ascending: bool, s: Seq<ChapterV>) -> Seq<ChapterV> {
    if ascending {
        s
    } else {
        s.reverse()
    }
}

/// Turning the ascending flag off reverses the output of the flag-on case,
/// whatever the document-order chapters were.
pub proof fn lemma_finalize_reverses(s: Seq<ChapterV>)
    ensures
        spec_finalize(false, s) == spec_finalize(true, s).reverse(),
{
}

/// Reverses a chapter list.
pub fn reverse_chapters(chapters: Vec<Chapter>) -> (r: Vec<Chapter>)
    ensures
        r@ == chapters@.reverse(),
        r.deep_view() == chapters.deep_view().reverse(),
{
    let ghost orig: Seq<Chapter> = chapters@;
    let mut rest = chapters;
    let mut out: Vec<Chapter> = Vec::new();
    while rest.len() > 0
        invariant
            rest@.len() <= orig.len(),
            rest@ == orig.subrange(0, rest@.len() as int),
            out@ == orig.subrange(rest@.len() as int, orig.len() as int).reverse(),
        decreases rest.len(),
    {
        let ghost k = rest@.len() as int;
        match rest.pop() {
            Some(c) => out.push(c),
            None => {},
        }
        proof {
            assert(rest@ =~= orig.subrange(0, k - 1));
            assert(out@ =~= orig.subrange(k - 1, orig.len() as int).reverse());
        }
    }
    proof {
        assert(out@ =~= orig.reverse());
        assert(out.deep_view() =~= Seq::new(orig.len(), |i: int| orig[i].deep_view()).reverse());
    }
    out
}

/// What the url crate makes of a URL string: its parsed-and-serialized form,
/// `None` when the string is not an absolute URL.
pub uninterp spec fn url_norm(s: Seq<char>) -> Option<Seq<char>>;

/// Relies on `url::Url::parse` and the url crate's `From<Url> for String`:
/// parsing and re-serializing is a function of the string alone.
#[verifier::external_body]
fn parse_url_string(s: &str) -> (r: Option<String>)
    ensures
        match r {
            Some(u) => url_norm(s@) == Some(u@),
            None => url_norm(s@) is None,
        },
{
    match url::Url::parse(s) {
        Ok(u) => Some(String::from(u)),
        Err(_) => None,
    }
}

/// What resolving `link` against `base` yields: the link itself when it is
/// already absolute, else the concatenation of base and link; in both cases
/// in the url crate's serialized form. `None` when neither parses.
pub open spec fn spec_make_link(base: Seq<char>, link: Seq<char>) -> Option<Seq<char>> {
    match url_norm(link) {
        Some(u) => Some(u),
        None => url_norm(base + link),
    }
}

/// Helper that prepends the target's base URL when the URL is relative.
pub fn make_link(base_url: &str, link: &str) -> (r: String)
    requires
        spec_make_link(base_url@, link@) is Some,
    ensures
        Some(r@) == spec_make_link(base_url@, link@),
{
    match parse_url_string(link) {
        Some(u) => u,
        None => {
            let merged = String::from_str(base_url).concat(link);
            match parse_url_string(merged.as_str()) {
                Some(u) => u,
                None => {
                    proof {
                        assert(false);
                    }
                    merged
                },
            }
        },
    }
}

/// `make_link` for callers that have not checked resolvability: `None`
/// exactly when neither the link nor base-plus-link is a valid URL.
pub fn try_make_link(base_url: &str, link: &str) -> (r: Option<String>)
    ensures
        match r {
            Some(u) => spec_make_link(base_url@, link@) == Some(u@),
            None => spec_make_link(base_url@, link@) is None,
        },
{
    match parse_url_string(link) {
        Some(_) => Some(make_link(base_url, link)),
        None => {
            let merged = String::from_str(base_url).concat(link);
            match parse_url_string(merged.as_str()) {
                Some(_) => Some(make_link(base_url, link)),
                None => None,
            }
        },
    }
}

} // verus!
