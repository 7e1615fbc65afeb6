//! Whole-catalog identification: every pattern tried, anchored, with no
//! filter, on a text or on the candidate strings of a file's contents.

use vstd::prelude::*;
use crate::catalog::{Catalog, Entry};
use crate::extract::{TailPolicy, candidates, extract_strings, string_views};
use crate::identifier::{Match, MatchView, append_matches, match_views, picks, select_matches};
use crate::regex_api::regex_finds;

verus! {

/// For each catalog entry, whether its authored pattern matches in `text`.
pub open spec fn found_unfiltered(catalog: &Catalog, text: Seq<char>) -> Seq<bool> {
    catalog.entries().map_values(|e: Entry| regex_finds(e.data.regex@, text))
}

/// Every pattern of the catalog that matches somewhere in `text`, in
/// catalog order.
pub open spec fn unfiltered(catalog: &Catalog, text: Seq<char>) -> Seq<MatchView> {
    picks(
        catalog.patterns(),
        text,
        found_unfiltered(catalog, text),
        catalog.entries().len() as int,
    )
}

/// The identifications of each text in turn, concatenated.
pub open spec fn unfiltered_all(catalog: &Catalog, texts: Seq<Seq<char>>) -> Seq<MatchView>
    decreases texts.len(),
{
    if texts.len() == 0 {
        Seq::empty()
    } else {
        unfiltered_all(catalog, texts.drop_last()) + unfiltered(catalog, texts.last())
    }
}

/// Identifies `text` against every pattern of the catalog.
pub fn identify_text(catalog: &Catalog, text: &str) -> (r: Vec<Match>)
    ensures
        match_views(r@) == unfiltered(catalog, text@),
{
    let n = catalog.len();
    let mut found: Vec<bool> = Vec::new();
    let mut i: usize = 0;
    while i < n
        invariant
            n == catalog.entries().len(),
            i <= n,
            found@ == found_unfiltered(catalog, text@).take(i as int),
        decreases n - i,
    {
        let e = catalog.entry(i);
        found.push(e.anchored.is_match(text));
        proof {
            assert(found@ =~= found_unfiltered(catalog, text@).take(i + 1));
        }
        i = i + 1;
    }
    proof {
        assert(found@ =~= found_unfiltered(catalog, text@));
    }
    select_matches(catalog, text, &found)
}

/// Identifies each candidate string of a file's contents, runs shorter than
/// the minimum left out, and concatenates the results in file order.
pub fn analyze_file(catalog: &Catalog, contents: &[u8]) -> (r: Vec<Match>)
    ensures
        match_views(r@) == unfiltered_all(catalog, candidates(contents@, TailPolicy::Uniform)),
{
    let strings = extract_strings(contents, TailPolicy::Uniform);
    let ghost texts = string_views(strings@);
    let mut out: Vec<Match> = Vec::new();
    let mut k: usize = 0;
    while k < strings.len()
        invariant
            k <= strings@.len(),
            texts == string_views(strings@),
            texts == candidates(contents@, TailPolicy::Uniform),
            match_views(out@) == unfiltered_all(catalog, texts.take(k as int)),
        decreases strings@.len() - k,
    {
        let found = identify_text(catalog, strings[k].as_str());
        append_matches(&mut out, &found);
        proof {
            assert(texts.take(k + 1).drop_last() =~= texts.take(k as int));
        }
        k = k + 1;
    }
    proof {
        assert(texts.take(strings@.len() as int) =~= texts);
    }
    out
}

/// Identifies a query: the contents of the file it names when there is one
/// (`file`), the query text itself otherwise.
pub fn what_is(catalog: &Catalog, text: &str, file: Option<&[u8]>) -> (r: Vec<Match>)
    ensures
        match file {
            Some(contents) => match_views(r@) == unfiltered_all(
                catalog,
                candidates(contents@, TailPolicy::Uniform),
            ),
            None => match_views(r@) == unfiltered(catalog, text@),
        },
{
    match file {
        Some(contents) => analyze_file(catalog, contents),
        None => identify_text(catalog, text),
    }
}

} // verus!
