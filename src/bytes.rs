//! Identifying raw bytes, for input that need not be valid text.
//!
//! The same catalog and the same eligibility rule as for text; each pattern
//! is tried with the byte engine, and a pattern that engine refuses never
//! matches.

use vstd::prelude::*;
use vstd::slice::slice_to_vec;
use crate::catalog::{Catalog, Entry};
use crate::filter::{eligible, is_valid_filter};
use crate::pattern::{Data, DataView, stripped};
use crate::regex_api::bytes_regex_finds;

verus! {

/// A byte string together with a pattern it was identified as.
pub struct Match {
    pub text: Vec<u8>,
    pub data: Data,
}

/// The value of a byte match.
pub struct MatchView {
    pub text: Seq<u8>,
    pub data: DataView,
}

impl View for Match {
    type V = MatchView;

    open spec fn view(&self) -> MatchView {
        MatchView { text: self.text@, data: self.data@ }
    }
}

impl Match {
    pub fn new(text: Vec<u8>, data: Data) -> (m: Match)
        ensures
            m.text == text,
            m.data == data,
    {
        Match { text, data }
    }
}

/// The values of a list of byte matches.
pub open spec fn match_views(ms: Seq<Match>) -> Seq<MatchView> {
    ms.map_values(|m: Match| m@)
}

/// The matches of `text` against the first `n` patterns, keeping pattern
/// `i` exactly when `found[i]` holds, in pattern order.
pub open spec fn picks(pats: Seq<DataView>, text: Seq<u8>, found: Seq<bool>, n: int) -> Seq<
    MatchView,
>
    decreases n,
{
    if n <= 0 {
        Seq::empty()
    } else {
        let prev = picks(pats, text, found, n - 1);
        if found[n - 1] {
            prev.push(MatchView { text, data: pats[n - 1] })
        } else {
            prev
        }
    }
}

/// Builds the matches of `text` against the catalog's patterns for which
/// `found` holds, in catalog order.
pub fn select_matches(catalog: &Catalog, text: &[u8], found: &Vec<bool>) -> (r: Vec<Match>)
    requires
        found@.len() == catalog.entries().len(),
    ensures
        match_views(r@) == picks(catalog.patterns(), text@, found@, found@.len() as int),
{
    let n = catalog.len();
    let mut out: Vec<Match> = Vec::new();
    let mut i: usize = 0;
    while i < n
        invariant
            n == catalog.entries().len(),
            n == found@.len(),
            i <= n,
            match_views(out@) == picks(catalog.patterns(), text@, found@, i as int),
        decreases n - i,
    {
        let e = catalog.entry(i);
        if found[i] {
            let ghost before = out@;
            out.push(Match::new(slice_to_vec(text), e.data.clone()));
            proof {
                assert(match_views(out@) =~= match_views(before).push(
                    MatchView { text: text@, data: catalog.patterns()[i as int] },
                ));
            }
        }
        i = i + 1;
    }
    out
}

/// The settings of a byte query; the same fields, with the same meaning, as
/// for text.
pub struct Identifier {
    /// Keep patterns whose rarity is at least this.
    pub min_rarity: u16,
    /// Keep patterns whose rarity is at most this.
    pub max_rarity: u16,
    /// Keep only patterns carrying every one of these tags.
    pub tags: Vec<String>,
    /// Keep only patterns carrying none of these tags.
    pub exclude_tags: Vec<String>,
    /// Use the anchor-free variant of each pattern.
    pub boundaryless: bool,
    /// Treat a query naming a readable file as that file's contents.
    pub file_support: bool,
}

impl Default for Identifier {
    fn default() -> (r: Self)
        ensures
            r.min_rarity == 0,
            r.max_rarity == 1000,
            r.tags@.len() == 0,
            r.exclude_tags@.len() == 0,
            !r.boundaryless,
            !r.file_support,
    {
        Identifier {
            min_rarity: 0,
            max_rarity: 1000,
            tags: Vec::new(),
            exclude_tags: Vec::new(),
            boundaryless: false,
            file_support: false,
        }
    }
}

impl Identifier {
    pub fn min_rarity(self, rarity: u16) -> (r: Self)
        ensures
            r == (Identifier { min_rarity: rarity, ..self }),
    {
        Identifier { min_rarity: rarity, ..self }
    }

    pub fn max_rarity(self, rarity: u16) -> (r: Self)
        ensures
            r == (Identifier { max_rarity: rarity, ..self }),
    {
        Identifier { max_rarity: rarity, ..self }
    }

    /// Adds `tags` to the tags a pattern must carry.
    pub fn include_tags(self, tags: &[String]) -> (r: Self)
        ensures
            r.tags@ == self.tags@ + tags@,
            r.exclude_tags == self.exclude_tags,
            r.min_rarity == self.min_rarity,
            r.max_rarity == self.max_rarity,
            r.boundaryless == self.boundaryless,
            r.file_support == self.file_support,
    {
        let mut me = self;
        me.tags.extend_from_slice(tags);
        proof {
            assert(me.tags@ =~= self.tags@ + tags@);
        }
        me
    }

    /// Adds `tags` to the tags a pattern must not carry.
    pub fn exclude_tags(self, tags: &[String]) -> (r: Self)
        ensures
            r.exclude_tags@ == self.exclude_tags@ + tags@,
            r.tags == self.tags,
            r.min_rarity == self.min_rarity,
            r.max_rarity == self.max_rarity,
            r.boundaryless == self.boundaryless,
            r.file_support == self.file_support,
    {
        let mut me = self;
        me.exclude_tags.extend_from_slice(tags);
        proof {
            assert(me.exclude_tags@ =~= self.exclude_tags@ + tags@);
        }
        me
    }

    pub fn boundaryless(self, boundaryless: bool) -> (r: Self)
        ensures
            r == (Identifier { boundaryless, ..self }),
    {
        Identifier { boundaryless, ..self }
    }

    pub fn file_support(self, support: bool) -> (r: Self)
        ensures
            r == (Identifier { file_support: support, ..self }),
    {
        Identifier { file_support: support, ..self }
    }

    /// Whether the query lets a pattern with metadata `d` be tried.
    pub open spec fn admits(&self, d: DataView) -> bool {
        eligible(self.min_rarity, self.max_rarity, self.tags@, self.exclude_tags@, d)
    }

    /// Whether `text` is identified as the pattern of entry `e`.
    pub open spec fn hits(&self, e: Entry, text: Seq<u8>) -> bool {
        &&& self.admits(e.data@)
        &&& if self.boundaryless {
            e.boundaryless_bytes is Some && bytes_regex_finds(stripped(e.data.regex@), text)
        } else {
            e.anchored_bytes is Some && bytes_regex_finds(e.data.regex@, text)
        }
    }

    /// For each catalog entry, whether `text` is identified as it.
    pub open spec fn found(&self, catalog: &Catalog, text: Seq<u8>) -> Seq<bool> {
        catalog.entries().map_values(|e: Entry| self.hits(e, text))
    }

    /// Every identification of `text`, in catalog order.
    pub open spec fn identified(&self, catalog: &Catalog, text: Seq<u8>) -> Seq<MatchView> {
        picks(
            catalog.patterns(),
            text,
            self.found(catalog, text),
            catalog.entries().len() as int,
        )
    }

    /// Decides `hits` for one entry.
    fn hit(&self, e: &Entry, text: &[u8]) -> (r: bool)
        requires
            e.wf(),
        ensures
            r == self.hits(*e, text@),
    {
        if !is_valid_filter(
            self.min_rarity,
            self.max_rarity,
            &self.tags,
            &self.exclude_tags,
            &e.data,
        ) {
            return false;
        }
        let re = if self.boundaryless {
            &e.boundaryless_bytes
        } else {
            &e.anchored_bytes
        };
        match re {
            Some(re) => re.is_match(text),
            None => false,
        }
    }

    /// Every pattern of the catalog that the query admits and that matches
    /// somewhere in `text`, in catalog order.
    pub fn identify(&self, catalog: &Catalog, text: &[u8]) -> (r: Vec<Match>)
        ensures
            match_views(r@) == self.identified(catalog, text@),
    {
        let n = catalog.len();
        let mut found: Vec<bool> = Vec::new();
        let mut i: usize = 0;
        while i < n
            invariant
                n == catalog.entries().len(),
                i <= n,
                found@ == self.found(catalog, text@).take(i as int),
            decreases n - i,
        {
            let e = catalog.entry(i);
            let h = self.hit(e, text);
            found.push(h);
            proof {
                assert(found@ =~= self.found(catalog, text@).take(i + 1));
            }
            i = i + 1;
        }
        proof {
            assert(found@ =~= self.found(catalog, text@));
        }
        select_matches(catalog, text, &found)
    }

    /// The first pattern, in catalog order, that the query admits and that
    /// matches somewhere in `text`; `None` when there is none.
    pub fn first_match(&self, catalog: &Catalog, text: &[u8]) -> (r: Option<Match>)
        ensures
            r is None <==> forall|i: int|
                0 <= i < catalog.entries().len() ==> !#[trigger] self.found(catalog, text@)[i],
            r is Some ==> exists|i: int|
                0 <= i < catalog.entries().len() && #[trigger] self.found(catalog, text@)[i]
                    && (forall|j: int| 0 <= j < i ==> !self.found(catalog, text@)[j])
                    && r->Some_0@ == (MatchView { text: text@, data: catalog.patterns()[i] }),
    {
        let n = catalog.len();
        let mut i: usize = 0;
        while i < n
            invariant
                n == catalog.entries().len(),
                i <= n,
                forall|j: int| 0 <= j < i ==> !#[trigger] self.found(catalog, text@)[j],
            decreases n - i,
        {
            let e = catalog.entry(i);
            if self.hit(e, text) {
                let m = Match::new(slice_to_vec(text), e.data.clone());
                assert(self.found(catalog, text@)[i as int]);
                return Some(m);
            }
            i = i + 1;
        }
        None
    }
}

} // verus!
