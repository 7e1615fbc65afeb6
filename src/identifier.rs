//! Identifying text: the query configuration, matches, and the match engine.

use vstd::prelude::*;
use crate::catalog::{Catalog, Entry};
use crate::extract::{TailPolicy, candidates, extract_strings, string_views};
use crate::filter::{eligible, is_valid_filter};
use crate::pattern::{Data, DataView, stripped};
use crate::regex_api::regex_finds;

verus! {

/// A piece of text together with a pattern it was identified as.
pub struct Match {
    pub text: String,
    pub data: Data,
}

/// The value of a match.
pub struct MatchView {
    pub text: Seq<char>,
    pub data: DataView,
}

impl View for Match {
    type V = MatchView;

    open spec fn view(&self) -> MatchView {
        MatchView { text: self.text@, data: self.data@ }
    }
}

impl Clone for Match {
    fn clone(&self) -> (r: Self)
        ensures
            r@ == self@,
    {
        Match { text: self.text.clone(), data: self.data.clone() }
    }
}

impl Match {
    pub fn new(text: String, data: Data) -> (m: Match)
        ensures
            m.text == text,
            m.data == data,
    {
        Match { text, data }
    }
}

/// The values of a list of matches.
pub open spec fn match_views(ms: Seq<Match>) -> Seq<MatchView> {
    ms.map_values(|m: Match| m@)
}

/// The matches of `text` against the first `n` patterns, keeping pattern
/// `i` exactly when `found[i]` holds, in pattern order.
pub open spec fn picks(
    pats: Seq<DataView>,
    text: Seq<char>,
    found: Seq<bool>,
    n: int,
) -> Seq<MatchView>
    decreases n,
{
    if n <= 0 {
        Seq::empty()
    } else {
        let prev = picks(pats, text, found, n - 1);
        if found[n - 1] {
            prev.push(MatchView { text, data: pats[n - 1] })
        } else {
            prev
        }
    }
}

/// Builds the matches of `text` against the catalog's patterns for which
/// `found` holds, in catalog order.
pub fn select_matches(catalog: &Catalog, text: &str, found: &Vec<bool>) -> (r: Vec<Match>)
    requires
        found@.len() == catalog.entries().len(),
    ensures
        match_views(r@) == picks(catalog.patterns(), text@, found@, found@.len() as int),
{
    let n = catalog.len();
    let mut out: Vec<Match> = Vec::new();
    let mut i: usize = 0;
    while i < n
        invariant
            n == catalog.entries().len(),
            n == found@.len(),
            i <= n,
            match_views(out@) == picks(catalog.patterns(), text@, found@, i as int),
        decreases n - i,
    {
        let e = catalog.entry(i);
        if found[i] {
            let ghost before = out@;
            out.push(Match::new(text.to_string(), e.data.clone()));
            proof {
                assert(match_views(out@) =~= match_views(before).push(
                    MatchView { text: text@, data: catalog.patterns()[i as int] },
                ));
            }
        }
        i = i + 1;
    }
    out
}

/// Appends copies of `more` to `out`.
pub fn append_matches(out: &mut Vec<Match>, more: &Vec<Match>)
    ensures
        match_views(final(out)@) == match_views(old(out)@) + match_views(more@),
{
    let ghost before = out@;
    let mut j: usize = 0;
    while j < more.len()
        invariant
            j <= more@.len(),
            match_views(out@) == match_views(before) + match_views(more@).take(j as int),
        decreases more@.len() - j,
    {
        let ghost prev = out@;
        let c = more[j].clone();
        out.push(c);
        proof {
            assert(match_views(out@) =~= match_views(prev).push(c@));
            assert(match_views(more@)[j as int] == c@);
            assert(match_views(out@) =~= match_views(before) + match_views(more@).take(j + 1));
        }
        j = j + 1;
    }
    assert(match_views(more@).take(more@.len() as int) =~= match_views(more@));
}

/// The settings of a query: the rarity range and tag sets that decide which
/// patterns are tried, and which regex variant is used.
///
/// Rarities are in thousandths, as in `Data`. A pattern is tried when it
/// carries every tag of `tags` and none of `exclude_tags`.
pub struct Identifier {
    /// Keep patterns whose rarity is at least this.
    pub min_rarity: u16,
    /// Keep patterns whose rarity is at most this.
    pub max_rarity: u16,
    /// Keep only patterns carrying every one of these tags.
    pub tags: Vec<String>,
    /// Keep only patterns carrying none of these tags.
    pub exclude_tags: Vec<String>,
    /// Use the anchor-free variant of each pattern.
    pub boundaryless: bool,
    /// Treat a query naming a readable file as that file's contents.
    pub file_support: bool,
}

impl Default for Identifier {
    fn default() -> (r: Self)
        ensures
            r.min_rarity == 0,
            r.max_rarity == 1000,
            r.tags@.len() == 0,
            r.exclude_tags@.len() == 0,
            !r.boundaryless,
            !r.file_support,
    {
        Identifier {
            min_rarity: 0,
            max_rarity: 1000,
            tags: Vec::new(),
            exclude_tags: Vec::new(),
            boundaryless: false,
            file_support: false,
        }
    }
}

impl Identifier {
    /// Whether the query lets a pattern with metadata `d` be tried.
    pub open spec fn admits(&self, d: DataView) -> bool {
        eligible(self.min_rarity, self.max_rarity, self.tags@, self.exclude_tags@, d)
    }

    /// Whether `text` is identified as the pattern of entry `e`.
    pub open spec fn hits(&self, e: Entry, text: Seq<char>) -> bool {
        &&& self.admits(e.data@)
        &&& if self.boundaryless {
            e.boundaryless is Some && regex_finds(stripped(e.data.regex@), text)
        } else {
            regex_finds(e.data.regex@, text)
        }
    }

    /// For each catalog entry, whether `text` is identified as it.
    pub open spec fn found(&self, catalog: &Catalog, text: Seq<char>) -> Seq<bool> {
        catalog.entries().map_values(|e: Entry| self.hits(e, text))
    }

    /// Every identification of `text`, in catalog order.
    pub open spec fn identified(&self, catalog: &Catalog, text: Seq<char>) -> Seq<MatchView> {
        picks(
            catalog.patterns(),
            text,
            self.found(catalog, text),
            catalog.entries().len() as int,
        )
    }

    /// The identifications of each text in turn, concatenated.
    pub open spec fn identified_all(&self, catalog: &Catalog, texts: Seq<Seq<char>>) -> Seq<
        MatchView,
    >
        decreases texts.len(),
    {
        if texts.len() == 0 {
            Seq::empty()
        } else {
            self.identified_all(catalog, texts.drop_last()) + self.identified(
                catalog,
                texts.last(),
            )
        }
    }

    /// Decides `hits` for one entry.
    fn hit(&self, e: &Entry, text: &str) -> (r: bool)
        requires
            e.wf(),
        ensures
            r == self.hits(*e, text@),
    {
        if !is_valid_filter(
            self.min_rarity,
            self.max_rarity,
            &self.tags,
            &self.exclude_tags,
            &e.data,
        ) {
            return false;
        }
        if self.boundaryless {
            match &e.boundaryless {
                Some(re) => re.is_match(text),
                None => false,
            }
        } else {
            e.anchored.is_match(text)
        }
    }

    /// Every pattern of the catalog that the query admits and that matches
    /// somewhere in `text`, in catalog order.
    pub fn identify(&self, catalog: &Catalog, text: &str) -> (r: Vec<Match>)
        ensures
            match_views(r@) == self.identified(catalog, text@),
    {
        let n = catalog.len();
        let mut found: Vec<bool> = Vec::new();
        let mut i: usize = 0;
        while i < n
            invariant
                n == catalog.entries().len(),
                i <= n,
                found@ == self.found(catalog, text@).take(i as int),
            decreases n - i,
        {
            let e = catalog.entry(i);
            let h = self.hit(e, text);
            found.push(h);
            proof {
                assert(found@ =~= self.found(catalog, text@).take(i + 1));
            }
            i = i + 1;
        }
        proof {
            assert(found@ =~= self.found(catalog, text@));
        }
        select_matches(catalog, text, &found)
    }

    /// The first pattern, in catalog order, that the query admits and that
    /// matches somewhere in `text`; `None` when there is none.
    pub fn first_match(&self, catalog: &Catalog, text: &str) -> (r: Option<Match>)
        ensures
            r is None <==> forall|i: int|
                0 <= i < catalog.entries().len() ==> !#[trigger] self.found(catalog, text@)[i],
            r is Some ==> exists|i: int|
                0 <= i < catalog.entries().len() && #[trigger] self.found(catalog, text@)[i]
                    && (forall|j: int| 0 <= j < i ==> !self.found(catalog, text@)[j])
                    && r->Some_0@ == (MatchView { text: text@, data: catalog.patterns()[i] }),
    {
        let n = catalog.len();
        let mut i: usize = 0;
        while i < n
            invariant
                n == catalog.entries().len(),
                i <= n,
                forall|j: int| 0 <= j < i ==> !#[trigger] self.found(catalog, text@)[j],
            decreases n - i,
        {
            let e = catalog.entry(i);
            if self.hit(e, text) {
                let m = Match::new(text.to_string(), e.data.clone());
                assert(self.found(catalog, text@)[i as int]);
                return Some(m);
            }
            i = i + 1;
        }
        None
    }

    /// The candidate strings of a query: the printable runs of the named
    /// file when file support is on and `file` holds that file's contents,
    /// the query text alone otherwise.
    pub open spec fn query_texts(&self, text: Seq<char>, file: Option<Seq<u8>>) -> Seq<Seq<char>> {
        if self.file_support && file is Some {
            candidates(file->Some_0, TailPolicy::Uniform)
        } else {
            seq![text]
        }
    }

    /// Lists the candidate strings of a query; `file` holds the contents of
    /// the file that `text` names, when it names a readable one.
    pub fn candidates_of(&self, text: &str, file: Option<&[u8]>) -> (r: Vec<String>)
        ensures
            string_views(r@) == self.query_texts(
                text@,
                match file {
                    Some(c) => Some(c@),
                    None => None,
                },
            ),
    {
        match file {
            Some(contents) if self.file_support => extract_strings(contents, TailPolicy::Uniform),
            _ => {
                let mut v: Vec<String> = Vec::new();
                v.push(text.to_string());
                assert(string_views(v@) =~= seq![text@]);
                v
            },
        }
    }

    /// Identifies a query: each candidate string of the file it names when
    /// file support is on and `file` holds that file's contents, the query
    /// text itself otherwise. Results come per candidate, in order.
    pub fn identify_input(&self, catalog: &Catalog, text: &str, file: Option<&[u8]>) -> (r: Vec<
        Match,
    >)
        ensures
            match_views(r@) == self.identified_all(
                catalog,
                self.query_texts(
                    text@,
                    match file {
                        Some(c) => Some(c@),
                        None => None,
                    },
                ),
            ),
    {
        let texts = self.candidates_of(text, file);
        self.identify_candidates(catalog, &texts)
    }

    /// The identifications of each candidate in turn, concatenated: what
    /// `identify` gives for each, in candidate order.
    pub fn identify_candidates(&self, catalog: &Catalog, candidates: &Vec<String>) -> (r: Vec<
        Match,
    >)
        ensures
            match_views(r@) == self.identified_all(
                catalog,
                candidates@.map_values(|s: String| s@),
            ),
    {
        let ghost texts = candidates@.map_values(|s: String| s@);
        let mut out: Vec<Match> = Vec::new();
        let mut k: usize = 0;
        while k < candidates.len()
            invariant
                k <= candidates@.len(),
                texts == candidates@.map_values(|s: String| s@),
                match_views(out@) == self.identified_all(catalog, texts.take(k as int)),
            decreases candidates@.len() - k,
        {
            let found = self.identify(catalog, candidates[k].as_str());
            append_matches(&mut out, &found);
            proof {
                assert(texts.take(k + 1).drop_last() =~= texts.take(k as int));
            }
            k = k + 1;
        }
        proof {
            assert(texts.take(candidates@.len() as int) =~= texts);
        }
        out
    }
}

impl Identifier {
    pub fn min_rarity(self, rarity: u16) -> (r: Self)
        ensures
            r == (Identifier { min_rarity: rarity, ..self }),
    {
        Identifier { min_rarity: rarity, ..self }
    }

    pub fn max_rarity(self, rarity: u16) -> (r: Self)
        ensures
            r == (Identifier { max_rarity: rarity, ..self }),
    {
        Identifier { max_rarity: rarity, ..self }
    }

    /// Adds `tags` to the tags a pattern must carry.
    pub fn include_tags(self, tags: &[String]) -> (r: Self)
        ensures
            r.tags@ == self.tags@ + tags@,
            r.exclude_tags == self.exclude_tags,
            r.min_rarity == self.min_rarity,
            r.max_rarity == self.max_rarity,
            r.boundaryless == self.boundaryless,
            r.file_support == self.file_support,
    {
        let mut me = self;
        me.tags.extend_from_slice(tags);
        proof {
            assert(me.tags@ =~= self.tags@ + tags@);
        }
        me
    }

    /// Adds `tags` to the tags a pattern must not carry.
    pub fn exclude_tags(self, tags: &[String]) -> (r: Self)
        ensures
            r.exclude_tags@ == self.exclude_tags@ + tags@,
            r.tags == self.tags,
            r.min_rarity == self.min_rarity,
            r.max_rarity == self.max_rarity,
            r.boundaryless == self.boundaryless,
            r.file_support == self.file_support,
    {
        let mut me = self;
        me.exclude_tags.extend_from_slice(tags);
        proof {
            assert(me.exclude_tags@ =~= self.exclude_tags@ + tags@);
        }
        me
    }

    pub fn boundaryless(self, boundaryless: bool) -> (r: Self)
        ensures
            r == (Identifier { boundaryless, ..self }),
    {
        Identifier { boundaryless, ..self }
    }

    pub fn file_support(self, support: bool) -> (r: Self)
        ensures
            r == (Identifier { file_support: support, ..self }),
    {
        Identifier { file_support: support, ..self }
    }
}

/// Matching candidates in groups and merging the groups' results loses and
/// adds nothing: the results for `a` followed by `b` are those for `a`
/// followed by those for `b`, and merging the two groups in either order
/// gives the same multiset of matches.
pub proof fn lemma_candidates_merge(
    id: Identifier,
    catalog: Catalog,
    a: Seq<Seq<char>>,
    b: Seq<Seq<char>>,
)
    ensures
        id.identified_all(&catalog, a + b) == id.identified_all(&catalog, a)
            + id.identified_all(&catalog, b),
        id.identified_all(&catalog, a + b).to_multiset() == (id.identified_all(&catalog, b)
            + id.identified_all(&catalog, a)).to_multiset(),
    decreases b.len(),
{
    if b.len() == 0 {
        assert(a + b =~= a);
        assert(id.identified_all(&catalog, a) + id.identified_all(&catalog, b) =~= id.identified_all(
            &catalog,
            a,
        ));
    } else {
        lemma_candidates_merge(id, catalog, a, b.drop_last());
        assert((a + b).drop_last() =~= a + b.drop_last());
        assert((a + b).last() == b.last());
        assert(id.identified_all(&catalog, a + b) =~= id.identified_all(&catalog, a)
            + id.identified_all(&catalog, b));
    }
    vstd::seq_lib::lemma_seq_union_to_multiset_commutative(
        id.identified_all(&catalog, a),
        id.identified_all(&catalog, b),
    );
}

/// However the candidates are handed out to workers and in whatever order
/// their results are merged, the merged results hold the same matches as a
/// sequential run: for any reordering `u` of the candidates `t`, the
/// matches for `u` form the same multiset as those for `t`.
pub proof fn lemma_candidate_order_irrelevant(
    id: Identifier,
    catalog: Catalog,
    t: Seq<Seq<char>>,
    u: Seq<Seq<char>>,
)
    requires
        t.to_multiset() == u.to_multiset(),
    ensures
        id.identified_all(&catalog, t).to_multiset() == id.identified_all(
            &catalog,
            u,
        ).to_multiset(),
    decreases t.len(),
{
    broadcast use vstd::seq_lib::group_to_multiset_ensures;
    broadcast use vstd::multiset::group_multiset_axioms;

    t.to_multiset_ensures();
    u.to_multiset_ensures();
    if t.len() == 0 {
        assert(t.to_multiset().len() == 0);
        assert(u.to_multiset().len() == 0);
        assert(u.len() == 0);
        assert(u =~= t);
    } else {
        let x = t.last();
        let init = t.drop_last();
        assert(t =~= init.push(x));
        assert(t.contains(x)) by {
            assert(t[t.len() - 1] == x);
        }
        assert(t.to_multiset().count(x) > 0);
        assert(u.to_multiset().count(x) > 0);
        assert(u.contains(x));
        let k = choose|k: int| 0 <= k < u.len() && u[k] == x;
        let a = u.take(k);
        let b = u.skip(k + 1);
        assert(u.remove(k) =~= a + b);
        assert(u =~= a + seq![x] + b);
        assert(init.to_multiset() =~= t.to_multiset().remove(x));
        lemma_candidate_order_irrelevant(id, catalog, init, a + b);
        lemma_candidates_merge(id, catalog, a, b);
        lemma_candidates_merge(id, catalog, a + seq![x], b);
        lemma_candidates_merge(id, catalog, a, seq![x]);
        assert(seq![x].drop_last() =~= Seq::<Seq<char>>::empty());
        let ia = id.identified_all(&catalog, a);
        let ib = id.identified_all(&catalog, b);
        let ix = id.identified(&catalog, x);
        assert(seq![x].last() == x);
        assert(id.identified_all(&catalog, Seq::<Seq<char>>::empty()) == Seq::<MatchView>::empty());
        assert(Seq::<MatchView>::empty() + ix =~= ix);
        assert(id.identified_all(&catalog, seq![x]) =~= ix);
        vstd::seq_lib::lemma_multiset_commutative(ia, ib);
        vstd::seq_lib::lemma_multiset_commutative(ia + ix, ib);
        vstd::seq_lib::lemma_multiset_commutative(ia, ix);
        vstd::seq_lib::lemma_multiset_commutative(id.identified_all(&catalog, init), ix);
        assert(id.identified_all(&catalog, t) == id.identified_all(&catalog, init) + ix);
        assert(id.identified_all(&catalog, t).to_multiset() =~= id.identified_all(
            &catalog,
            u,
        ).to_multiset());
    }
}

} // verus!
