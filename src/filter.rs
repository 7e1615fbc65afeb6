//! The eligibility predicate: which patterns a query lets through.
//!
//! A pattern passes when its rarity lies in the requested range, it carries
//! every requested tag, and it carries none of the excluded tags.

use vstd::prelude::*;
use crate::identifier::{Match, MatchView, match_views};
use crate::pattern::{Data, DataView};

verus! {

/// Whether `tags` holds a tag equal to `t`.
pub open spec fn has_tag(tags: Seq<String>, t: String) -> bool {
    exists|j: int| 0 <= j < tags.len() && #[trigger] tags[j]@ == t@
}

/// Whether a pattern with metadata `d` passes a query with the given rarity
/// bounds and tag sets.
pub open spec fn eligible(
    min_rarity: u16,
    max_rarity: u16,
    required: Seq<String>,
    excluded: Seq<String>,
    d: DataView,
) -> bool {
    &&& min_rarity <= d.rarity <= max_rarity
    &&& forall|i: int| 0 <= i < required.len() ==> has_tag(d.tags, #[trigger] required[i])
    &&& forall|i: int| 0 <= i < excluded.len() ==> !has_tag(d.tags, #[trigger] excluded[i])
}

/// Whether `tags` holds a tag equal to `t`.
pub fn carries(tags: &Vec<String>, t: &String) -> (r: bool)
    ensures
        r == has_tag(tags@, *t),
{
    let mut j: usize = 0;
    while j < tags.len()
        invariant
            j <= tags@.len(),
            forall|k: int| 0 <= k < j ==> tags@[k]@ != t@,
        decreases tags@.len() - j,
    {
        if tags[j] == *t {
            return true;
        }
        j = j + 1;
    }
    false
}

/// Decides `eligible` for a pattern's metadata.
pub fn is_valid_filter(
    min_rarity: u16,
    max_rarity: u16,
    required: &Vec<String>,
    excluded: &Vec<String>,
    regex_data: &Data,
) -> (r: bool)
    ensures
        r == eligible(min_rarity, max_rarity, required@, excluded@, regex_data@),
{
    if regex_data.rarity < min_rarity || regex_data.rarity > max_rarity {
        return false;
    }
    let mut i: usize = 0;
    while i < required.len()
        invariant
            i <= required@.len(),
            forall|k: int| 0 <= k < i ==> has_tag(regex_data.tags@, #[trigger] required@[k]),
        decreases required@.len() - i,
    {
        if !carries(&regex_data.tags, &required[i]) {
            return false;
        }
        i = i + 1;
    }
    let mut i: usize = 0;
    while i < excluded.len()
        invariant
            i <= excluded@.len(),
            forall|k: int| 0 <= k < i ==> !has_tag(regex_data.tags@, #[trigger] excluded@[k]),
        decreases excluded@.len() - i,
    {
        if carries(&regex_data.tags, &excluded[i]) {
            return false;
        }
        i = i + 1;
    }
    true
}

/// A filter over matches already made: rarity bounds, each optional, and the
/// same tag rules as a query.
pub struct Filters {
    /// Keep matches whose pattern's rarity is at least this.
    pub min_rarity: Option<u16>,
    /// Keep matches whose pattern's rarity is at most this.
    pub max_rarity: Option<u16>,
    /// Keep only matches whose pattern carries every one of these tags.
    pub tags: Vec<String>,
    /// Keep only matches whose pattern carries none of these tags.
    pub exclude_tags: Vec<String>,
}

impl Default for Filters {
    fn default() -> (r: Self)
        ensures
            r.min_rarity is None,
            r.max_rarity is None,
            r.tags@.len() == 0,
            r.exclude_tags@.len() == 0,
    {
        Filters { min_rarity: None, max_rarity: None, tags: Vec::new(), exclude_tags: Vec::new() }
    }
}

impl Filters {
    /// The lower rarity bound in force.
    pub open spec fn lower(&self) -> u16 {
        match self.min_rarity {
            Some(m) => m,
            None => 0,
        }
    }

    /// The upper rarity bound in force.
    pub open spec fn upper(&self) -> u16 {
        match self.max_rarity {
            Some(m) => m,
            None => 0xffff,
        }
    }

    /// Whether a match against a pattern with metadata `d` is kept.
    pub open spec fn admits(&self, d: DataView) -> bool {
        eligible(self.lower(), self.upper(), self.tags@, self.exclude_tags@, d)
    }

    /// The matches of `ms` that are kept, in their order.
    pub open spec fn kept(&self, ms: Seq<MatchView>) -> Seq<MatchView>
        decreases ms.len(),
    {
        if ms.len() == 0 {
            Seq::empty()
        } else {
            let prev = self.kept(ms.drop_last());
            if self.admits(ms.last().data) {
                prev.push(ms.last())
            } else {
                prev
            }
        }
    }

    /// Removes from `matches` those the filter does not keep.
    pub fn filter(&self, matches: &mut Vec<Match>)
        ensures
            match_views(final(matches)@) == self.kept(match_views(old(matches)@)),
    {
        let lower: u16 = match self.min_rarity {
            Some(m) => m,
            None => 0,
        };
        let upper: u16 = match self.max_rarity {
            Some(m) => m,
            None => 0xffff,
        };
        let ghost ms = match_views(matches@);
        let mut out: Vec<Match> = Vec::new();
        let mut i: usize = 0;
        while i < matches.len()
            invariant
                i <= matches@.len(),
                ms == match_views(matches@),
                lower == self.lower(),
                upper == self.upper(),
                match_views(out@) == self.kept(ms.take(i as int)),
            decreases matches@.len() - i,
        {
            let m = &matches[i];
            proof {
                assert(ms.take(i + 1).drop_last() =~= ms.take(i as int));
                assert(ms.take(i + 1).last() == m@);
            }
            if is_valid_filter(lower, upper, &self.tags, &self.exclude_tags, &m.data) {
                let ghost prev = out@;
                let c = m.clone();
                out.push(c);
                proof {
                    assert(match_views(out@) =~= match_views(prev).push(c@));
                }
            }
            i = i + 1;
        }
        proof {
            assert(ms.take(matches@.len() as int) =~= ms);
        }
        *matches = out;
    }
}

/// Filtering is idempotent: what one pass keeps, a second pass with the
/// same filter keeps unchanged.
pub proof fn lemma_filter_idempotent(f: Filters, ms: Seq<MatchView>)
    ensures
        f.kept(f.kept(ms)) == f.kept(ms),
    decreases ms.len(),
{
    if ms.len() > 0 {
        lemma_filter_idempotent(f, ms.drop_last());
        let prev = f.kept(ms.drop_last());
        if f.admits(ms.last().data) {
            assert(prev.push(ms.last()).drop_last() =~= prev);
        }
    }
}

} // verus!
