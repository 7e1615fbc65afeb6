//! The catalog: pattern records with their compiled regexes, in priority
//! order (earlier entries win when a single match is asked for).

use vstd::prelude::*;
use crate::pattern::{Data, DataView, stripped, strip_anchors};
use crate::regex_api::{
    TextRegex,
    BytesRegex,
    regex_compiles,
    bytes_regex_compiles,
};

verus! {

/// A record with the regexes compiled from it. Either boundaryless variant
/// is absent when the transformed pattern does not compile; the byte
/// regexes are absent when the byte engine refuses the pattern.
pub struct Entry {
    pub data: Data,
    pub anchored: TextRegex,
    pub boundaryless: Option<TextRegex>,
    pub anchored_bytes: Option<BytesRegex>,
    pub boundaryless_bytes: Option<BytesRegex>,
}

impl Entry {
    /// Each regex was compiled from the record's pattern or from its
    /// boundaryless variant, and each variant is present exactly when its
    /// engine accepts it.
    pub open spec fn wf(&self) -> bool {
        let p = self.data.regex@;
        &&& self.anchored.source() == p
        &&& (self.boundaryless is Some <==> regex_compiles(stripped(p)))
        &&& (self.boundaryless is Some ==> self.boundaryless->Some_0.source() == stripped(p))
        &&& (self.anchored_bytes is Some <==> bytes_regex_compiles(p))
        &&& (self.anchored_bytes is Some ==> self.anchored_bytes->Some_0.source() == p)
        &&& (self.boundaryless_bytes is Some <==> bytes_regex_compiles(stripped(p)))
        &&& (self.boundaryless_bytes is Some ==> self.boundaryless_bytes->Some_0.source()
            == stripped(p))
    }
}

/// The records that survive catalog construction: those whose authored
/// pattern compiles, in the order they were given.
pub open spec fn compiling(recs: Seq<DataView>) -> Seq<DataView>
    decreases recs.len(),
{
    if recs.len() == 0 {
        Seq::empty()
    } else {
        let prev = compiling(recs.drop_last());
        if regex_compiles(recs.last().regex@) {
            prev.push(recs.last())
        } else {
            prev
        }
    }
}

/// The values of a list of records.
pub open spec fn data_views(recs: Seq<Data>) -> Seq<DataView> {
    recs.map_values(|d: Data| d@)
}

/// The ordered, immutable set of patterns that queries run against.
pub struct Catalog {
    entries: Vec<Entry>,
}

impl Catalog {
    #[verifier::type_invariant]
    spec fn inv(&self) -> bool {
        forall|i: int| 0 <= i < self.entries@.len() ==> #[trigger] self.entries@[i].wf()
    }

    /// The entries, in priority order.
    pub closed spec fn entries(&self) -> Seq<Entry> {
        self.entries@
    }

    /// The metadata of the entries, in priority order.
    pub open spec fn patterns(&self) -> Seq<DataView> {
        self.entries().map_values(|e: Entry| e.data@)
    }

    /// Builds the catalog from records in priority order. A record whose
    /// pattern does not compile is left out; one whose boundaryless variant
    /// does not compile stays, usable in anchored mode.
    pub fn new(records: Vec<Data>) -> (r: Catalog)
        ensures
            r.patterns() == compiling(data_views(records@)),
            forall|i: int| 0 <= i < r.entries().len() ==> #[trigger] r.entries()[i].wf(),
    {
        let mut entries: Vec<Entry> = Vec::new();
        let mut i: usize = 0;
        while i < records.len()
            invariant
                i <= records@.len(),
                forall|k: int| 0 <= k < entries@.len() ==> #[trigger] entries@[k].wf(),
                entries@.map_values(|e: Entry| e.data@) == compiling(
                    data_views(records@).take(i as int),
                ),
            decreases records@.len() - i,
        {
            let d = &records[i];
            let ghost before = entries@;
            proof {
                assert(data_views(records@).take(i + 1).drop_last() =~= data_views(
                    records@,
                ).take(i as int));
            }
            match TextRegex::compile(d.regex.as_str()) {
                Ok(anchored) => {
                    let bare = strip_anchors(d.regex.as_str());
                    let boundaryless = match TextRegex::compile(bare.as_str()) {
                        Ok(re) => Some(re),
                        Err(_) => None,
                    };
                    let anchored_bytes = match BytesRegex::compile(d.regex.as_str()) {
                        Ok(re) => Some(re),
                        Err(_) => None,
                    };
                    let boundaryless_bytes = match BytesRegex::compile(bare.as_str()) {
                        Ok(re) => Some(re),
                        Err(_) => None,
                    };
                    entries.push(
                        Entry {
                            data: d.clone(),
                            anchored,
                            boundaryless,
                            anchored_bytes,
                            boundaryless_bytes,
                        },
                    );
                    proof {
                        assert(entries@.map_values(|e: Entry| e.data@) =~= before.map_values(
                            |e: Entry| e.data@,
                        ).push(records@[i as int]@));
                    }
                },
                Err(_) => {},
            }
            i = i + 1;
        }
        proof {
            assert(data_views(records@).take(records@.len() as int) =~= data_views(records@));
        }
        Catalog { entries }
    }

    /// The number of entries.
    pub fn len(&self) -> (n: usize)
        ensures
            n == self.entries().len(),
    {
        self.entries.len()
    }

    /// The entry at priority position `i`.
    pub fn entry(&self, i: usize) -> (e: &Entry)
        requires
            i < self.entries().len(),
        ensures
            *e == self.entries()[i as int],
            e.wf(),
    {
        proof {
            use_type_invariant(self);
        }
        &self.entries[i]
    }
}

/// A record is in the catalog exactly when its authored pattern compiles:
/// whether its boundaryless variant compiles has no bearing on it.
pub proof fn lemma_catalog_membership(recs: Seq<DataView>, d: DataView)
    ensures
        compiling(recs).contains(d) <==> (recs.contains(d) && regex_compiles(d.regex@)),
    decreases recs.len(),
{
    if recs.len() > 0 {
        let init = recs.drop_last();
        lemma_catalog_membership(init, d);
        assert(recs =~= init.push(recs.last()));
        if recs.contains(d) && d != recs.last() {
            let k = choose|k: int| 0 <= k < recs.len() && recs[k] == d;
            assert(init[k] == d);
        }
        if init.contains(d) {
            let k = choose|k: int| 0 <= k < init.len() && init[k] == d;
            assert(recs[k] == d);
        }
        if regex_compiles(recs.last().regex@) {
            let prev = compiling(init);
            assert(prev.push(recs.last())[prev.len() as int] == recs.last());
            if prev.contains(d) {
                let k = choose|k: int| 0 <= k < prev.len() && prev[k] == d;
                assert(prev.push(recs.last())[k] == d);
            }
            if prev.push(recs.last()).contains(d) && d != recs.last() {
                let k = choose|k: int| 0 <= k < prev.len() + 1 && prev.push(recs.last())[k] == d;
                assert(prev[k] == d);
            }
        }
        assert(recs[recs.len() - 1] == recs.last());
    }
}

} // verus!
