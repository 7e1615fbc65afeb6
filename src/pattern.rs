//! Pattern records and the boundary transform that derives a pattern's
//! anchor-free variant.

use vstd::prelude::*;
use vstd::string::*;
use crate::regex_api::push_char;

verus! {

/// One catalog record: a named regular expression with its metadata.
///
/// `rarity` is measured in thousandths: 0 is the most common kind of
/// string, 1000 the most specific.
pub struct Data {
    pub name: String,
    pub regex: String,
    pub plural_name: bool,
    pub description: Option<String>,
    pub rarity: u16,
    pub url: Option<String>,
    pub tags: Vec<String>,
}

/// The value of a record, with its tag list as a sequence.
pub struct DataView {
    pub name: String,
    pub regex: String,
    pub plural_name: bool,
    pub description: Option<String>,
    pub rarity: u16,
    pub url: Option<String>,
    pub tags: Seq<String>,
}

impl View for Data {
    type V = DataView;

    open spec fn view(&self) -> DataView {
        DataView {
            name: self.name,
            regex: self.regex,
            plural_name: self.plural_name,
            description: self.description,
            rarity: self.rarity,
            url: self.url,
            tags: self.tags@,
        }
    }
}

impl Clone for Data {
    fn clone(&self) -> (r: Self)
        ensures
            r@ == self@,
    {
        let tags = self.tags.clone();
        assert(tags@ =~= self.tags@);
        Data {
            name: self.name.clone(),
            regex: self.regex.clone(),
            plural_name: self.plural_name,
            description: self.description.clone(),
            rarity: self.rarity,
            url: self.url.clone(),
            tags,
        }
    }
}

/// Where the scanner stands between two characters of a pattern.
///
/// `escaped`: the previous character was an unpaired backslash. `depth`:
/// how many character classes are open. `opened`: 1 right after a class's
/// `[`, 2 right after its `[^`, 0 otherwise; there a `]` is a literal and
/// does not close the class.
pub struct ScanState {
    pub escaped: bool,
    pub depth: nat,
    pub opened: nat,
}

/// The state at the start of a pattern.
pub open spec fn initial_state() -> ScanState {
    ScanState { escaped: false, depth: 0, opened: 0 }
}

/// A state the scanner can be in: outside every class nothing is open.
pub open spec fn reachable(st: ScanState) -> bool {
    st.depth == 0 ==> st.opened == 0
}

/// Whether `c`, read in state `st`, is kept: only an unescaped `^` or `$`
/// outside every class is dropped.
pub open spec fn keeps(c: char, st: ScanState) -> bool {
    !(!st.escaped && st.depth == 0 && (c == '^' || c == '$'))
}

/// The state after reading `c` in state `st`.
///
/// An escaped character is taken as it is; a backslash escapes the next
/// character; inside a class a leading `]` (after `[` or `[^`) is a
/// literal, a `^` right after `[` negates, `[` opens a nested class and any
/// other `]` closes one; at top level `[` opens a class.
pub open spec fn next_state(c: char, st: ScanState) -> ScanState {
    if st.escaped {
        ScanState { escaped: false, depth: st.depth, opened: 0 }
    } else if c == '\\' {
        ScanState { escaped: true, depth: st.depth, opened: 0 }
    } else if st.depth > 0 {
        if st.opened > 0 && c == ']' {
            ScanState { escaped: false, depth: st.depth, opened: 0 }
        } else if st.opened == 1 && c == '^' {
            ScanState { escaped: false, depth: st.depth, opened: 2 }
        } else if c == '[' {
            ScanState { escaped: false, depth: st.depth + 1, opened: 1 }
        } else if c == ']' {
            ScanState { escaped: false, depth: (st.depth - 1) as nat, opened: 0 }
        } else {
            ScanState { escaped: false, depth: st.depth, opened: 0 }
        }
    } else if c == '[' {
        ScanState { escaped: false, depth: 1, opened: 1 }
    } else {
        ScanState { escaped: false, depth: 0, opened: 0 }
    }
}

/// What is left of `s`, read from state `st`, once every top-level anchor
/// is removed.
pub open spec fn strip_from(s: Seq<char>, st: ScanState) -> Seq<char>
    decreases s.len(),
{
    if s.len() == 0 {
        Seq::empty()
    } else {
        let c = s[0];
        let tail = strip_from(s.drop_first(), next_state(c, st));
        if keeps(c, st) {
            seq![c] + tail
        } else {
            tail
        }
    }
}

/// The boundaryless variant of an authored pattern.
pub open spec fn stripped(s: Seq<char>) -> Seq<char> {
    strip_from(s, initial_state())
}

/// Stripping leaves no top-level anchor behind: stripping the result again,
/// from the same scanner state, changes nothing.
pub proof fn lemma_strip_from_idempotent(s: Seq<char>, st: ScanState)
    requires
        reachable(st),
    ensures
        strip_from(strip_from(s, st), st) == strip_from(s, st),
    decreases s.len(),
{
    if s.len() > 0 {
        let c = s[0];
        let nx = next_state(c, st);
        lemma_strip_from_idempotent(s.drop_first(), nx);
        let out = strip_from(s.drop_first(), nx);
        if keeps(c, st) {
            assert((seq![c] + out)[0] == c);
            assert((seq![c] + out).drop_first() =~= out);
        } else {
            assert(st == nx);
        }
    }
}

/// The boundaryless variant of a pattern is its own boundaryless variant.
pub proof fn lemma_stripped_idempotent(s: Seq<char>)
    ensures
        stripped(stripped(s)) == stripped(s),
{
    lemma_strip_from_idempotent(s, initial_state());
}

/// Removes the top-level `^` and `$` anchors of `pattern`, keeping escaped
/// anchors and anchors inside character classes.
pub fn strip_anchors(pattern: &str) -> (r: String)
    ensures
        r@ == stripped(pattern@),
{
    let n = pattern.unicode_len();
    let mut out = String::new();
    let mut escaped = false;
    let mut depth: usize = 0;
    let mut opened: u8 = 0;
    let mut i: usize = 0;
    assert(pattern@.skip(0) =~= pattern@);
    assert(out@ + stripped(pattern@) =~= stripped(pattern@));
    while i < n
        invariant
            n == pattern@.len(),
            i <= n,
            depth <= i,
            opened <= 2,
            out@ + strip_from(
                pattern@.skip(i as int),
                ScanState { escaped, depth: depth as nat, opened: opened as nat },
            ) == stripped(pattern@),
        decreases n - i,
    {
        let c = pattern.get_char(i);
        let ghost rest = pattern@.skip(i as int);
        let ghost st = ScanState { escaped, depth: depth as nat, opened: opened as nat };
        assert(rest[0] == c);
        assert(rest.drop_first() =~= pattern@.skip(i + 1));
        if escaped || depth > 0 || !(c == '^' || c == '$') {
            push_char(&mut out, c);
        }
        if escaped {
            escaped = false;
            opened = 0;
        } else if c == '\\' {
            escaped = true;
            opened = 0;
        } else if depth > 0 {
            if opened > 0 && c == ']' {
                opened = 0;
            } else if opened == 1 && c == '^' {
                opened = 2;
            } else if c == '[' {
                depth = depth + 1;
                opened = 1;
            } else if c == ']' {
                depth = depth - 1;
                opened = 0;
            } else {
                opened = 0;
            }
        } else if c == '[' {
            depth = 1;
            opened = 1;
        } else {
            opened = 0;
        }
        proof {
            let nx = ScanState { escaped, depth: depth as nat, opened: opened as nat };
            assert(nx == next_state(c, st));
            assert(out@ + strip_from(pattern@.skip(i + 1), nx) =~= stripped(pattern@));
        }
        i = i + 1;
    }
    proof {
        assert(pattern@.skip(n as int) =~= Seq::<char>::empty());
        assert(out@ =~= stripped(pattern@));
    }
    out
}

} // verus!
