//! Pulling candidate strings out of a byte blob: the runs of visible,
//! non-whitespace ASCII characters.

use vstd::prelude::*;
use crate::regex_api::push_char;

verus! {

/// The shortest run emitted when a run is ended by a non-graphic byte.
pub const MIN_RUN: usize = 4;

/// What to do with the run still open when the input ends.
#[derive(Clone, Copy, Debug, PartialEq, Eq, Structural)]
pub enum TailPolicy {
    /// The last run is held to the same minimum length as every other run.
    Uniform,
    /// The last run is always emitted, whatever its length, even empty.
    KeepTail,
}

/// Whether `b` is a visible, non-whitespace ASCII character.
pub open spec fn graphic(b: u8) -> bool {
    0x21 <= b <= 0x7e
}

/// The character a graphic byte stands for.
pub open spec fn ascii_char(b: u8) -> char {
    b as char
}

/// The runs found in `b` when a run `buf` is already open: a run ends at
/// each non-graphic byte and is kept when it has at least `MIN_RUN`
/// characters; the run open at the end is kept as `policy` says.
pub open spec fn runs(b: Seq<u8>, buf: Seq<char>, policy: TailPolicy) -> Seq<Seq<char>>
    decreases b.len(),
{
    if b.len() == 0 {
        if policy == TailPolicy::KeepTail || buf.len() >= MIN_RUN {
            seq![buf]
        } else {
            Seq::empty()
        }
    } else if graphic(b[0]) {
        runs(b.drop_first(), buf.push(ascii_char(b[0])), policy)
    } else {
        let done: Seq<Seq<char>> = if buf.len() >= MIN_RUN {
            seq![buf]
        } else {
            Seq::empty()
        };
        done + runs(b.drop_first(), Seq::empty(), policy)
    }
}

/// The candidate strings of a byte blob, in order.
pub open spec fn candidates(b: Seq<u8>, policy: TailPolicy) -> Seq<Seq<char>> {
    runs(b, Seq::empty(), policy)
}

/// The views of a list of strings.
pub open spec fn string_views(v: Seq<String>) -> Seq<Seq<char>> {
    v.map_values(|s: String| s@)
}

/// Extracts the candidate strings of `bytes`.
pub fn extract_strings(bytes: &[u8], policy: TailPolicy) -> (r: Vec<String>)
    ensures
        string_views(r@) == candidates(bytes@, policy),
{
    let mut out: Vec<String> = Vec::new();
    let mut buffer = String::new();
    let mut i: usize = 0;
    assert(bytes@.skip(0) =~= bytes@);
    assert(string_views(out@) + candidates(bytes@, policy) =~= candidates(bytes@, policy));
    while i < bytes.len()
        invariant
            i <= bytes@.len(),
            string_views(out@) + runs(bytes@.skip(i as int), buffer@, policy) == candidates(
                bytes@,
                policy,
            ),
        decreases bytes@.len() - i,
    {
        let c = bytes[i];
        let ghost rest = bytes@.skip(i as int);
        let ghost prev = out@;
        assert(rest[0] == c);
        assert(rest.drop_first() =~= bytes@.skip(i + 1));
        if 0x21 <= c && c <= 0x7e {
            push_char(&mut buffer, c as char);
        } else {
            if buffer.unicode_len() >= MIN_RUN {
                let ghost run = buffer@;
                out.push(buffer);
                proof {
                    assert(string_views(out@) =~= string_views(prev) + seq![run]);
                }
            }
            buffer = String::new();
        }
        proof {
            assert(string_views(out@) + runs(bytes@.skip(i + 1), buffer@, policy) =~= candidates(
                bytes@,
                policy,
            ));
        }
        i = i + 1;
    }
    let ghost prev = out@;
    let ghost run = buffer@;
    assert(bytes@.skip(i as int).len() == 0);
    if policy == TailPolicy::KeepTail || buffer.unicode_len() >= MIN_RUN {
        out.push(buffer);
        proof {
            assert(string_views(out@) =~= string_views(prev) + seq![run]);
        }
    } else {
        assert(string_views(out@) =~= string_views(prev) + Seq::<Seq<char>>::empty());
    }
    out
}

/// The text of a run of ASCII bytes.
pub open spec fn ascii_text(b: Seq<u8>) -> Seq<char> {
    b.map_values(|x: u8| ascii_char(x))
}

/// A run of graphic bytes only grows the open run.
proof fn lemma_graphic_prefix(b: Seq<u8>, rest: Seq<u8>, buf: Seq<char>, policy: TailPolicy)
    requires
        forall|i: int| 0 <= i < b.len() ==> graphic(#[trigger] b[i]),
    ensures
        runs(b + rest, buf, policy) == runs(rest, buf + ascii_text(b), policy),
    decreases b.len(),
{
    if b.len() == 0 {
        assert(b + rest =~= rest);
        assert(buf + ascii_text(b) =~= buf);
    } else {
        assert((b + rest)[0] == b[0]);
        assert((b + rest).drop_first() =~= b.drop_first() + rest);
        lemma_graphic_prefix(b.drop_first(), rest, buf.push(ascii_char(b[0])), policy);
        assert(buf.push(ascii_char(b[0])) + ascii_text(b.drop_first()) =~= buf + ascii_text(b));
    }
}

/// A long run, a separator, then a short run: the long run is a candidate
/// under either policy, and the short trailing run is one only when the
/// tail is kept.
pub proof fn lemma_long_then_short(a: Seq<u8>, sep: u8, b: Seq<u8>)
    requires
        a.len() >= MIN_RUN,
        b.len() < MIN_RUN,
        forall|i: int| 0 <= i < a.len() ==> graphic(#[trigger] a[i]),
        forall|i: int| 0 <= i < b.len() ==> graphic(#[trigger] b[i]),
        !graphic(sep),
    ensures
        candidates(a + seq![sep] + b, TailPolicy::Uniform) == seq![ascii_text(a)],
        candidates(a + seq![sep] + b, TailPolicy::KeepTail) == seq![ascii_text(a), ascii_text(b)],
{
    let input = a + seq![sep] + b;
    let rest = seq![sep] + b;
    assert(input =~= a + rest);
    assert(rest[0] == sep);
    assert(rest.drop_first() =~= b + Seq::<u8>::empty());
    assert(Seq::<char>::empty() + ascii_text(a) =~= ascii_text(a));
    assert(Seq::<char>::empty() + ascii_text(b) =~= ascii_text(b));
    lemma_graphic_prefix(a, rest, Seq::empty(), TailPolicy::Uniform);
    lemma_graphic_prefix(a, rest, Seq::empty(), TailPolicy::KeepTail);
    lemma_graphic_prefix(b, Seq::empty(), Seq::empty(), TailPolicy::Uniform);
    lemma_graphic_prefix(b, Seq::empty(), Seq::empty(), TailPolicy::KeepTail);
    assert(seq![ascii_text(a)] + Seq::<Seq<char>>::empty() =~= seq![ascii_text(a)]);
    assert(seq![ascii_text(a)] + seq![ascii_text(b)] =~= seq![ascii_text(a), ascii_text(b)]);
}

} // verus!
