//! The regular-expression engine this library runs on, seen through the
//! names below. What a regex matches is the engine's business; the library
//! only relies on the answer being a function of the pattern and the haystack.

use vstd::prelude::*;

verus! {

#[verifier::external_type_specification]
#[verifier::external_body]
pub struct ExTextRegex(regex::Regex);

#[verifier::external_type_specification]
#[verifier::external_body]
pub struct ExBytesRegex(regex::bytes::Regex);

#[verifier::external_type_specification]
#[verifier::external_body]
pub struct ExRegexError(regex::Error);

/// Whether the text engine accepts `pattern`.
pub uninterp spec fn regex_compiles(pattern: Seq<char>) -> bool;

/// Whether the text engine finds `pattern` anywhere in `haystack`.
pub uninterp spec fn regex_finds(pattern: Seq<char>, haystack: Seq<char>) -> bool;

/// Whether the byte engine accepts `pattern`.
pub uninterp spec fn bytes_regex_compiles(pattern: Seq<char>) -> bool;

/// Whether the byte engine finds `pattern` anywhere in `haystack`.
pub uninterp spec fn bytes_regex_finds(pattern: Seq<char>, haystack: Seq<u8>) -> bool;

/// A compiled text regex, together with the pattern it was compiled from.
/// Only `TextRegex::compile` builds one, so the two always agree.
pub struct TextRegex {
    source: String,
    re: regex::Regex,
}

/// A compiled byte regex, together with the pattern it was compiled from.
/// Only `BytesRegex::compile` builds one, so the two always agree.
pub struct BytesRegex {
    source: String,
    re: regex::bytes::Regex,
}

impl TextRegex {
    /// The pattern this regex was compiled from.
    pub closed spec fn source(&self) -> Seq<char> {
        self.source@
    }

    /// Relies on `regex::Regex::new`: it succeeds exactly on the patterns the
    /// engine accepts, and the compiled value is kept with its pattern.
    #[verifier::external_body]
    pub fn compile(pattern: &str) -> (r: Result<TextRegex, regex::Error>)
        ensures
            r is Ok <==> regex_compiles(pattern@),
            r is Ok ==> r->Ok_0.source() == pattern@,
    {
        match regex::Regex::new(pattern) {
            Ok(re) => Ok(TextRegex { source: pattern.to_string(), re }),
            Err(e) => Err(e),
        }
    }

    /// Relies on `regex::Regex::is_match`: true exactly when the regex
    /// matches somewhere in the haystack.
    #[verifier::external_body]
    pub fn is_match(&self, haystack: &str) -> (r: bool)
        ensures
            r == regex_finds(self.source(), haystack@),
    {
        self.re.is_match(haystack)
    }
}

impl BytesRegex {
    /// The pattern this regex was compiled from.
    pub closed spec fn source(&self) -> Seq<char> {
        self.source@
    }

    /// Relies on `regex::bytes::Regex::new`: it succeeds exactly on the
    /// patterns the byte engine accepts, and the compiled value is kept with
    /// its pattern.
    #[verifier::external_body]
    pub fn compile(pattern: &str) -> (r: Result<BytesRegex, regex::Error>)
        ensures
            r is Ok <==> bytes_regex_compiles(pattern@),
            r is Ok ==> r->Ok_0.source() == pattern@,
    {
        match regex::bytes::Regex::new(pattern) {
            Ok(re) => Ok(BytesRegex { source: pattern.to_string(), re }),
            Err(e) => Err(e),
        }
    }

    /// Relies on `regex::bytes::Regex::is_match`: true exactly when the regex
    /// matches somewhere in the haystack.
    #[verifier::external_body]
    pub fn is_match(&self, haystack: &[u8]) -> (r: bool)
        ensures
            r == bytes_regex_finds(self.source(), haystack@),
    {
        self.re.is_match(haystack)
    }
}

/// Relies on `String::push`: the character is appended at the end.
#[verifier::external_body]
pub(crate) fn push_char(s: &mut String, c: char)
    ensures
        final(s)@ == old(s)@.push(c),
{
    s.push(c);
}

} // verus!
