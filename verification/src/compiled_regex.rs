//! The calls into the `regex` crate that search makes.
//!
//! A `CompiledRegex` can only come from `compile`, which records the pattern it
//! was compiled from; what a search finds is stated of that pattern.

use vstd::prelude::*;

verus! {

#[verifier::external_type_specification]
#[verifier::external_body]
pub struct ExRegex(regex::Regex);

#[verifier::external_type_specification]
#[verifier::external_body]
pub struct ExRegexError(regex::Error);

/// Whether `regex::Regex::new` accepts the pattern.
pub uninterp spec fn regex_compiles(pattern: Seq<char>) -> bool;

/// The successive non-overlapping matches that a regex compiled from `pattern`
/// finds in `text`: byte offset, byte length and matched text of each.
pub uninterp spec fn regex_find_all(pattern: Seq<char>, text: Seq<char>) -> Seq<(usize, usize, Seq<char>)>;

/// The characters that have a meaning in a regex and are escaped to stand for
/// themselves.
pub open spec fn is_meta_character(c: char) -> bool {
    c == '\\' || c == '.' || c == '+' || c == '*' || c == '?' || c == '(' || c == ')' || c
        == '|' || c == '[' || c == ']' || c == '{' || c == '}' || c == '^' || c == '$' || c
        == '#' || c == '&' || c == '-' || c == '~'
}

/// The text with a backslash put before each meta character.
pub open spec fn regex_escaped(text: Seq<char>) -> Seq<char>
    decreases text.len(),
{
    if text.len() == 0 {
        Seq::empty()
    } else {
        let c = text.last();
        regex_escaped(text.drop_last()) + if is_meta_character(c) {
            seq!['\\', c]
        } else {
            seq![c]
        }
    }
}

/// The byte offset, byte length and text of a match.
pub open spec fn found_views(v: Seq<(usize, usize, String)>) -> Seq<(usize, usize, Seq<char>)> {
    v.map_values(|f: (usize, usize, String)| (f.0, f.1, f.2@))
}

/// A regex together with the pattern it was compiled from.
pub struct CompiledRegex {
    inner: regex::Regex,
    source: Ghost<Seq<char>>,
}

impl CompiledRegex {
    /// The pattern the regex was compiled from.
    pub closed spec fn source(&self) -> Seq<char> {
        self.source@
    }
}

/// `regex::Regex::new`, the only maker of a `CompiledRegex`. Its contract claims
/// that compiling succeeds or fails according to the pattern alone, and records
/// the pattern as the regex's source.
#[verifier::external_body]
pub(crate) fn compile(pattern: &str) -> (r: Result<CompiledRegex, regex::Error>)
    ensures
        r is Ok <==> regex_compiles(pattern@),
        r matches Ok(re) ==> re.source() == pattern@,
{
    match regex::Regex::new(pattern) {
        Ok(inner) => Ok(CompiledRegex { inner, source: Ghost(pattern@) }),
        Err(e) => Err(e),
    }
}

/// `regex::escape`. Its contract claims what the crate's source does: a backslash
/// before each meta character, every character kept in order.
#[verifier::external_body]
pub(crate) fn regex_escape(text: &str) -> (r: String)
    ensures
        r@ == regex_escaped(text@),
{
    regex::escape(text)
}

/// `regex::Regex::find_iter`, each match given as its `start()`, `len()` and
/// `as_str()`. The contract claims that the matches depend on the regex's source
/// pattern and the haystack alone, and, as the crate documents, that each match's
/// text is the haystack's bytes from its start for its length, that its start and
/// end fall on character boundaries, and that the matches come in order without
/// overlapping.
#[verifier::external_body]
pub(crate) fn find_matches(re: &CompiledRegex, text: &str) -> (r: Vec<(usize, usize, String)>)
    ensures
        found_views(r@) == regex_find_all(re.source(), text@),
        forall|i: int|
            0 <= i < r@.len() ==> {
                let f = #[trigger] r@[i];
                &&& f.0 + f.1 <= vstd::utf8::encode_utf8(text@).len()
                &&& vstd::utf8::encode_utf8(f.2@) == vstd::utf8::encode_utf8(text@).subrange(
                    f.0 as int,
                    f.0 + f.1,
                )
                &&& vstd::utf8::is_char_boundary(vstd::utf8::encode_utf8(text@), f.0 as int)
                &&& vstd::utf8::is_char_boundary(vstd::utf8::encode_utf8(text@), f.0 + f.1)
            },
        forall|i: int, j: int|
            0 <= i < j < r@.len() ==> #[trigger] r@[i].0 + r@[i].1 <= #[trigger] r@[j].0,
{
    re.inner.find_iter(text).map(|m| (m.start(), m.len(), m.as_str().to_string())).collect()
}

} // verus!
