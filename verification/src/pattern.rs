//! Regular expressions, compiled and matched by the `regex` crate.
//!
//! What a pattern matches is the `regex` crate's business: this library names
//! it (`regex_compiles`, `regex_matches`) and states its own behaviour in terms
//! of those names.

use vstd::prelude::*;

verus! {

/// The `regex` crate's compiled regular expression.
#[verifier::external_type_specification]
#[verifier::external_body]
pub struct ExRegex(regex::Regex);

/// The `regex` crate's error for a pattern it cannot compile.
#[verifier::external_type_specification]
#[verifier::external_body]
pub struct ExRegexError(regex::Error);

/// Whether `regex::Regex::new` compiles `pattern` (it refuses invalid syntax and
/// patterns that would exceed its default size limit).
pub uninterp spec fn regex_compiles(pattern: Seq<char>) -> bool;

/// Whether the regular expression compiled from `pattern` matches somewhere in
/// `haystack`, as `regex::Regex::is_match` decides it.
pub uninterp spec fn regex_matches(pattern: Seq<char>, haystack: Seq<char>) -> bool;

/// A character that `regex::escape` prefixes with a backslash.
pub open spec fn is_meta_character(c: char) -> bool {
    c == '\\' || c == '.' || c == '+' || c == '*' || c == '?' || c == '(' || c == ')' || c == '|'
        || c == '[' || c == ']' || c == '{' || c == '}' || c == '^' || c == '$' || c == '#' || c
        == '&' || c == '-' || c == '~'
}

/// `text` with a backslash before each meta character: a pattern that matches
/// `text` literally.
pub open spec fn escaped(text: Seq<char>) -> Seq<char>
    decreases text.len(),
{
    if text.len() == 0 {
        Seq::empty()
    } else {
        let c = text[0];
        let head = if is_meta_character(c) {
            seq!['\\', c]
        } else {
            seq![c]
        };
        head + escaped(text.drop_first())
    }
}

/// `haystack` contains `text` as a contiguous run of characters.
pub open spec fn contains_literal(haystack: Seq<char>, text: Seq<char>) -> bool {
    exists|i: int|
        0 <= i && i + text.len() <= haystack.len() && #[trigger] haystack.subrange(i, i + text.len()) == text
}

/// A regular expression together with the pattern it was compiled from.
pub struct Pattern {
    source: String,
    regex: regex::Regex,
}

impl View for Pattern {
    type V = Seq<char>;

    /// The pattern this regular expression was compiled from.
    closed spec fn view(&self) -> Seq<char> {
        self.source@
    }
}

/// Compiles `pattern` with `regex::Regex::new`. The contract claims that the
/// call succeeds exactly when `regex_compiles` holds of the pattern, and that the
/// result remembers the pattern it came from.
#[verifier::external_body]
pub(crate) fn compile(pattern: &str) -> (r: Result<Pattern, regex::Error>)
    ensures
        r is Ok <==> regex_compiles(pattern@),
        r matches Ok(p) ==> p@ == pattern@,
{
    match regex::Regex::new(pattern) {
        Ok(regex) => Ok(Pattern { source: pattern.to_string(), regex }),
        Err(e) => Err(e),
    }
}

/// Asks `regex::Regex::is_match` whether the pattern matches anywhere in
/// `haystack`. The contract claims that the answer is `regex_matches` of the
/// pattern's source and the haystack.
#[verifier::external_body]
pub(crate) fn is_match(pattern: &Pattern, haystack: &str) -> (r: bool)
    ensures
        r == regex_matches(pattern@, haystack@),
{
    pattern.regex.is_match(haystack)
}

/// Escapes `text` with `regex::escape`. The contract claims what that function's
/// source shows: each meta character gets a backslash before it, and every other
/// character is kept as it is. It also claims what its documentation promises:
/// the result, once compiled, is a literal pattern, matching exactly the
/// haystacks that contain `text`.
#[verifier::external_body]
pub(crate) fn escape(text: &str) -> (r: String)
    ensures
        r@ == escaped(text@),
        regex_compiles(r@) ==> forall|haystack: Seq<char>|
            #[trigger] regex_matches(r@, haystack) <==> contains_literal(haystack, text@),
{
    regex::escape(text)
}

/// Whether `pattern` compiles into a regular expression.
pub fn pattern_compiles(pattern: &str) -> (r: bool)
    ensures
        r == regex_compiles(pattern@),
{
    compile(pattern).is_ok()
}

} // verus!
