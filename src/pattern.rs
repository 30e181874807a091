//! Regular expressions of the `regex` crate. What a search-and-replace
//! returns is named here; the transformations are stated over those names.

use vstd::prelude::*;

verus! {

#[verifier::external_type_specification]
#[verifier::external_body]
pub struct ExRegex(regex::Regex);

/// Whether `regex::Regex::new` accepts the pattern.
pub uninterp spec fn regex_compiles(pattern: Seq<char>) -> bool;

/// What `regex::Regex::replace_all` returns for a compiled pattern, a text
/// and a replacement template (with `$1`-style group references expanded).
pub uninterp spec fn regex_replace_all(pattern: Seq<char>, text: Seq<char>, rep: Seq<char>) -> Seq<
    char,
>;

/// What `regex::Regex::replace` returns: only the leftmost match replaced.
pub uninterp spec fn regex_replace_first(pattern: Seq<char>, text: Seq<char>, rep: Seq<char>) -> Seq<
    char,
>;

/// A compiled regular expression together with the pattern it was built
/// from. Only `compile` makes one, so the two always agree.
pub struct TextPattern {
    source: String,
    re: regex::Regex,
}

impl TextPattern {
    /// The pattern this expression was compiled from.
    pub closed spec fn source(&self) -> Seq<char> {
        self.source@
    }
}

/// Relies on `regex::Regex::new`: whether a pattern compiles depends on the
/// pattern alone.
#[verifier::external_body]
pub(crate) fn compile(pattern: &str) -> (r: Option<TextPattern>)
    ensures
        r is Some <==> regex_compiles(pattern@),
        r matches Some(p) ==> p.source() == pattern@,
{
    match regex::Regex::new(pattern) {
        Ok(re) => Some(TextPattern { source: pattern.to_string(), re }),
        Err(_) => None,
    }
}

/// Relies on `regex::Regex::replace_all`.
#[verifier::external_body]
pub(crate) fn replace_all(p: &TextPattern, text: &str, rep: &str) -> (r: String)
    ensures
        r@ == regex_replace_all(p.source(), text@, rep@),
{
    p.re.replace_all(text, rep).into_owned()
}

/// Relies on `regex::Regex::replace`.
#[verifier::external_body]
pub(crate) fn replace_first(p: &TextPattern, text: &str, rep: &str) -> (r: String)
    ensures
        r@ == regex_replace_first(p.source(), text@, rep@),
{
    p.re.replace(text, rep).into_owned()
}

/// The result of replacing every match of `pattern` in `text` by `rep`, or
/// `text` unchanged where the pattern does not compile.
pub open spec fn regex_substituted(pattern: Seq<char>, text: Seq<char>, rep: Seq<char>) -> Seq<
    char,
> {
    if regex_compiles(pattern) {
        regex_replace_all(pattern, text, rep)
    } else {
        text
    }
}

/// The same with only the leftmost match replaced.
pub open spec fn regex_substituted_first(pattern: Seq<char>, text: Seq<char>, rep: Seq<char>) -> Seq<
    char,
> {
    if regex_compiles(pattern) {
        regex_replace_first(pattern, text, rep)
    } else {
        text
    }
}

/// Replaces every match of `pattern` in `text` by `rep`; an invalid pattern
/// leaves the text as it is.
pub fn substitute_all(pattern: &str, text: &str, rep: &str) -> (r: String)
    ensures
        r@ == regex_substituted(pattern@, text@, rep@),
{
    match compile(pattern) {
        Some(p) => replace_all(&p, text, rep),
        None => text.to_owned(),
    }
}

/// Replaces the leftmost match of `pattern` in `text` by `rep`; an invalid
/// pattern leaves the text as it is.
pub fn substitute_first(pattern: &str, text: &str, rep: &str) -> (r: String)
    ensures
        r@ == regex_substituted_first(pattern@, text@, rep@),
{
    match compile(pattern) {
        Some(p) => replace_first(&p, text, rep),
        None => text.to_owned(),
    }
}

} // verus!
