//! Unicode tables that the standard library and the normalization crate
//! hold: case mapping, the `Alphabetic` property and composition. Their
//! results are named here, and the transformations are stated over those
//! names.

use unicode_normalization::UnicodeNormalization;
use vstd::prelude::*;

verus! {

/// The full Unicode lower-case mapping of a text, as `str::to_lowercase`
/// computes it.
pub uninterp spec fn lower_of(s: Seq<char>) -> Seq<char>;

/// The full Unicode upper-case mapping of a text, as `str::to_uppercase`
/// computes it.
pub uninterp spec fn upper_of(s: Seq<char>) -> Seq<char>;

/// The Unicode `Alphabetic` property, as `char::is_alphabetic` tests it.
pub uninterp spec fn alphabetic(c: char) -> bool;

/// The canonical composition (NFC) of a text.
pub uninterp spec fn nfc_of(s: Seq<char>) -> Seq<char>;

/// Relies on `str::to_lowercase`: the result depends on the characters alone.
#[verifier::external_body]
pub(crate) fn lowercase(s: &str) -> (r: String)
    ensures
        r@ == lower_of(s@),
{
    s.to_lowercase()
}

/// Relies on `str::to_uppercase`: the result depends on the characters alone.
#[verifier::external_body]
pub(crate) fn uppercase(s: &str) -> (r: String)
    ensures
        r@ == upper_of(s@),
{
    s.to_uppercase()
}

/// Relies on `char::is_alphabetic`: a fixed property of the character.
#[verifier::external_body]
pub(crate) fn is_alphabetic(c: char) -> (r: bool)
    ensures
        r == alphabetic(c),
{
    c.is_alphabetic()
}

/// Relies on `UnicodeNormalization::nfc` of the `unicode-normalization`
/// crate: the result depends on the characters alone.
#[verifier::external_body]
pub(crate) fn compose(s: &str) -> (r: String)
    ensures
        r@ == nfc_of(s@),
{
    s.nfc().collect()
}

} // verus!
