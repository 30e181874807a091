//! The logic behind the dashboard: the transformations offered under each
//! category, and the live preview of a recipe. Drawing the window is left to
//! the caller.

use crate::recipe::{RecipeId, RecipeManager, Transformation};
use crate::text::same_str;
use vstd::prelude::*;

verus! {

/// The tabs of the dashboard.
#[derive(Debug, Clone, Copy, PartialEq, Eq, Structural)]
pub enum DashboardTab {
    Recipes,
    Settings,
    History,
    About,
}

/// The parameterless transformations offered under category `c`.
pub open spec fn category_members(c: Seq<char>) -> Seq<Transformation> {
    if c == "Whitespace"@ {
        seq![
            Transformation::NormalizeWhitespace,
            Transformation::TrimLines,
            Transformation::RemoveEmptyLines,
        ]
    } else if c == "Case Conversion"@ {
        seq![
            Transformation::ToLowercase,
            Transformation::ToUppercase,
            Transformation::ToTitleCase,
            Transformation::ToSentenceCase,
            Transformation::ToCamelCase,
            Transformation::ToPascalCase,
            Transformation::ToSnakeCase,
            Transformation::ToScreamingSnakeCase,
            Transformation::ToKebabCase,
        ]
    } else if c == "Line Operations"@ {
        seq![
            Transformation::RemoveDuplicateLines,
            Transformation::SortLines,
            Transformation::SortLinesReverse,
            Transformation::ReverseLines,
            Transformation::AddLineNumbers,
            Transformation::RemoveLineNumbers,
            Transformation::ToUnixLineEndings,
            Transformation::ToWindowsLineEndings,
        ]
    } else if c == "Character Cleanup"@ {
        seq![
            Transformation::FixSmartQuotes,
            Transformation::RemoveNonAscii,
            Transformation::NormalizeUnicode,
            Transformation::RemoveEmojis,
            Transformation::StripFormatting,
        ]
    } else if c == "Content Removal"@ {
        seq![
            Transformation::RemoveUrls,
            Transformation::RemoveEmails,
            Transformation::RemovePhoneNumbers,
            Transformation::RemoveMarkdown,
        ]
    } else if c == "HTML"@ {
        seq![Transformation::EncodeHtmlEntities, Transformation::DecodeHtmlEntities]
    } else if c == "URL"@ {
        seq![Transformation::Slugify]
    } else {
        Seq::empty()
    }
}

/// The parameterless transformations offered under a category; an unknown
/// category offers none.
pub fn get_transformations_for_category(category: &str) -> (r: Vec<Transformation>)
    ensures
        r@ == category_members(category@),
{
    if same_str(category, "Whitespace") {
        vec![
            Transformation::NormalizeWhitespace,
            Transformation::TrimLines,
            Transformation::RemoveEmptyLines,
        ]
    } else if same_str(category, "Case Conversion") {
        vec![
            Transformation::ToLowercase,
            Transformation::ToUppercase,
            Transformation::ToTitleCase,
            Transformation::ToSentenceCase,
            Transformation::ToCamelCase,
            Transformation::ToPascalCase,
            Transformation::ToSnakeCase,
            Transformation::ToScreamingSnakeCase,
            Transformation::ToKebabCase,
        ]
    } else if same_str(category, "Line Operations") {
        vec![
            Transformation::RemoveDuplicateLines,
            Transformation::SortLines,
            Transformation::SortLinesReverse,
            Transformation::ReverseLines,
            Transformation::AddLineNumbers,
            Transformation::RemoveLineNumbers,
            Transformation::ToUnixLineEndings,
            Transformation::ToWindowsLineEndings,
        ]
    } else if same_str(category, "Character Cleanup") {
        vec![
            Transformation::FixSmartQuotes,
            Transformation::RemoveNonAscii,
            Transformation::NormalizeUnicode,
            Transformation::RemoveEmojis,
            Transformation::StripFormatting,
        ]
    } else if same_str(category, "Content Removal") {
        vec![
            Transformation::RemoveUrls,
            Transformation::RemoveEmails,
            Transformation::RemovePhoneNumbers,
            Transformation::RemoveMarkdown,
        ]
    } else if same_str(category, "HTML") {
        vec![Transformation::EncodeHtmlEntities, Transformation::DecodeHtmlEntities]
    } else if same_str(category, "URL") {
        vec![Transformation::Slugify]
    } else {
        Vec::new()
    }
}

/// What the selected recipe makes of the sample input: `None` when no
/// recipe is selected or none has the selected identifier.
pub fn preview(manager: &RecipeManager, selected: Option<RecipeId>, input: &str) -> (r: Option<
    String,
>)
    ensures
        selected is None ==> r is None,
        selected matches Some(id) ==> (r is None <==> (forall|k: int|
            0 <= k < manager.recipes@.len() ==> (#[trigger] manager.recipes@[k]).id != id)),
        selected matches Some(id) ==> (r matches Some(out) ==> exists|k: int|
            crate::recipe::first_where(manager.recipes@, k, |q: crate::recipe::Recipe| q.id == id)
                && out@ == manager.recipes@[k].spec_apply(input@)),
{
    match selected {
        None => None,
        Some(id) => match manager.get_recipe(id) {
            Some(recipe) => Some(recipe.apply(input)),
            None => None,
        },
    }
}

} // verus!
