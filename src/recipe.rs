//! Transformations as values, and recipes: named, ordered lists of
//! transformations applied left to right.

use crate::pattern::{regex_substituted, substitute_all};
use crate::unicode::{lower_of, lowercase};
use crate::text::{
    chars_of, occurs_at, push_all, replace_chars, replaced, same_str, slice_chars, string_of,
};
use crate::transformers::{
    add_line_numbers, decode_html_entities, encode_html_entities, extract_numbers,
    fix_smart_quotes, join_lines, normalize_unicode, normalize_whitespace,
    remove_duplicate_lines, remove_emails, remove_emojis, remove_empty_lines,
    remove_line_numbers, remove_markdown, remove_non_ascii, remove_phone_numbers, remove_urls,
    reverse_lines, slugify, sort_lines, sort_lines_reverse, spaces_to_tabs,
    spec_add_line_numbers, spec_decode_html_entities, spec_encode_html_entities,
    spec_extract_numbers, spec_fix_smart_quotes, spec_join_lines, spec_normalize_unicode,
    spec_normalize_whitespace, spec_remove_duplicate_lines, spec_remove_emails,
    spec_remove_emojis, spec_remove_empty_lines, spec_remove_line_numbers, spec_remove_markdown,
    spec_remove_non_ascii, spec_remove_phone_numbers, spec_remove_urls, spec_reverse_lines,
    spec_slugify, spec_sort_lines, spec_sort_lines_reverse, spec_spaces_to_tabs,
    spec_split_to_lines, spec_strip_formatting, spec_tabs_to_spaces, spec_to_camel_case,
    spec_to_kebab_case, spec_to_lowercase, spec_to_pascal_case, spec_to_screaming_snake_case,
    spec_to_sentence_case, spec_to_snake_case, spec_to_title_case, spec_to_unix_line_endings,
    spec_to_uppercase, spec_to_windows_line_endings, spec_trim_lines, spec_wrap_lines,
    split_to_lines, strip_formatting, tabs_to_spaces, to_camel_case, to_kebab_case,
    to_lowercase, to_pascal_case, to_screaming_snake_case, to_sentence_case, to_snake_case,
    to_title_case, to_unix_line_endings, to_uppercase, to_windows_line_endings, trim_lines,
    wrap_lines,
};
use vstd::prelude::*;

verus! {

/// One transformation step; some carry a parameter.
#[derive(Debug, Clone, PartialEq, Eq)]
pub enum Transformation {
    // Whitespace operations
    NormalizeWhitespace,
    TrimLines,
    RemoveEmptyLines,

    // Case transformations
    ToLowercase,
    ToUppercase,
    ToTitleCase,
    ToSentenceCase,
    ToCamelCase,
    ToPascalCase,
    ToSnakeCase,
    ToScreamingSnakeCase,
    ToKebabCase,

    // Line operations
    RemoveDuplicateLines,
    SortLines,
    SortLinesReverse,
    ReverseLines,
    AddLineNumbers,
    RemoveLineNumbers,
    JoinLines { separator: String },
    SplitToLines { delimiter: String },
    WrapLines { width: usize },

    // Character cleanup
    FixSmartQuotes,
    RemoveNonAscii,
    NormalizeUnicode,
    RemoveEmojis,
    StripFormatting,

    // Tab/space operations
    TabsToSpaces { spaces: usize },
    SpacesToTabs { spaces_per_tab: usize },

    // Content removal
    RemoveUrls,
    RemoveEmails,
    RemovePhoneNumbers,
    RemoveMarkdown,

    // Line ending operations
    ToUnixLineEndings,
    ToWindowsLineEndings,

    // Extraction
    ExtractNumbers,

    // HTML operations
    EncodeHtmlEntities,
    DecodeHtmlEntities,

    // URL operations
    Slugify,

    // Custom regex replacement
    RegexReplace { pattern: String, replacement: String },

    // Find and replace
    FindReplace { find: String, replace: String },

    // Prefix/suffix
    AddPrefix { prefix: String },
    AddSuffix { suffix: String },
    RemovePrefix { prefix: String },
    RemoveSuffix { suffix: String },
}

/// `t` without `p` in front, or `t` itself if it does not start with `p`.
pub open spec fn without_prefix(t: Seq<char>, p: Seq<char>) -> Seq<char> {
    if p.is_prefix_of(t) {
        t.skip(p.len() as int)
    } else {
        t
    }
}

/// `t` without `s` at its end, or `t` itself if it does not end with `s`.
pub open spec fn without_suffix(t: Seq<char>, s: Seq<char>) -> Seq<char> {
    if s.is_suffix_of(t) {
        t.take(t.len() - s.len())
    } else {
        t
    }
}

/// `text` without `prefix` in front, if it starts with it.
fn strip_prefix_str(text: &str, prefix: &str) -> (r: String)
    ensures
        r@ == without_prefix(text@, prefix@),
{
    let v = chars_of(text);
    let p = chars_of(prefix);
    if occurs_at(&v, 0, &p) {
        assert(v@.skip(0) == v@);
        assert(v@.subrange(p.len() as int, v.len() as int) == v@.skip(p.len() as int));
        string_of(&slice_chars(&v, p.len(), v.len()))
    } else {
        assert(v@.skip(0) == v@);
        text.to_owned()
    }
}

/// `text` without `suffix` at its end, if it ends with it.
fn strip_suffix_str(text: &str, suffix: &str) -> (r: String)
    ensures
        r@ == without_suffix(text@, suffix@),
{
    let v = chars_of(text);
    let s = chars_of(suffix);
    if s.len() <= v.len() && occurs_at(&v, v.len() - s.len(), &s) {
        let k = v.len() - s.len();
        assert(v@.skip(k as int).subrange(0, s.len() as int) == v@.subrange(k as int, v.len() as int));
        assert(v@.subrange(0, k as int) == v@.take(k as int));
        string_of(&slice_chars(&v, 0, k))
    } else {
        text.to_owned()
    }
}

impl Transformation {
    /// The name shown to people.
    pub open spec fn spec_display_name(&self) -> Seq<char> {
        match self {
            Transformation::NormalizeWhitespace => "Normalize Whitespace"@,
            Transformation::TrimLines => "Trim Lines"@,
            Transformation::RemoveEmptyLines => "Remove Empty Lines"@,
            Transformation::ToLowercase => "lowercase"@,
            Transformation::ToUppercase => "UPPERCASE"@,
            Transformation::ToTitleCase => "Title Case"@,
            Transformation::ToSentenceCase => "Sentence case"@,
            Transformation::ToCamelCase => "camelCase"@,
            Transformation::ToPascalCase => "PascalCase"@,
            Transformation::ToSnakeCase => "snake_case"@,
            Transformation::ToScreamingSnakeCase => "SCREAMING_SNAKE_CASE"@,
            Transformation::ToKebabCase => "kebab-case"@,
            Transformation::RemoveDuplicateLines => "Remove Duplicate Lines"@,
            Transformation::SortLines => "Sort Lines (A-Z)"@,
            Transformation::SortLinesReverse => "Sort Lines (Z-A)"@,
            Transformation::ReverseLines => "Reverse Line Order"@,
            Transformation::AddLineNumbers => "Add Line Numbers"@,
            Transformation::RemoveLineNumbers => "Remove Line Numbers"@,
            Transformation::JoinLines { .. } => "Join Lines"@,
            Transformation::SplitToLines { .. } => "Split to Lines"@,
            Transformation::WrapLines { .. } => "Wrap Lines"@,
            Transformation::FixSmartQuotes => "Fix Smart Quotes"@,
            Transformation::RemoveNonAscii => "Remove Non-ASCII"@,
            Transformation::NormalizeUnicode => "Normalize Unicode"@,
            Transformation::RemoveEmojis => "Remove Emojis"@,
            Transformation::StripFormatting => "Strip All Formatting"@,
            Transformation::TabsToSpaces { .. } => "Tabs → Spaces"@,
            Transformation::SpacesToTabs { .. } => "Spaces → Tabs"@,
            Transformation::RemoveUrls => "Remove URLs"@,
            Transformation::RemoveEmails => "Remove Emails"@,
            Transformation::RemovePhoneNumbers => "Remove Phone Numbers"@,
            Transformation::RemoveMarkdown => "Remove Markdown"@,
            Transformation::ToUnixLineEndings => "Unix Line Endings (LF)"@,
            Transformation::ToWindowsLineEndings => "Windows Line Endings (CRLF)"@,
            Transformation::ExtractNumbers => "Extract Numbers"@,
            Transformation::EncodeHtmlEntities => "Encode HTML Entities"@,
            Transformation::DecodeHtmlEntities => "Decode HTML Entities"@,
            Transformation::Slugify => "Slugify (URL-safe)"@,
            Transformation::RegexReplace { .. } => "Regex Replace"@,
            Transformation::FindReplace { .. } => "Find & Replace"@,
            Transformation::AddPrefix { .. } => "Add Prefix"@,
            Transformation::AddSuffix { .. } => "Add Suffix"@,
            Transformation::RemovePrefix { .. } => "Remove Prefix"@,
            Transformation::RemoveSuffix { .. } => "Remove Suffix"@,
        }
    }

    /// The name shown to people.
    pub fn display_name(&self) -> (r: &'static str)
        ensures
            r@ == self.spec_display_name(),
    {
        match self {
            Transformation::NormalizeWhitespace => "Normalize Whitespace",
            Transformation::TrimLines => "Trim Lines",
            Transformation::RemoveEmptyLines => "Remove Empty Lines",
            Transformation::ToLowercase => "lowercase",
            Transformation::ToUppercase => "UPPERCASE",
            Transformation::ToTitleCase => "Title Case",
            Transformation::ToSentenceCase => "Sentence case",
            Transformation::ToCamelCase => "camelCase",
            Transformation::ToPascalCase => "PascalCase",
            Transformation::ToSnakeCase => "snake_case",
            Transformation::ToScreamingSnakeCase => "SCREAMING_SNAKE_CASE",
            Transformation::ToKebabCase => "kebab-case",
            Transformation::RemoveDuplicateLines => "Remove Duplicate Lines",
            Transformation::SortLines => "Sort Lines (A-Z)",
            Transformation::SortLinesReverse => "Sort Lines (Z-A)",
            Transformation::ReverseLines => "Reverse Line Order",
            Transformation::AddLineNumbers => "Add Line Numbers",
            Transformation::RemoveLineNumbers => "Remove Line Numbers",
            Transformation::JoinLines { .. } => "Join Lines",
            Transformation::SplitToLines { .. } => "Split to Lines",
            Transformation::WrapLines { .. } => "Wrap Lines",
            Transformation::FixSmartQuotes => "Fix Smart Quotes",
            Transformation::RemoveNonAscii => "Remove Non-ASCII",
            Transformation::NormalizeUnicode => "Normalize Unicode",
            Transformation::RemoveEmojis => "Remove Emojis",
            Transformation::StripFormatting => "Strip All Formatting",
            Transformation::TabsToSpaces { .. } => "Tabs → Spaces",
            Transformation::SpacesToTabs { .. } => "Spaces → Tabs",
            Transformation::RemoveUrls => "Remove URLs",
            Transformation::RemoveEmails => "Remove Emails",
            Transformation::RemovePhoneNumbers => "Remove Phone Numbers",
            Transformation::RemoveMarkdown => "Remove Markdown",
            Transformation::ToUnixLineEndings => "Unix Line Endings (LF)",
            Transformation::ToWindowsLineEndings => "Windows Line Endings (CRLF)",
            Transformation::ExtractNumbers => "Extract Numbers",
            Transformation::EncodeHtmlEntities => "Encode HTML Entities",
            Transformation::DecodeHtmlEntities => "Decode HTML Entities",
            Transformation::Slugify => "Slugify (URL-safe)",
            Transformation::RegexReplace { .. } => "Regex Replace",
            Transformation::FindReplace { .. } => "Find & Replace",
            Transformation::AddPrefix { .. } => "Add Prefix",
            Transformation::AddSuffix { .. } => "Add Suffix",
            Transformation::RemovePrefix { .. } => "Remove Prefix",
            Transformation::RemoveSuffix { .. } => "Remove Suffix",
        }
    }

    /// The group the transformation is listed under.
    pub open spec fn spec_category(&self) -> Seq<char> {
        match self {
            Transformation::NormalizeWhitespace => "Whitespace"@,
            Transformation::TrimLines => "Whitespace"@,
            Transformation::RemoveEmptyLines => "Whitespace"@,
            Transformation::ToLowercase => "Case Conversion"@,
            Transformation::ToUppercase => "Case Conversion"@,
            Transformation::ToTitleCase => "Case Conversion"@,
            Transformation::ToSentenceCase => "Case Conversion"@,
            Transformation::ToCamelCase => "Case Conversion"@,
            Transformation::ToPascalCase => "Case Conversion"@,
            Transformation::ToSnakeCase => "Case Conversion"@,
            Transformation::ToScreamingSnakeCase => "Case Conversion"@,
            Transformation::ToKebabCase => "Case Conversion"@,
            Transformation::RemoveDuplicateLines => "Line Operations"@,
            Transformation::SortLines => "Line Operations"@,
            Transformation::SortLinesReverse => "Line Operations"@,
            Transformation::ReverseLines => "Line Operations"@,
            Transformation::AddLineNumbers => "Line Operations"@,
            Transformation::RemoveLineNumbers => "Line Operations"@,
            Transformation::JoinLines { .. } => "Line Operations"@,
            Transformation::SplitToLines { .. } => "Line Operations"@,
            Transformation::WrapLines { .. } => "Line Operations"@,
            Transformation::FixSmartQuotes => "Character Cleanup"@,
            Transformation::RemoveNonAscii => "Character Cleanup"@,
            Transformation::NormalizeUnicode => "Character Cleanup"@,
            Transformation::RemoveEmojis => "Character Cleanup"@,
            Transformation::StripFormatting => "Character Cleanup"@,
            Transformation::TabsToSpaces { .. } => "Indentation"@,
            Transformation::SpacesToTabs { .. } => "Indentation"@,
            Transformation::RemoveUrls => "Content Removal"@,
            Transformation::RemoveEmails => "Content Removal"@,
            Transformation::RemovePhoneNumbers => "Content Removal"@,
            Transformation::RemoveMarkdown => "Content Removal"@,
            Transformation::ToUnixLineEndings => "Line Endings"@,
            Transformation::ToWindowsLineEndings => "Line Endings"@,
            Transformation::ExtractNumbers => "Extraction"@,
            Transformation::EncodeHtmlEntities => "HTML"@,
            Transformation::DecodeHtmlEntities => "HTML"@,
            Transformation::Slugify => "URL"@,
            Transformation::RegexReplace { .. } => "Search & Replace"@,
            Transformation::FindReplace { .. } => "Search & Replace"@,
            Transformation::AddPrefix { .. } => "Prefix/Suffix"@,
            Transformation::AddSuffix { .. } => "Prefix/Suffix"@,
            Transformation::RemovePrefix { .. } => "Prefix/Suffix"@,
            Transformation::RemoveSuffix { .. } => "Prefix/Suffix"@,
        }
    }

    /// The group the transformation is listed under.
    pub fn category(&self) -> (r: &'static str)
        ensures
            r@ == self.spec_category(),
    {
        match self {
            Transformation::NormalizeWhitespace => "Whitespace",
            Transformation::TrimLines => "Whitespace",
            Transformation::RemoveEmptyLines => "Whitespace",
            Transformation::ToLowercase => "Case Conversion",
            Transformation::ToUppercase => "Case Conversion",
            Transformation::ToTitleCase => "Case Conversion",
            Transformation::ToSentenceCase => "Case Conversion",
            Transformation::ToCamelCase => "Case Conversion",
            Transformation::ToPascalCase => "Case Conversion",
            Transformation::ToSnakeCase => "Case Conversion",
            Transformation::ToScreamingSnakeCase => "Case Conversion",
            Transformation::ToKebabCase => "Case Conversion",
            Transformation::RemoveDuplicateLines => "Line Operations",
            Transformation::SortLines => "Line Operations",
            Transformation::SortLinesReverse => "Line Operations",
            Transformation::ReverseLines => "Line Operations",
            Transformation::AddLineNumbers => "Line Operations",
            Transformation::RemoveLineNumbers => "Line Operations",
            Transformation::JoinLines { .. } => "Line Operations",
            Transformation::SplitToLines { .. } => "Line Operations",
            Transformation::WrapLines { .. } => "Line Operations",
            Transformation::FixSmartQuotes => "Character Cleanup",
            Transformation::RemoveNonAscii => "Character Cleanup",
            Transformation::NormalizeUnicode => "Character Cleanup",
            Transformation::RemoveEmojis => "Character Cleanup",
            Transformation::StripFormatting => "Character Cleanup",
            Transformation::TabsToSpaces { .. } => "Indentation",
            Transformation::SpacesToTabs { .. } => "Indentation",
            Transformation::RemoveUrls => "Content Removal",
            Transformation::RemoveEmails => "Content Removal",
            Transformation::RemovePhoneNumbers => "Content Removal",
            Transformation::RemoveMarkdown => "Content Removal",
            Transformation::ToUnixLineEndings => "Line Endings",
            Transformation::ToWindowsLineEndings => "Line Endings",
            Transformation::ExtractNumbers => "Extraction",
            Transformation::EncodeHtmlEntities => "HTML",
            Transformation::DecodeHtmlEntities => "HTML",
            Transformation::Slugify => "URL",
            Transformation::RegexReplace { .. } => "Search & Replace",
            Transformation::FindReplace { .. } => "Search & Replace",
            Transformation::AddPrefix { .. } => "Prefix/Suffix",
            Transformation::AddSuffix { .. } => "Prefix/Suffix",
            Transformation::RemovePrefix { .. } => "Prefix/Suffix",
            Transformation::RemoveSuffix { .. } => "Prefix/Suffix",
        }
    }

    /// What the transformation makes of text `t`.
    pub open spec fn spec_apply(&self, t: Seq<char>) -> Seq<char> {
        match self {
            Transformation::NormalizeWhitespace => spec_normalize_whitespace(t),
            Transformation::TrimLines => spec_trim_lines(t),
            Transformation::RemoveEmptyLines => spec_remove_empty_lines(t),
            Transformation::ToLowercase => spec_to_lowercase(t),
            Transformation::ToUppercase => spec_to_uppercase(t),
            Transformation::ToTitleCase => spec_to_title_case(t),
            Transformation::ToSentenceCase => spec_to_sentence_case(t),
            Transformation::ToCamelCase => spec_to_camel_case(t),
            Transformation::ToPascalCase => spec_to_pascal_case(t),
            Transformation::ToSnakeCase => spec_to_snake_case(t),
            Transformation::ToScreamingSnakeCase => spec_to_screaming_snake_case(t),
            Transformation::ToKebabCase => spec_to_kebab_case(t),
            Transformation::RemoveDuplicateLines => spec_remove_duplicate_lines(t),
            Transformation::SortLines => spec_sort_lines(t),
            Transformation::SortLinesReverse => spec_sort_lines_reverse(t),
            Transformation::ReverseLines => spec_reverse_lines(t),
            Transformation::AddLineNumbers => spec_add_line_numbers(t),
            Transformation::RemoveLineNumbers => spec_remove_line_numbers(t),
            Transformation::FixSmartQuotes => spec_fix_smart_quotes(t),
            Transformation::RemoveNonAscii => spec_remove_non_ascii(t),
            Transformation::NormalizeUnicode => spec_normalize_unicode(t),
            Transformation::RemoveEmojis => spec_remove_emojis(t),
            Transformation::StripFormatting => spec_strip_formatting(t),
            Transformation::RemoveUrls => spec_remove_urls(t),
            Transformation::RemoveEmails => spec_remove_emails(t),
            Transformation::RemovePhoneNumbers => spec_remove_phone_numbers(t),
            Transformation::RemoveMarkdown => spec_remove_markdown(t),
            Transformation::ToUnixLineEndings => spec_to_unix_line_endings(t),
            Transformation::ToWindowsLineEndings => spec_to_windows_line_endings(t),
            Transformation::ExtractNumbers => spec_extract_numbers(t),
            Transformation::EncodeHtmlEntities => spec_encode_html_entities(t),
            Transformation::DecodeHtmlEntities => spec_decode_html_entities(t),
            Transformation::Slugify => spec_slugify(t),
            Transformation::JoinLines { separator } => spec_join_lines(t, separator@),
            Transformation::SplitToLines { delimiter } => spec_split_to_lines(t, delimiter@),
            Transformation::WrapLines { width } => spec_wrap_lines(t, *width as nat),
            Transformation::TabsToSpaces { spaces } => spec_tabs_to_spaces(t, *spaces as nat),
            Transformation::SpacesToTabs { spaces_per_tab } => spec_spaces_to_tabs(t, *spaces_per_tab as nat),
            Transformation::RegexReplace { pattern, replacement } => regex_substituted(pattern@, t, replacement@),
            Transformation::FindReplace { find, replace } => replaced(t, find@, replace@),
            Transformation::AddPrefix { prefix } => prefix@ + t,
            Transformation::AddSuffix { suffix } => t + suffix@,
            Transformation::RemovePrefix { prefix } => without_prefix(t, prefix@),
            Transformation::RemoveSuffix { suffix } => without_suffix(t, suffix@),
        }
    }

    /// Applies the transformation to `text`. It never fails: an invalid
    /// parameter leaves the text unchanged.
    pub fn apply(&self, text: &str) -> (r: String)
        ensures
            r@ == self.spec_apply(text@),
    {
        match self {
            Transformation::NormalizeWhitespace => normalize_whitespace(text),
            Transformation::TrimLines => trim_lines(text),
            Transformation::RemoveEmptyLines => remove_empty_lines(text),
            Transformation::ToLowercase => to_lowercase(text),
            Transformation::ToUppercase => to_uppercase(text),
            Transformation::ToTitleCase => to_title_case(text),
            Transformation::ToSentenceCase => to_sentence_case(text),
            Transformation::ToCamelCase => to_camel_case(text),
            Transformation::ToPascalCase => to_pascal_case(text),
            Transformation::ToSnakeCase => to_snake_case(text),
            Transformation::ToScreamingSnakeCase => to_screaming_snake_case(text),
            Transformation::ToKebabCase => to_kebab_case(text),
            Transformation::RemoveDuplicateLines => remove_duplicate_lines(text),
            Transformation::SortLines => sort_lines(text),
            Transformation::SortLinesReverse => sort_lines_reverse(text),
            Transformation::ReverseLines => reverse_lines(text),
            Transformation::AddLineNumbers => add_line_numbers(text),
            Transformation::RemoveLineNumbers => remove_line_numbers(text),
            Transformation::FixSmartQuotes => fix_smart_quotes(text),
            Transformation::RemoveNonAscii => remove_non_ascii(text),
            Transformation::NormalizeUnicode => normalize_unicode(text),
            Transformation::RemoveEmojis => remove_emojis(text),
            Transformation::StripFormatting => strip_formatting(text),
            Transformation::RemoveUrls => remove_urls(text),
            Transformation::RemoveEmails => remove_emails(text),
            Transformation::RemovePhoneNumbers => remove_phone_numbers(text),
            Transformation::RemoveMarkdown => remove_markdown(text),
            Transformation::ToUnixLineEndings => to_unix_line_endings(text),
            Transformation::ToWindowsLineEndings => to_windows_line_endings(text),
            Transformation::ExtractNumbers => extract_numbers(text),
            Transformation::EncodeHtmlEntities => encode_html_entities(text),
            Transformation::DecodeHtmlEntities => decode_html_entities(text),
            Transformation::Slugify => slugify(text),
            Transformation::JoinLines { separator } => join_lines(text, separator.as_str()),
            Transformation::SplitToLines { delimiter } => split_to_lines(text, delimiter.as_str()),
            Transformation::WrapLines { width } => wrap_lines(text, *width),
            Transformation::TabsToSpaces { spaces } => tabs_to_spaces(text, *spaces),
            Transformation::SpacesToTabs { spaces_per_tab } => spaces_to_tabs(text, *spaces_per_tab),
            Transformation::RegexReplace { pattern, replacement } => {
                substitute_all(pattern.as_str(), text, replacement.as_str())
            },
            Transformation::FindReplace { find, replace } => {
                string_of(&replace_chars(&chars_of(text), &chars_of(find.as_str()), &chars_of(replace.as_str())))
            },
            Transformation::AddPrefix { prefix } => {
                let mut v = chars_of(prefix.as_str());
                push_all(&mut v, &chars_of(text));
                string_of(&v)
            },
            Transformation::AddSuffix { suffix } => {
                let mut v = chars_of(text);
                push_all(&mut v, &chars_of(suffix.as_str()));
                string_of(&v)
            },
            Transformation::RemovePrefix { prefix } => strip_prefix_str(text, prefix.as_str()),
            Transformation::RemoveSuffix { suffix } => strip_suffix_str(text, suffix.as_str()),
        }
    }
}

/// The identity of a recipe: a 128-bit UUID.
#[derive(Debug, Clone, Copy, PartialEq, Eq, Structural, Hash)]
pub struct RecipeId(pub u128);

/// A named, ordered list of transformations.
#[derive(Debug, Clone)]
pub struct Recipe {
    /// Unique identifier
    pub id: RecipeId,
    /// User-defined name
    pub name: String,
    /// Optional description
    pub description: Option<String>,
    /// The transformations, applied in this order
    pub transformations: Vec<Transformation>,
    /// Whether this recipe is applied to every clipboard change
    pub is_active: bool,
    /// Optional hotkey that triggers this recipe
    pub hotkey: Option<String>,
    /// Creation time, in milliseconds since the Unix epoch
    pub created_at: i64,
    /// Time of the last change, in milliseconds since the Unix epoch
    pub modified_at: i64,
    /// Icon for the recipe (emoji or text)
    pub icon: Option<String>,
}

/// The steps applied to `t` from first to last.
pub open spec fn run_steps(steps: Seq<Transformation>, t: Seq<char>) -> Seq<char>
    decreases steps.len(),
{
    if steps.len() == 0 {
        t
    } else {
        steps.last().spec_apply(run_steps(steps.drop_last(), t))
    }
}

impl Recipe {
    /// What the recipe makes of text `t`.
    pub open spec fn spec_apply(&self, t: Seq<char>) -> Seq<char> {
        run_steps(self.transformations@, t)
    }

    /// A new, inactive recipe with no steps, identifier `id`, and `now`
    /// (milliseconds since the Unix epoch) as its creation and modification
    /// time.
    pub fn new(name: &str, id: RecipeId, now: i64) -> (r: Recipe)
        ensures
            r.id == id,
            r.name@ == name@,
            r.description is None,
            r.transformations@.len() == 0,
            !r.is_active,
            r.hotkey is None,
            r.icon is None,
            r.created_at == now,
            r.modified_at == now,
    {
        Recipe {
            id,
            name: name.to_owned(),
            description: None,
            transformations: Vec::new(),
            is_active: false,
            hotkey: None,
            created_at: now,
            modified_at: now,
            icon: None,
        }
    }

    /// Appends a step and stamps `now` as the modification time.
    pub fn add_transformation(&mut self, transformation: Transformation, now: i64)
        ensures
            final(self).transformations@ == old(self).transformations@.push(transformation),
            final(self).id == old(self).id,
            final(self).name == old(self).name,
            final(self).description == old(self).description,
            final(self).is_active == old(self).is_active,
            final(self).hotkey == old(self).hotkey,
            final(self).created_at == old(self).created_at,
            final(self).icon == old(self).icon,
            final(self).modified_at == now,
    {
        self.transformations.push(transformation);
        self.modified_at = now;
    }

    /// Applies every step in order, each to the result of the one before.
    pub fn apply(&self, text: &str) -> (r: String)
        ensures
            r@ == self.spec_apply(text@),
    {
        let mut result = text.to_owned();
        let mut i: usize = 0;
        while i < self.transformations.len()
            invariant
                i <= self.transformations.len(),
                result@ == run_steps(self.transformations@.take(i as int), text@),
            decreases self.transformations.len() - i,
        {
            assert(self.transformations@.take(i + 1).drop_last() == self.transformations@.take(
                i as int,
            ));
            result = self.transformations[i].apply(result.as_str());
            i = i + 1;
        }
        assert(self.transformations@.take(self.transformations.len() as int)
            == self.transformations@);
        result
    }

    /// Removes the step at `index` and stamps `now` as the modification time.
    pub fn remove_transformation(&mut self, index: usize, now: i64)
        requires
            index < old(self).transformations@.len(),
        ensures
            final(self).transformations@ == old(self).transformations@.remove(index as int),
            final(self).id == old(self).id,
            final(self).name == old(self).name,
            final(self).is_active == old(self).is_active,
            final(self).created_at == old(self).created_at,
            final(self).modified_at == now,
    {
        self.transformations.remove(index);
        self.modified_at = now;
    }

    /// Whether the recipe has no steps.
    pub fn is_empty(&self) -> (r: bool)
        ensures
            r == (self.transformations@.len() == 0),
    {
        self.transformations.len() == 0
    }
}

/// A recipe with no steps leaves every text as it is.
pub proof fn lemma_empty_recipe_is_identity(r: Recipe, t: Seq<char>)
    requires
        r.transformations@.len() == 0,
    ensures
        r.spec_apply(t) == t,
{
}

/// `r` with its activation flag set to `on`.
pub open spec fn with_active(r: Recipe, on: bool) -> Recipe {
    Recipe { is_active: on, ..r }
}

/// Every recipe marked active exactly when its identifier is `id`.
pub open spec fn activated(rs: Seq<Recipe>, id: RecipeId) -> Seq<Recipe> {
    rs.map_values(|r: Recipe| with_active(r, r.id == id))
}

/// Every recipe marked inactive.
pub open spec fn deactivated(rs: Seq<Recipe>) -> Seq<Recipe> {
    rs.map_values(|r: Recipe| with_active(r, false))
}

/// No two recipes share an identifier.
pub open spec fn ids_unique(rs: Seq<Recipe>) -> bool {
    forall|i: int, j: int|
        #![trigger rs[i], rs[j]]
        0 <= i < j < rs.len() ==> rs[i].id != rs[j].id
}

/// At most one recipe is active.
pub open spec fn at_most_one_active(rs: Seq<Recipe>) -> bool {
    forall|i: int, j: int|
        #![trigger rs[i], rs[j]]
        0 <= i < rs.len() && 0 <= j < rs.len() && rs[i].is_active && rs[j].is_active ==> i == j
}

/// Whether `i` is the first position in `rs` whose recipe satisfies `p`.
pub open spec fn first_where(rs: Seq<Recipe>, i: int, p: spec_fn(Recipe) -> bool) -> bool {
    &&& 0 <= i < rs.len()
    &&& p(rs[i])
    &&& forall|j: int| 0 <= j < i ==> !p(#[trigger] rs[j])
}

/// The built-in recipes: seven inactive recipes with these names and steps.
pub open spec fn seeded(rs: Seq<Recipe>) -> bool {
    &&& rs.len() == 7
    &&& forall|i: int| 0 <= i < 7 ==> !(#[trigger] rs[i]).is_active
    &&& rs[0].name@ == "Plain Text"@
    &&& rs[0].transformations@ == seq![
            Transformation::StripFormatting,
            Transformation::FixSmartQuotes,
            Transformation::NormalizeWhitespace,
        ]
    &&& rs[1].name@ == "Clean Code"@
    &&& rs[1].transformations@ == seq![
            Transformation::FixSmartQuotes,
            Transformation::TrimLines,
            Transformation::ToUnixLineEndings,
            Transformation::TabsToSpaces { spaces: 4 },
        ]
    &&& rs[2].name@ == "Unique Lines"@
    &&& rs[2].transformations@ == seq![
            Transformation::TrimLines,
            Transformation::RemoveDuplicateLines,
            Transformation::RemoveEmptyLines,
        ]
    &&& rs[3].name@ == "Sort Lines"@
    &&& rs[3].transformations@ == seq![Transformation::TrimLines, Transformation::SortLines]
    &&& rs[4].name@ == "Privacy Mode"@
    &&& rs[4].transformations@ == seq![
            Transformation::RemoveEmails,
            Transformation::RemovePhoneNumbers,
            Transformation::RemoveUrls,
        ]
    &&& rs[5].name@ == "Academic"@
    &&& rs[5].transformations@ == seq![
            Transformation::FixSmartQuotes,
            Transformation::NormalizeWhitespace,
            Transformation::TrimLines,
        ]
    &&& rs[6].name@ == "No Emoji"@
    &&& rs[6].transformations@ == seq![Transformation::RemoveEmojis]
}

/// A recipe from its parts, with the given steps.
fn seed(
    name: &str,
    description: &str,
    icon: &str,
    steps: Vec<Transformation>,
    id: RecipeId,
    now: i64,
) -> (r: Recipe)
    ensures
        r.id == id,
        r.name@ == name@,
        r.description matches Some(d) && d@ == description@,
        r.icon matches Some(i) && i@ == icon@,
        r.transformations@ == steps@,
        !r.is_active,
{
    let mut r = Recipe::new(name, id, now);
    r.description = Some(description.to_owned());
    r.icon = Some(icon.to_owned());
    r.transformations = steps;
    r
}

/// Whether the identifiers are pairwise distinct.
pub open spec fn distinct_ids(ids: Seq<RecipeId>) -> bool {
    forall|i: int, j: int| #![trigger ids[i], ids[j]] 0 <= i < j < ids.len() ==> ids[i] != ids[j]
}

/// The built-in recipes, none of them active, the `k`-th with identifier
/// `ids[k]` and created at `now`.
pub fn default_recipes(ids: [RecipeId; 7], now: i64) -> (r: Vec<Recipe>)
    requires
        distinct_ids(ids@),
    ensures
        seeded(r@),
        ids_unique(r@),
        forall|k: int| 0 <= k < 7 ==> (#[trigger] r@[k]).id == ids@[k],
{
    let mut recipes: Vec<Recipe> = Vec::new();
    recipes.push(
        seed(
            "Plain Text",
            "Strip all formatting and normalize whitespace",
            "\u{1F4DD}",
            vec![
                Transformation::StripFormatting,
                Transformation::FixSmartQuotes,
                Transformation::NormalizeWhitespace,
            ],
            ids[0],
            now,
        ),
    );
    recipes.push(
        seed(
            "Clean Code",
            "Clean up code snippets",
            "\u{1F4BB}",
            vec![
                Transformation::FixSmartQuotes,
                Transformation::TrimLines,
                Transformation::ToUnixLineEndings,
                Transformation::TabsToSpaces { spaces: 4 },
            ],
            ids[1],
            now,
        ),
    );
    recipes.push(
        seed(
            "Unique Lines",
            "Remove duplicate lines",
            "\u{1F522}",
            vec![
                Transformation::TrimLines,
                Transformation::RemoveDuplicateLines,
                Transformation::RemoveEmptyLines,
            ],
            ids[2],
            now,
        ),
    );
    recipes.push(
        seed(
            "Sort Lines",
            "Sort lines alphabetically",
            "\u{1F4CA}",
            vec![Transformation::TrimLines, Transformation::SortLines],
            ids[3],
            now,
        ),
    );
    recipes.push(
        seed(
            "Privacy Mode",
            "Remove personal info like emails and phone numbers",
            "\u{1F512}",
            vec![
                Transformation::RemoveEmails,
                Transformation::RemovePhoneNumbers,
                Transformation::RemoveUrls,
            ],
            ids[4],
            now,
        ),
    );
    recipes.push(
        seed(
            "Academic",
            "Clean up academic text for citations",
            "\u{1F4DA}",
            vec![
                Transformation::FixSmartQuotes,
                Transformation::NormalizeWhitespace,
                Transformation::TrimLines,
            ],
            ids[5],
            now,
        ),
    );
    let no_emoji_steps = vec![Transformation::RemoveEmojis];
    assert(no_emoji_steps@ == seq![Transformation::RemoveEmojis]);
    recipes.push(seed("No Emoji", "Remove all emojis from text", "\u{1F6AB}", no_emoji_steps, ids[6], now));
    assert forall|i: int| 0 <= i < 7 implies !(#[trigger] recipes@[i]).is_active
        && recipes@[i].id == ids@[i] by {
        assert(i == 0 || i == 1 || i == 2 || i == 3 || i == 4 || i == 5 || i == 6);
    }
    assert forall|i: int, j: int|
        #![trigger recipes@[i], recipes@[j]]
        0 <= i < j < recipes@.len() implies recipes@[i].id != recipes@[j].id by {
        assert(ids@[i] != ids@[j]);
    }
    recipes
}

/// Dropping recipes keeps identifiers distinct and at most one recipe
/// active.
proof fn lemma_filter_keeps_invariant(rs: Seq<Recipe>, p: spec_fn(Recipe) -> bool)
    ensures
        ids_unique(rs) ==> ids_unique(rs.filter(p)),
        at_most_one_active(rs) ==> at_most_one_active(rs.filter(p)),
    decreases rs.len(),
{
    reveal(Seq::filter);
    if rs.len() > 0 {
        let init = rs.drop_last();
        let last = rs.last();
        if ids_unique(rs) {
            assert forall|i: int, j: int|
                #![trigger init[i], init[j]]
                0 <= i < j < init.len() implies init[i].id != init[j].id by {
                assert(rs[i].id != rs[j].id);
            }
        }
        if at_most_one_active(rs) {
            assert forall|i: int, j: int|
                #![trigger init[i], init[j]]
                0 <= i < init.len() && 0 <= j < init.len() && init[i].is_active
                    && init[j].is_active implies i == j by {
                assert(rs[i] == init[i] && rs[j] == init[j]);
            }
        }
        lemma_filter_keeps_invariant(init, p);
        let f0 = init.filter(p);
        if p(last) {
            let f = f0.push(last);
            assert(rs.filter(p) == f);
            assert forall|i: int| 0 <= i < f0.len() implies exists|k: int|
                0 <= k < init.len() && init[k] == #[trigger] f0[i] by {
                assert(f0.contains(f0[i]));
                init.lemma_filter_contains_rev(p, f0[i]);
            }
            if ids_unique(rs) {
                assert forall|i: int, j: int|
                    #![trigger f[i], f[j]]
                    0 <= i < j < f.len() implies f[i].id != f[j].id by {
                    if j == f0.len() {
                        let k = choose|k: int| 0 <= k < init.len() && init[k] == f0[i];
                        assert(rs[k].id != rs[rs.len() - 1].id);
                    } else {
                        assert(f[i] == f0[i] && f[j] == f0[j]);
                    }
                }
            }
            if at_most_one_active(rs) {
                assert forall|i: int, j: int|
                    #![trigger f[i], f[j]]
                    0 <= i < f.len() && 0 <= j < f.len() && f[i].is_active && f[j].is_active implies i
                    == j by {
                    if i < f0.len() && j == f0.len() {
                        let k = choose|k: int| 0 <= k < init.len() && init[k] == f0[i];
                        assert(rs[k] == init[k]);
                        assert(rs[rs.len() - 1] == last);
                    } else if j < f0.len() && i == f0.len() {
                        let k = choose|k: int| 0 <= k < init.len() && init[k] == f0[j];
                        assert(rs[k] == init[k]);
                        assert(rs[rs.len() - 1] == last);
                    } else if i < f0.len() && j < f0.len() {
                        assert(f[i] == f0[i] && f[j] == f0[j]);
                    }
                }
            }
        } else {
            assert(rs.filter(p) == f0);
        }
    }
}

/// The in-memory registry of recipes. Persisting it is left to the caller,
/// after each change.
pub struct RecipeManager {
    /// All recipes, in order
    pub recipes: Vec<Recipe>,
}

impl RecipeManager {
    /// A registry holding the stored recipes, or the built-in ones where
    /// nothing was stored. The built-in recipes take their identifiers from `seed_ids` and
    /// their creation time from `now`.
    pub fn new(stored: Option<Vec<Recipe>>, seed_ids: [RecipeId; 7], now: i64) -> (r:
        RecipeManager)
        requires
            stored is None ==> distinct_ids(seed_ids@),
        ensures
            stored matches Some(v) ==> r.recipes@ == v@,
            stored is None ==> seeded(r.recipes@) && ids_unique(r.recipes@),
    {
        match stored {
            Some(v) => RecipeManager { recipes: v },
            None => RecipeManager { recipes: default_recipes(seed_ids, now) },
        }
    }

    /// Appends a recipe.
    pub fn add_recipe(&mut self, recipe: Recipe)
        ensures
            final(self).recipes@ == old(self).recipes@.push(recipe),
            at_most_one_active(old(self).recipes@) && !recipe.is_active ==> at_most_one_active(
                final(self).recipes@,
            ),
    {
        self.recipes.push(recipe);
    }

    /// Removes every recipe with identifier `id`, keeping the order of the
    /// others.
    pub fn remove_recipe(&mut self, id: RecipeId)
        ensures
            final(self).recipes@ == old(self).recipes@.filter(|r: Recipe| r.id != id),
            ids_unique(old(self).recipes@) ==> ids_unique(final(self).recipes@),
            at_most_one_active(old(self).recipes@) ==> at_most_one_active(final(self).recipes@),
    {
        proof {
            lemma_filter_keeps_invariant(self.recipes@, |r: Recipe| r.id != id);
        }
        let ghost orig = self.recipes@;
        let ghost keep = |r: Recipe| r.id != id;
        let mut i: usize = 0;
        let ghost mut j: int = 0;
        assert(orig.take(0) == Seq::<Recipe>::empty());
        proof {
            reveal(Seq::filter);
        }
        assert(self.recipes@.skip(0) == orig.skip(0));
        while i < self.recipes.len()
            invariant
                i <= self.recipes.len(),
                0 <= j <= orig.len(),
                j - i == orig.len() - self.recipes.len(),
                keep == (|r: Recipe| r.id != id),
                self.recipes@.take(i as int) == orig.take(j).filter(keep),
                self.recipes@.skip(i as int) == orig.skip(j),
            decreases self.recipes.len() - i,
        {
            proof {
                reveal(Seq::filter);
                assert(orig.take(j + 1).drop_last() == orig.take(j));
                assert(orig.take(j + 1).last() == orig[j]);
                assert(orig[j] == self.recipes@.skip(i as int)[0]);
            }
            if self.recipes[i].id == id {
                let ghost before = self.recipes@;
                self.recipes.remove(i);
                assert(self.recipes@.take(i as int) == before.take(i as int));
                assert(self.recipes@.skip(i as int) == before.skip(i + 1));
                assert(orig.skip(j + 1) == orig.skip(j).skip(1));
            } else {
                assert(self.recipes@.take(i + 1) == self.recipes@.take(i as int).push(
                    self.recipes@[i as int],
                ));
                assert(orig.skip(j + 1) == orig.skip(j).skip(1));
                assert(self.recipes@.skip(i + 1) == self.recipes@.skip(i as int).skip(1));
                i = i + 1;
            }
            proof {
                j = j + 1;
            }
        }
        assert(j == orig.len());
        assert(orig.take(j) == orig);
        assert(self.recipes@.take(i as int) == self.recipes@);
    }

    /// The first recipe with identifier `id`, if any.
    pub fn get_recipe(&self, id: RecipeId) -> (r: Option<&Recipe>)
        ensures
            r is None <==> (forall|k: int|
                0 <= k < self.recipes@.len() ==> (#[trigger] self.recipes@[k]).id != id),
            r matches Some(x) ==> exists|k: int|
                first_where(self.recipes@, k, |q: Recipe| q.id == id) && self.recipes@[k] == *x,
    {
        let mut i: usize = 0;
        while i < self.recipes.len()
            invariant
                i <= self.recipes.len(),
                forall|k: int| 0 <= k < i ==> (#[trigger] self.recipes@[k]).id != id,
            decreases self.recipes.len() - i,
        {
            if self.recipes[i].id == id {
                assert(first_where(self.recipes@, i as int, |q: Recipe| q.id == id));
                return Some(&self.recipes[i]);
            }
            i = i + 1;
        }
        None
    }

    /// The first recipe with identifier `id`, if any, to change in place.
    pub fn get_recipe_mut(&mut self, id: RecipeId) -> (r: Option<&mut Recipe>)
        ensures
            r is None <==> (forall|k: int|
                0 <= k < old(self).recipes@.len() ==> (#[trigger] old(self).recipes@[k]).id != id),
            r is None ==> final(self).recipes@ == old(self).recipes@,
            r matches Some(x) ==> exists|k: int|
                first_where(old(self).recipes@, k, |q: Recipe| q.id == id) && *x
                    == old(self).recipes@[k] && final(self).recipes@ == old(self).recipes@.update(
                    k,
                    *final(x),
                ),
    {
        let mut i: usize = 0;
        while i < self.recipes.len() && self.recipes[i].id != id
            invariant
                i <= self.recipes.len(),
                self.recipes@ == old(self).recipes@,
                forall|k: int| 0 <= k < i ==> (#[trigger] self.recipes@[k]).id != id,
            decreases self.recipes.len() - i,
        {
            i = i + 1;
        }
        if i < self.recipes.len() {
            assert(first_where(self.recipes@, i as int, |q: Recipe| q.id == id));
            Some(&mut self.recipes[i])
        } else {
            None
        }
    }

    /// The first active recipe, if any.
    pub fn get_active_recipe(&self) -> (r: Option<&Recipe>)
        ensures
            r is None <==> (forall|k: int|
                0 <= k < self.recipes@.len() ==> !(#[trigger] self.recipes@[k]).is_active),
            r matches Some(x) ==> exists|k: int|
                first_where(self.recipes@, k, |q: Recipe| q.is_active) && self.recipes@[k] == *x,
    {
        let mut i: usize = 0;
        while i < self.recipes.len()
            invariant
                i <= self.recipes.len(),
                forall|k: int| 0 <= k < i ==> !(#[trigger] self.recipes@[k]).is_active,
            decreases self.recipes.len() - i,
        {
            if self.recipes[i].is_active {
                assert(first_where(self.recipes@, i as int, |q: Recipe| q.is_active));
                return Some(&self.recipes[i]);
            }
            i = i + 1;
        }
        None
    }

    /// Marks the recipe with identifier `id` active and every other one
    /// inactive, in one step.
    pub fn set_active(&mut self, id: RecipeId)
        ensures
            final(self).recipes@ == activated(old(self).recipes@, id),
            ids_unique(old(self).recipes@) ==> at_most_one_active(final(self).recipes@),
    {
        let ghost orig = self.recipes@;
        let mut i: usize = 0;
        while i < self.recipes.len()
            invariant
                i <= self.recipes.len(),
                self.recipes@.len() == orig.len(),
                forall|k: int|
                    0 <= k < i ==> #[trigger] self.recipes@[k] == with_active(
                        orig[k],
                        orig[k].id == id,
                    ),
                forall|k: int| i <= k < orig.len() ==> #[trigger] self.recipes@[k] == orig[k],
            decreases self.recipes.len() - i,
        {
            let on = self.recipes[i].id == id;
            self.recipes[i].is_active = on;
            i = i + 1;
        }
        assert(self.recipes@ == activated(orig, id));
    }

    /// Marks every recipe inactive.
    pub fn deactivate_all(&mut self)
        ensures
            final(self).recipes@ == deactivated(old(self).recipes@),
            forall|k: int|
                0 <= k < final(self).recipes@.len() ==> !(#[trigger] final(self).recipes@[k]).is_active,
    {
        let ghost orig = self.recipes@;
        let mut i: usize = 0;
        while i < self.recipes.len()
            invariant
                i <= self.recipes.len(),
                self.recipes@.len() == orig.len(),
                forall|k: int| 0 <= k < i ==> #[trigger] self.recipes@[k] == with_active(orig[k], false),
                forall|k: int| i <= k < orig.len() ==> #[trigger] self.recipes@[k] == orig[k],
            decreases self.recipes.len() - i,
        {
            self.recipes[i].is_active = false;
            i = i + 1;
        }
        assert(self.recipes@ == deactivated(orig));
    }

    /// Replaces the first recipe with the identifier of `updated` by it,
    /// stamped with `now` as its modification time; without such a recipe
    /// nothing changes.
    pub fn update_recipe(&mut self, updated: Recipe, now: i64)
        ensures
            (forall|k: int|
                0 <= k < old(self).recipes@.len() ==> (#[trigger] old(self).recipes@[k]).id
                    != updated.id) ==> final(self).recipes@ == old(self).recipes@,
            forall|k: int|
                first_where(old(self).recipes@, k, |q: Recipe| q.id == updated.id)
                    ==> final(self).recipes@ == old(self).recipes@.update(
                    k,
                    Recipe { modified_at: now, ..updated },
                ),
    {
        let ghost orig = self.recipes@;
        let ghost u = updated;
        let mut i: usize = 0;
        while i < self.recipes.len() && self.recipes[i].id != updated.id
            invariant
                i <= self.recipes.len(),
                self.recipes@ == orig,
                orig == old(self).recipes@,
                u == updated,
                forall|k: int| 0 <= k < i ==> (#[trigger] orig[k]).id != u.id,
            decreases self.recipes.len() - i,
        {
            i = i + 1;
        }
        if i < self.recipes.len() {
            assert(orig[i as int].id == u.id);
            assert forall|k: int|
                #![trigger orig[k]]
                first_where(orig, k, |q: Recipe| q.id == u.id) implies k == i by {
                if k > i {
                    assert(orig[i as int].id == u.id);
                }
            }
            self.recipes.set(i, updated);
            self.recipes[i].modified_at = now;
            assert(self.recipes@ == orig.update(
                i as int,
                Recipe { modified_at: now, ..u },
            ));
        }
    }
}

/// After `set_active(id)` on recipes with distinct identifiers, one of which
/// is `id`: exactly one recipe is active, and it is the one with that
/// identifier.
pub proof fn lemma_set_active_selects_one(rs: Seq<Recipe>, id: RecipeId)
    requires
        ids_unique(rs),
        exists|i: int| 0 <= i < rs.len() && rs[i].id == id,
    ensures
        exists|i: int|
            0 <= i < rs.len() && (#[trigger] activated(rs, id)[i]).id == id && activated(
                rs,
                id,
            )[i].is_active,
        forall|j: int|
            0 <= j < rs.len() ==> ((#[trigger] activated(rs, id)[j]).is_active <==> activated(
                rs,
                id,
            )[j].id == id),
        at_most_one_active(activated(rs, id)),
{
    let a = activated(rs, id);
    let i = choose|i: int| 0 <= i < rs.len() && rs[i].id == id;
    assert(a[i].id == id && a[i].is_active);
    assert forall|p: int, q: int|
        0 <= p < a.len() && 0 <= q < a.len() && a[p].is_active && a[q].is_active implies p
        == q by {
        if p < q {
            assert(rs[p].id != rs[q].id);
        } else if q < p {
            assert(rs[q].id != rs[p].id);
        }
    }
}

/// The transformation that a lower-case short name stands for on the
/// command line.
pub open spec fn named_transformation(t: Seq<char>) -> Option<Transformation> {
    if t == "lowercase"@ || t == "lower"@ {
        Some(Transformation::ToLowercase)
    } else if t == "uppercase"@ || t == "upper"@ {
        Some(Transformation::ToUppercase)
    } else if t == "titlecase"@ || t == "title"@ {
        Some(Transformation::ToTitleCase)
    } else if t == "sentencecase"@ || t == "sentence"@ {
        Some(Transformation::ToSentenceCase)
    } else if t == "camelcase"@ || t == "camel"@ {
        Some(Transformation::ToCamelCase)
    } else if t == "pascalcase"@ || t == "pascal"@ {
        Some(Transformation::ToPascalCase)
    } else if t == "snakecase"@ || t == "snake"@ {
        Some(Transformation::ToSnakeCase)
    } else if t == "kebabcase"@ || t == "kebab"@ {
        Some(Transformation::ToKebabCase)
    } else if t == "trim"@ {
        Some(Transformation::TrimLines)
    } else if t == "normalize"@ || t == "whitespace"@ {
        Some(Transformation::NormalizeWhitespace)
    } else if t == "remove-empty"@ || t == "no-empty"@ {
        Some(Transformation::RemoveEmptyLines)
    } else if t == "remove-duplicates"@ || t == "unique"@ || t == "dedup"@ {
        Some(Transformation::RemoveDuplicateLines)
    } else if t == "sort"@ {
        Some(Transformation::SortLines)
    } else if t == "reverse"@ {
        Some(Transformation::ReverseLines)
    } else if t == "smartquotes"@ || t == "fix-quotes"@ || t == "quotes"@ {
        Some(Transformation::FixSmartQuotes)
    } else if t == "remove-emojis"@ || t == "no-emoji"@ {
        Some(Transformation::RemoveEmojis)
    } else if t == "strip"@ || t == "plain"@ {
        Some(Transformation::StripFormatting)
    } else if t == "slugify"@ || t == "slug"@ {
        Some(Transformation::Slugify)
    } else if t == "html-encode"@ {
        Some(Transformation::EncodeHtmlEntities)
    } else if t == "html-decode"@ {
        Some(Transformation::DecodeHtmlEntities)
    } else if t == "unix"@ || t == "lf"@ {
        Some(Transformation::ToUnixLineEndings)
    } else if t == "windows"@ || t == "crlf"@ {
        Some(Transformation::ToWindowsLineEndings)
    } else {
        None
    }
}

impl Transformation {
    /// The transformation named by `name` on the command line, compared
    /// without regard to case; `None` for an unknown name.
    pub fn from_name(name: &str) -> (r: Option<Transformation>)
        ensures
            r == named_transformation(lower_of(name@)),
    {
        let lower = lowercase(name);
        let n = lower.as_str();
        if same_str(n, "lowercase") || same_str(n, "lower") {
            Some(Transformation::ToLowercase)
        } else if same_str(n, "uppercase") || same_str(n, "upper") {
            Some(Transformation::ToUppercase)
        } else if same_str(n, "titlecase") || same_str(n, "title") {
            Some(Transformation::ToTitleCase)
        } else if same_str(n, "sentencecase") || same_str(n, "sentence") {
            Some(Transformation::ToSentenceCase)
        } else if same_str(n, "camelcase") || same_str(n, "camel") {
            Some(Transformation::ToCamelCase)
        } else if same_str(n, "pascalcase") || same_str(n, "pascal") {
            Some(Transformation::ToPascalCase)
        } else if same_str(n, "snakecase") || same_str(n, "snake") {
            Some(Transformation::ToSnakeCase)
        } else if same_str(n, "kebabcase") || same_str(n, "kebab") {
            Some(Transformation::ToKebabCase)
        } else if same_str(n, "trim") {
            Some(Transformation::TrimLines)
        } else if same_str(n, "normalize") || same_str(n, "whitespace") {
            Some(Transformation::NormalizeWhitespace)
        } else if same_str(n, "remove-empty") || same_str(n, "no-empty") {
            Some(Transformation::RemoveEmptyLines)
        } else if same_str(n, "remove-duplicates") || same_str(n, "unique") || same_str(n, "dedup") {
            Some(Transformation::RemoveDuplicateLines)
        } else if same_str(n, "sort") {
            Some(Transformation::SortLines)
        } else if same_str(n, "reverse") {
            Some(Transformation::ReverseLines)
        } else if same_str(n, "smartquotes") || same_str(n, "fix-quotes") || same_str(n, "quotes") {
            Some(Transformation::FixSmartQuotes)
        } else if same_str(n, "remove-emojis") || same_str(n, "no-emoji") {
            Some(Transformation::RemoveEmojis)
        } else if same_str(n, "strip") || same_str(n, "plain") {
            Some(Transformation::StripFormatting)
        } else if same_str(n, "slugify") || same_str(n, "slug") {
            Some(Transformation::Slugify)
        } else if same_str(n, "html-encode") {
            Some(Transformation::EncodeHtmlEntities)
        } else if same_str(n, "html-decode") {
            Some(Transformation::DecodeHtmlEntities)
        } else if same_str(n, "unix") || same_str(n, "lf") {
            Some(Transformation::ToUnixLineEndings)
        } else if same_str(n, "windows") || same_str(n, "crlf") {
            Some(Transformation::ToWindowsLineEndings)
        } else {
            None
        }
    }
}

/// ASCII lower case of one character.
pub open spec fn ascii_lower(c: char) -> char {
    if 'A' <= c && c <= 'Z' {
        ((c as u32) + 32) as char
    } else {
        c
    }
}

/// Whether `a` and `b` are equal when ASCII letters are compared without
/// regard to case, as `str::eq_ignore_ascii_case` decides.
pub open spec fn eq_ignore_ascii_case(a: Seq<char>, b: Seq<char>) -> bool {
    a.len() == b.len() && forall|i: int| 0 <= i < a.len() ==> ascii_lower(#[trigger] a[i]) == ascii_lower(b[i])
}

/// ASCII lower case of one character.
fn lower_ascii_char(c: char) -> (r: char)
    ensures
        r == ascii_lower(c),
{
    if 'A' <= c && c <= 'Z' {
        let n = (c as u32) + 32;
        assert(0x61 <= n <= 0x7A);
        let d = char_from_ascii(n);
        d
    } else {
        c
    }
}

/// The character of an ASCII code.
fn char_from_ascii(n: u32) -> (r: char)
    requires
        n < 0x80,
    ensures
        r == n as char,
{
    (n as u8) as char
}

/// Whether `a` and `b` are equal ignoring ASCII case.
fn same_ignoring_ascii_case(a: &str, b: &str) -> (r: bool)
    ensures
        r == eq_ignore_ascii_case(a@, b@),
{
    let x = chars_of(a);
    let y = chars_of(b);
    if x.len() != y.len() {
        return false;
    }
    let mut i: usize = 0;
    while i < x.len()
        invariant
            i <= x.len(),
            x.len() == y.len(),
            x@ == a@,
            y@ == b@,
            forall|k: int| 0 <= k < i ==> ascii_lower(#[trigger] x@[k]) == ascii_lower(y@[k]),
        decreases x.len() - i,
    {
        if lower_ascii_char(x[i]) != lower_ascii_char(y[i]) {
            return false;
        }
        i = i + 1;
    }
    true
}

/// The lower-case hexadecimal digit of value `d`.
pub open spec fn hex_digit(d: int) -> char {
    if d < 10 {
        (('0' as u32) + d) as char
    } else {
        (('a' as u32) + d - 10) as char
    }
}

/// Digit `k` (from the most significant, 0 to 31) of `v` in hexadecimal.
pub open spec fn nibble(v: u128, k: int) -> int {
    ((v >> ((4 * (31 - k)) as u128)) & 0xFu128) as int
}

/// The number of hyphens before position `i` of the hyphenated form.
pub open spec fn hyphens_before(i: int) -> int {
    if i > 23 {
        4
    } else if i > 18 {
        3
    } else if i > 13 {
        2
    } else if i > 8 {
        1
    } else {
        0
    }
}

/// The hyphenated form of a 128-bit identifier: 32 lower-case hexadecimal
/// digits, most significant first, in groups of 8, 4, 4, 4 and 12 joined by
/// hyphens.
pub open spec fn id_text_of(v: u128) -> Seq<char> {
    Seq::new(
        36,
        |i: int|
            if i == 8 || i == 13 || i == 18 || i == 23 {
                '-'
            } else {
                hex_digit(nibble(v, i - hyphens_before(i)))
            },
    )
}

/// Relies on the `Display` form of `uuid::Uuid`: the hyphenated lower-case
/// form of its 128-bit value.
#[verifier::external_body]
fn id_text(id: RecipeId) -> (r: String)
    ensures
        r@ == id_text_of(id.0),
{
    uuid::Uuid::from_u128(id.0).to_string()
}

impl RecipeId {
    /// The hyphenated text form of the identifier.
    pub fn to_text(&self) -> (r: String)
        ensures
            r@ == id_text_of(self.0),
    {
        id_text(*self)
    }
}

/// Whether a recipe answers to `query`: its name ignoring ASCII case, or the
/// text form of its identifier.
pub open spec fn answers_to(r: Recipe, query: Seq<char>) -> bool {
    eq_ignore_ascii_case(r.name@, query) || id_text_of(r.id.0) == query
}

impl RecipeManager {
    /// The first recipe that answers to `query` by name or identifier.
    pub fn find_by_name_or_id(&self, query: &str) -> (r: Option<&Recipe>)
        ensures
            r is None <==> (forall|k: int|
                0 <= k < self.recipes@.len() ==> !answers_to(#[trigger] self.recipes@[k], query@)),
            r matches Some(x) ==> exists|k: int|
                first_where(self.recipes@, k, |q: Recipe| answers_to(q, query@)) && self.recipes@[k]
                    == *x,
    {
        let mut i: usize = 0;
        while i < self.recipes.len()
            invariant
                i <= self.recipes.len(),
                forall|k: int| 0 <= k < i ==> !answers_to(#[trigger] self.recipes@[k], query@),
            decreases self.recipes.len() - i,
        {
            let r = &self.recipes[i];
            if same_ignoring_ascii_case(r.name.as_str(), query) || same_str(
                r.id.to_text().as_str(),
                query,
            ) {
                assert(first_where(self.recipes@, i as int, |q: Recipe| answers_to(q, query@)));
                return Some(r);
            }
            i = i + 1;
        }
        None
    }
}

} // verus!
