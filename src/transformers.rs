//! The text transformations. Each one is a total function from text to
//! text; its meaning is the `spec_` function of the same name, over the
//! characters of the input.

use crate::pattern::{regex_substituted, regex_substituted_first, substitute_all, substitute_first};
use crate::text::{
    chars_of, copy_chars, is_space, is_space_char, join_with, joined, lemma_lines_no_lf,
    lemma_lines_of_joined, lines_of, lines_survive_join, no_lf, push_all, replace_chars,
    replaced, same_chars, slice_chars, split_lines, split_words, string_of, trim_chars, trimmed,
    trimmed_start, views, words_of,
};
use crate::unicode::{
    alphabetic, compose, is_alphabetic, lower_of, lowercase, nfc_of, upper_of, uppercase,
};
use vstd::prelude::*;

verus! {

/// The lower-case mapping of a character vector.
fn lower_chars(v: &Vec<char>) -> (r: Vec<char>)
    ensures
        r@ == lower_of(v@),
{
    let s = string_of(v);
    let l = lowercase(s.as_str());
    chars_of(l.as_str())
}

/// The upper-case mapping of a character vector.
fn upper_chars(v: &Vec<char>) -> (r: Vec<char>)
    ensures
        r@ == upper_of(v@),
{
    let s = string_of(v);
    let u = uppercase(s.as_str());
    chars_of(u.as_str())
}

/// Replaces each occurrence of `pat` in `v` by `rep`.
fn replace_str(v: &Vec<char>, pat: &str, rep: &str) -> (r: Vec<char>)
    ensures
        r@ == replaced(v@, pat@, rep@),
{
    replace_chars(v, &chars_of(pat), &chars_of(rep))
}

/// The lines joined by line feeds.
fn join_lines_nl(parts: &Vec<Vec<char>>) -> (r: String)
    ensures
        r@ == joined(views(parts@), "\n"@),
{
    string_of(&join_with(parts, &chars_of("\n")))
}

// ---------------------------------------------------------------------
// Whitespace

/// The pattern of a run of white space.
pub open spec fn ws_run() -> Seq<char> {
    "\\s+"@
}

/// Trimmed at both ends, then each run of white space made one space.
pub open spec fn spec_normalize_whitespace(t: Seq<char>) -> Seq<char> {
    regex_substituted(ws_run(), trimmed(t), " "@)
}

/// Removes white space at both ends and makes each run of white space
/// (line breaks included) a single space.
pub fn normalize_whitespace(text: &str) -> (r: String)
    ensures
        r@ == spec_normalize_whitespace(text@),
{
    let t = string_of(&trim_chars(&chars_of(text)));
    substitute_all("\\s+", t.as_str(), " ")
}

/// Each line trimmed, joined by line feeds.
pub open spec fn spec_trim_lines(t: Seq<char>) -> Seq<char> {
    joined(lines_of(t).map_values(|l: Seq<char>| trimmed(l)), "\n"@)
}

/// Removes white space at both ends of every line.
pub fn trim_lines(text: &str) -> (r: String)
    ensures
        r@ == spec_trim_lines(text@),
{
    let lines = split_lines(&chars_of(text));
    let mut out: Vec<Vec<char>> = Vec::new();
    let mut i: usize = 0;
    while i < lines.len()
        invariant
            i <= lines.len(),
            views(lines@) == lines_of(text@),
            out@.len() == i,
            forall|k: int| 0 <= k < i ==> #[trigger] out@[k]@ == trimmed(lines@[k]@),
        decreases lines.len() - i,
    {
        out.push(trim_chars(&lines[i]));
        i = i + 1;
    }
    assert(views(out@) == lines_of(text@).map_values(|l: Seq<char>| trimmed(l)));
    join_lines_nl(&out)
}

/// Whether a line holds only white space.
pub open spec fn is_blank(l: Seq<char>) -> bool {
    trimmed(l).len() == 0
}

/// The lines that hold more than white space, joined by line feeds.
pub open spec fn spec_remove_empty_lines(t: Seq<char>) -> Seq<char> {
    joined(lines_of(t).filter(|l: Seq<char>| !is_blank(l)), "\n"@)
}

/// Removes the lines that are empty or hold only white space.
pub fn remove_empty_lines(text: &str) -> (r: String)
    ensures
        r@ == spec_remove_empty_lines(text@),
{
    let lines = split_lines(&chars_of(text));
    let ghost ls = views(lines@);
    let ghost keep = |l: Seq<char>| !is_blank(l);
    let mut out: Vec<Vec<char>> = Vec::new();
    let mut i: usize = 0;
    while i < lines.len()
        invariant
            i <= lines.len(),
            ls == views(lines@),
            views(out@) == ls.take(i as int).filter(keep),
            keep == (|l: Seq<char>| !is_blank(l)),
        decreases lines.len() - i,
    {
        proof {
            reveal(Seq::filter);
            assert(ls.take(i + 1).drop_last() == ls.take(i as int));
            assert(ls.take(i + 1).last() == lines@[i as int]@);
        }
        let t = trim_chars(&lines[i]);
        if t.len() > 0 {
            let l = copy_chars(&lines[i]);
            proof {
                assert(views(out@.push(l)) == views(out@).push(l@));
            }
            out.push(l);
        }
        i = i + 1;
    }
    assert(ls.take(lines.len() as int) == ls);
    join_lines_nl(&out)
}

// ---------------------------------------------------------------------
// Case

/// The lower-case text.
pub open spec fn spec_to_lowercase(t: Seq<char>) -> Seq<char> {
    lower_of(t)
}

/// Maps the text to lower case.
pub fn to_lowercase(text: &str) -> (r: String)
    ensures
        r@ == spec_to_lowercase(text@),
{
    lowercase(text)
}

/// The upper-case text.
pub open spec fn spec_to_uppercase(t: Seq<char>) -> Seq<char> {
    upper_of(t)
}

/// Maps the text to upper case.
pub fn to_uppercase(text: &str) -> (r: String)
    ensures
        r@ == spec_to_uppercase(text@),
{
    uppercase(text)
}

/// A word with its first character upper case and the rest lower case.
pub open spec fn capitalized(w: Seq<char>) -> Seq<char> {
    if w.len() == 0 {
        Seq::empty()
    } else {
        upper_of(w.take(1)) + lower_of(w.skip(1))
    }
}

/// The word capitalized, as `capitalized` states.
fn capitalize(w: &Vec<char>) -> (r: Vec<char>)
    ensures
        r@ == capitalized(w@),
{
    if w.len() == 0 {
        return Vec::new();
    }
    let mut out = upper_chars(&slice_chars(w, 0, 1));
    let rest = lower_chars(&slice_chars(w, 1, w.len()));
    push_all(&mut out, &rest);
    assert(w@.subrange(0, 1) == w@.take(1));
    assert(w@.subrange(1, w@.len() as int) == w@.skip(1));
    out
}

/// Each word of `ws` mapped by `capitalized`.
fn capitalize_all(ws: &Vec<Vec<char>>) -> (r: Vec<Vec<char>>)
    ensures
        views(r@) == views(ws@).map_values(|w: Seq<char>| capitalized(w)),
{
    let mut out: Vec<Vec<char>> = Vec::new();
    let mut i: usize = 0;
    while i < ws.len()
        invariant
            i <= ws.len(),
            out@.len() == i,
            forall|k: int| 0 <= k < i ==> #[trigger] out@[k]@ == capitalized(ws@[k]@),
        decreases ws.len() - i,
    {
        out.push(capitalize(&ws[i]));
        i = i + 1;
    }
    assert(views(out@) == views(ws@).map_values(|w: Seq<char>| capitalized(w)));
    out
}

/// The words capitalized and joined by single spaces.
pub open spec fn spec_to_title_case(t: Seq<char>) -> Seq<char> {
    joined(words_of(t).map_values(|w: Seq<char>| capitalized(w)), " "@)
}

/// Capitalizes each word; words end up separated by single spaces.
pub fn to_title_case(text: &str) -> (r: String)
    ensures
        r@ == spec_to_title_case(text@),
{
    let ws = split_words(&chars_of(text));
    let caps = capitalize_all(&ws);
    string_of(&join_with(&caps, &chars_of(" ")))
}

/// The first character of the lower-case mapping of `c`, or `c` itself if
/// that mapping were empty.
pub open spec fn lower_first(c: char) -> char {
    let l = lower_of(seq![c]);
    if l.len() > 0 {
        l[0]
    } else {
        c
    }
}

/// Whether `c` ends a sentence.
pub open spec fn ends_sentence(c: char) -> bool {
    c == '.' || c == '!' || c == '?'
}

/// After reading `s`: the text written so far and whether the next letter
/// starts a sentence.
pub open spec fn sentence_scan(s: Seq<char>) -> (Seq<char>, bool)
    decreases s.len(),
{
    if s.len() == 0 {
        (Seq::empty(), true)
    } else {
        let p = sentence_scan(s.drop_last());
        let c = s.last();
        if p.1 && alphabetic(c) {
            (p.0 + upper_of(seq![c]), false)
        } else {
            (p.0.push(lower_first(c)), p.1 || ends_sentence(c))
        }
    }
}

/// The text in sentence case.
pub open spec fn spec_to_sentence_case(t: Seq<char>) -> Seq<char> {
    sentence_scan(t).0
}

/// Upper-cases the first letter of each sentence and lower-cases every
/// other character; `.`, `!` and `?` end a sentence.
pub fn to_sentence_case(text: &str) -> (r: String)
    ensures
        r@ == spec_to_sentence_case(text@),
{
    let v = chars_of(text);
    let mut out: Vec<char> = Vec::new();
    let mut capitalize_next = true;
    let mut i: usize = 0;
    while i < v.len()
        invariant
            i <= v.len(),
            v@ == text@,
            out@ == sentence_scan(v@.take(i as int)).0,
            capitalize_next == sentence_scan(v@.take(i as int)).1,
        decreases v.len() - i,
    {
        assert(v@.take(i + 1).drop_last() == v@.take(i as int));
        let c = v[i];
        let one = vec![c];
        assert(one@ == seq![c]);
        assert(v@.take(i + 1).last() == c);
        if capitalize_next && is_alphabetic(c) {
            push_all(&mut out, &upper_chars(&one));
            capitalize_next = false;
        } else {
            let l = lower_chars(&one);
            if l.len() > 0 {
                out.push(l[0]);
            } else {
                out.push(c);
            }
            if c == '.' || c == '!' || c == '?' {
                capitalize_next = true;
            }
        }
        i = i + 1;
    }
    assert(v@.take(v.len() as int) == v@);
    string_of(&out)
}

// ---------------------------------------------------------------------
// Line order

/// Whether `l` is one of `seen`.
fn contains_line(seen: &Vec<Vec<char>>, l: &Vec<char>) -> (r: bool)
    ensures
        r == views(seen@).contains(l@),
{
    let mut i: usize = 0;
    while i < seen.len()
        invariant
            i <= seen.len(),
            forall|k: int| 0 <= k < i ==> #[trigger] seen@[k]@ != l@,
        decreases seen.len() - i,
    {
        if same_chars(&seen[i], l) {
            assert(views(seen@)[i as int] == l@);
            return true;
        }
        i = i + 1;
    }
    false
}

/// The lines that differ from every line before them.
pub open spec fn unique_lines(t: Seq<char>) -> Seq<Seq<char>> {
    lines_of(t).remove_duplicates(Seq::empty())
}

/// The first occurrence of each line, in order, joined by line feeds.
pub open spec fn spec_remove_duplicate_lines(t: Seq<char>) -> Seq<char> {
    joined(unique_lines(t), "\n"@)
}

/// Keeps the first occurrence of each line and drops later repeats.
pub fn remove_duplicate_lines(text: &str) -> (r: String)
    ensures
        r@ == spec_remove_duplicate_lines(text@),
{
    let lines = split_lines(&chars_of(text));
    let ghost ls = views(lines@);
    let mut seen: Vec<Vec<char>> = Vec::new();
    let mut i: usize = 0;
    assert(ls.skip(0) == ls);
    while i < lines.len()
        invariant
            i <= lines.len(),
            ls == views(lines@),
            ls.skip(i as int).remove_duplicates(views(seen@)) == ls.remove_duplicates(
                Seq::empty(),
            ),
        decreases lines.len() - i,
    {
        assert(ls.skip(i as int).skip(1) == ls.skip(i + 1));
        assert(ls.skip(i as int)[0] == lines@[i as int]@);
        if !contains_line(&seen, &lines[i]) {
            let l = copy_chars(&lines[i]);
            proof {
                assert(views(seen@.push(l)) == views(seen@) + seq![l@]);
            }
            seen.push(l);
        }
        i = i + 1;
    }
    join_lines_nl(&seen)
}

/// The lines in reverse order, joined by line feeds.
pub open spec fn spec_reverse_lines(t: Seq<char>) -> Seq<char> {
    joined(lines_of(t).reverse(), "\n"@)
}

/// The parts in reverse order.
fn reversed_parts(parts: &Vec<Vec<char>>) -> (r: Vec<Vec<char>>)
    ensures
        views(r@) == views(parts@).reverse(),
{
    let mut out: Vec<Vec<char>> = Vec::new();
    let mut j: usize = parts.len();
    while j > 0
        invariant
            j <= parts.len(),
            out@.len() == parts.len() - j,
            forall|k: int|
                0 <= k < out@.len() ==> #[trigger] out@[k]@ == parts@[parts.len() - 1 - k]@,
        decreases j,
    {
        j = j - 1;
        out.push(copy_chars(&parts[j]));
    }
    assert(views(out@) == views(parts@).reverse());
    out
}

/// Reverses the order of the lines.
pub fn reverse_lines(text: &str) -> (r: String)
    ensures
        r@ == spec_reverse_lines(text@),
{
    let lines = split_lines(&chars_of(text));
    join_lines_nl(&reversed_parts(&lines))
}

// ---------------------------------------------------------------------
// Characters

/// Typographic quotes, ellipsis and dashes written in plain ASCII.
pub open spec fn spec_fix_smart_quotes(t: Seq<char>) -> Seq<char> {
    let a = replaced(t, "\u{2018}"@, "'"@);
    let b = replaced(a, "\u{2019}"@, "'"@);
    let c = replaced(b, "\u{201C}"@, "\""@);
    let d = replaced(c, "\u{201D}"@, "\""@);
    let e = replaced(d, "\u{2026}"@, "..."@);
    let f = replaced(e, "\u{2013}"@, "-"@);
    replaced(f, "\u{2014}"@, "--"@)
}

/// Replaces curly quotes by straight ones, the ellipsis by three dots, the
/// en dash by `-` and the em dash by `--`.
pub fn fix_smart_quotes(text: &str) -> (r: String)
    ensures
        r@ == spec_fix_smart_quotes(text@),
{
    let v = chars_of(text);
    let a = replace_str(&v, "\u{2018}", "'");
    let b = replace_str(&a, "\u{2019}", "'");
    let c = replace_str(&b, "\u{201C}", "\"");
    let d = replace_str(&c, "\u{201D}", "\"");
    let e = replace_str(&d, "\u{2026}", "...");
    let f = replace_str(&e, "\u{2013}", "-");
    string_of(&replace_str(&f, "\u{2014}", "--"))
}

/// Whether `c` is an ASCII character.
pub open spec fn is_ascii_char(c: char) -> bool {
    (c as u32) < 0x80
}

/// The ASCII characters of the text.
pub open spec fn spec_remove_non_ascii(t: Seq<char>) -> Seq<char> {
    t.filter(|c: char| is_ascii_char(c))
}

/// Drops every character outside ASCII.
pub fn remove_non_ascii(text: &str) -> (r: String)
    ensures
        r@ == spec_remove_non_ascii(text@),
{
    let v = chars_of(text);
    let ghost keep = |c: char| is_ascii_char(c);
    let mut out: Vec<char> = Vec::new();
    let mut i: usize = 0;
    while i < v.len()
        invariant
            i <= v.len(),
            out@ == v@.take(i as int).filter(keep),
            keep == (|c: char| is_ascii_char(c)),
        decreases v.len() - i,
    {
        proof {
            reveal(Seq::filter);
            assert(v@.take(i + 1).drop_last() == v@.take(i as int));
        }
        let c = v[i];
        if (c as u32) < 0x80 {
            out.push(c);
        }
        i = i + 1;
    }
    assert(v@.take(v.len() as int) == v@);
    string_of(&out)
}

/// The canonical composition (NFC) of the text.
pub open spec fn spec_normalize_unicode(t: Seq<char>) -> Seq<char> {
    nfc_of(t)
}

/// Rewrites the text in canonical composed form (NFC).
pub fn normalize_unicode(text: &str) -> (r: String)
    ensures
        r@ == spec_normalize_unicode(text@),
{
    compose(text)
}

/// Whether `c` lies in one of the emoji and symbol blocks that are removed:
/// emoticons, pictographs, transport and map, regional indicators,
/// miscellaneous symbols, dingbats, variation selectors, supplemental
/// symbols, chess symbols and the extended-A pictographs.
pub open spec fn is_emoji(c: char) -> bool {
    let n = c as u32;
    (0x1F600 <= n && n <= 0x1F64F) || (0x1F300 <= n && n <= 0x1F5FF) || (0x1F680 <= n && n
        <= 0x1F6FF) || (0x1F1E0 <= n && n <= 0x1F1FF) || (0x2600 <= n && n <= 0x26FF) || (0x2700
        <= n && n <= 0x27BF) || (0xFE00 <= n && n <= 0xFE0F) || (0x1F900 <= n && n <= 0x1F9FF)
        || (0x1FA00 <= n && n <= 0x1FA6F) || (0x1FA70 <= n && n <= 0x1FAFF)
}

/// Whether `c` is removed as an emoji.
fn is_emoji_char(c: char) -> (r: bool)
    ensures
        r == is_emoji(c),
{
    let n = c as u32;
    (0x1F600 <= n && n <= 0x1F64F) || (0x1F300 <= n && n <= 0x1F5FF) || (0x1F680 <= n && n
        <= 0x1F6FF) || (0x1F1E0 <= n && n <= 0x1F1FF) || (0x2600 <= n && n <= 0x26FF) || (0x2700
        <= n && n <= 0x27BF) || (0xFE00 <= n && n <= 0xFE0F) || (0x1F900 <= n && n <= 0x1F9FF)
        || (0x1FA00 <= n && n <= 0x1FA6F) || (0x1FA70 <= n && n <= 0x1FAFF)
}

/// The characters of the text outside the emoji blocks.
pub open spec fn spec_remove_emojis(t: Seq<char>) -> Seq<char> {
    t.filter(|c: char| !is_emoji(c))
}

/// Drops every character of the emoji blocks; nothing else is removed.
pub fn remove_emojis(text: &str) -> (r: String)
    ensures
        r@ == spec_remove_emojis(text@),
{
    let v = chars_of(text);
    let ghost keep = |c: char| !is_emoji(c);
    let mut out: Vec<char> = Vec::new();
    let mut i: usize = 0;
    while i < v.len()
        invariant
            i <= v.len(),
            out@ == v@.take(i as int).filter(keep),
            keep == (|c: char| !is_emoji(c)),
        decreases v.len() - i,
    {
        proof {
            reveal(Seq::filter);
            assert(v@.take(i + 1).drop_last() == v@.take(i as int));
        }
        let c = v[i];
        if !is_emoji_char(c) {
            out.push(c);
        }
        i = i + 1;
    }
    assert(v@.take(v.len() as int) == v@);
    string_of(&out)
}

// ---------------------------------------------------------------------
// Sorting

/// Whether `a` comes before `b` in code-point order (which is also the byte
/// order of their UTF-8 encodings).
pub open spec fn code_lt(a: Seq<char>, b: Seq<char>) -> bool
    decreases a.len(),
{
    if a.len() == 0 {
        b.len() > 0
    } else if b.len() == 0 {
        false
    } else if a[0] != b[0] {
        (a[0] as u32) < (b[0] as u32)
    } else {
        code_lt(a.skip(1), b.skip(1))
    }
}

/// `x` placed into `s` before the first element that does not come before it.
pub open spec fn sorted_insert(s: Seq<Seq<char>>, x: Seq<char>) -> Seq<Seq<char>>
    decreases s.len(),
{
    if s.len() == 0 {
        seq![x]
    } else if !code_lt(s[0], x) {
        seq![x] + s
    } else {
        seq![s[0]] + sorted_insert(s.skip(1), x)
    }
}

/// The lines in ascending code-point order.
pub open spec fn sorted_lines(s: Seq<Seq<char>>) -> Seq<Seq<char>>
    decreases s.len(),
{
    if s.len() == 0 {
        Seq::empty()
    } else {
        sorted_insert(sorted_lines(s.drop_last()), s.last())
    }
}

/// Whether `a` comes before `b` in code-point order.
fn less_chars(a: &Vec<char>, b: &Vec<char>) -> (r: bool)
    ensures
        r == code_lt(a@, b@),
{
    let mut k: usize = 0;
    assert(a@.skip(0) == a@);
    assert(b@.skip(0) == b@);
    while k < a.len() && k < b.len() && a[k] == b[k]
        invariant
            k <= a.len(),
            k <= b.len(),
            code_lt(a@, b@) == code_lt(a@.skip(k as int), b@.skip(k as int)),
        decreases a.len() - k,
    {
        assert(a@.skip(k as int).skip(1) == a@.skip(k + 1));
        assert(b@.skip(k as int).skip(1) == b@.skip(k + 1));
        k = k + 1;
    }
    if k == a.len() {
        k < b.len()
    } else if k == b.len() {
        false
    } else {
        (a[k] as u32) < (b[k] as u32)
    }
}

proof fn lemma_sorted_insert_at(s: Seq<Seq<char>>, x: Seq<char>, p: int)
    requires
        0 <= p <= s.len(),
        forall|j: int| 0 <= j < p ==> code_lt(#[trigger] s[j], x),
        p < s.len() ==> !code_lt(s[p], x),
    ensures
        sorted_insert(s, x) == s.insert(p, x),
    decreases p,
{
    if p == 0 {
        assert(s.insert(0, x) == seq![x] + s);
    } else {
        let t = s.skip(1);
        assert forall|j: int| 0 <= j < p - 1 implies code_lt(#[trigger] t[j], x) by {
            assert(t[j] == s[j + 1]);
        }
        lemma_sorted_insert_at(t, x, p - 1);
        assert(s.insert(p, x) == seq![s[0]] + t.insert(p - 1, x));
    }
}

/// The parts in ascending code-point order, as `sorted_lines` states.
fn sort_parts(parts: &Vec<Vec<char>>) -> (r: Vec<Vec<char>>)
    ensures
        views(r@) == sorted_lines(views(parts@)),
{
    let ghost ps = views(parts@);
    let mut out: Vec<Vec<char>> = Vec::new();
    let mut i: usize = 0;
    while i < parts.len()
        invariant
            i <= parts.len(),
            ps == views(parts@),
            views(out@) == sorted_lines(ps.take(i as int)),
        decreases parts.len() - i,
    {
        assert(ps.take(i + 1).drop_last() == ps.take(i as int));
        assert(ps.take(i + 1).last() == parts@[i as int]@);
        let x = copy_chars(&parts[i]);
        let mut p: usize = 0;
        while p < out.len() && less_chars(&out[p], &x)
            invariant
                p <= out.len(),
                forall|j: int| 0 <= j < p ==> code_lt(#[trigger] views(out@)[j], x@),
            decreases out.len() - p,
        {
            p = p + 1;
        }
        proof {
            lemma_sorted_insert_at(views(out@), x@, p as int);
            assert(views(out@.insert(p as int, x)) == views(out@).insert(p as int, x@));
        }
        out.insert(p, x);
        i = i + 1;
    }
    assert(ps.take(parts.len() as int) == ps);
    out
}

/// Whether no line comes before the one ahead of it.
pub open spec fn ascending(s: Seq<Seq<char>>) -> bool {
    forall|i: int| 0 <= i < s.len() - 1 ==> !code_lt(#[trigger] s[i + 1], s[i])
}

/// No two texts come before each other.
proof fn lemma_code_lt_asymmetric(a: Seq<char>, b: Seq<char>)
    ensures
        code_lt(a, b) ==> !code_lt(b, a),
    decreases a.len(),
{
    if a.len() > 0 && b.len() > 0 && a[0] == b[0] {
        lemma_code_lt_asymmetric(a.skip(1), b.skip(1));
    }
}

/// Placing `x` puts it at some position of `s`.
proof fn lemma_sorted_insert_position(s: Seq<Seq<char>>, x: Seq<char>) -> (p: int)
    ensures
        0 <= p <= s.len(),
        sorted_insert(s, x) == s.insert(p, x),
    decreases s.len(),
{
    if s.len() == 0 {
        assert(s.insert(0, x) == seq![x]);
        0
    } else if !code_lt(s[0], x) {
        assert(s.insert(0, x) == seq![x] + s);
        0
    } else {
        let q = lemma_sorted_insert_position(s.skip(1), x);
        assert(s.insert(q + 1, x) == seq![s[0]] + s.skip(1).insert(q, x));
        q + 1
    }
}

/// Placing `x` into ascending lines keeps them ascending.
proof fn lemma_sorted_insert_ascending(s: Seq<Seq<char>>, x: Seq<char>)
    requires
        ascending(s),
    ensures
        ascending(sorted_insert(s, x)),
    decreases s.len(),
{
    if s.len() > 0 && code_lt(s[0], x) {
        let t = s.skip(1);
        assert forall|i: int| 0 <= i < t.len() - 1 implies !code_lt(#[trigger] t[i + 1], t[i]) by {
            assert(t[i + 1] == s[i + 2]);
            assert(t[i] == s[i + 1]);
            assert(!code_lt(s[(i + 1) + 1], s[i + 1]));
        }
        lemma_sorted_insert_ascending(t, x);
        lemma_code_lt_asymmetric(s[0], x);
        let r = sorted_insert(s, x);
        let tail = sorted_insert(t, x);
        assert(r == seq![s[0]] + tail);
        if t.len() > 0 && code_lt(t[0], x) {
            assert(tail[0] == t[0]);
        } else {
            assert(tail[0] == x);
        }
        assert forall|i: int| 0 <= i < r.len() - 1 implies !code_lt(#[trigger] r[i + 1], r[i]) by {
            if i > 0 {
                assert(r[i + 1] == tail[i]);
                assert(r[i] == tail[i - 1]);
                assert(!code_lt(tail[(i - 1) + 1], tail[i - 1]));
            } else {
                assert(r[1] == tail[0]);
                assert(r[0] == s[0]);
                if t.len() > 0 && code_lt(t[0], x) {
                    assert(t[0] == s[1]);
                    assert(!code_lt(s[0int + 1], s[0int]));
                }
            }
        }
    } else if s.len() > 0 {
        let r = seq![x] + s;
        assert(sorted_insert(s, x) == r);
        assert forall|i: int| 0 <= i < r.len() - 1 implies !code_lt(#[trigger] r[i + 1], r[i]) by {
            if i > 0 {
                assert(r[i + 1] == s[i]);
                assert(r[i] == s[i - 1]);
                assert(!code_lt(s[(i - 1) + 1], s[i - 1]));
            } else {
                assert(r[1] == s[0]);
                assert(r[0] == x);
            }
        }
    }
}

/// The sorted lines are ascending and are the same lines, each as often as
/// before.
pub proof fn lemma_sorted_lines_ascending_permutation(s: Seq<Seq<char>>)
    ensures
        ascending(sorted_lines(s)),
        sorted_lines(s).to_multiset() == s.to_multiset(),
    decreases s.len(),
{
    broadcast use vstd::seq_lib::to_multiset_insert;

    if s.len() > 0 {
        let prev = sorted_lines(s.drop_last());
        lemma_sorted_lines_ascending_permutation(s.drop_last());
        lemma_sorted_insert_ascending(prev, s.last());
        let p = lemma_sorted_insert_position(prev, s.last());
        assert(sorted_lines(s) == prev.insert(p, s.last()));
        assert(prev.insert(p, s.last()).to_multiset() == prev.to_multiset().insert(s.last()));
        s.drop_last().to_multiset_ensures();
        assert(s.drop_last().push(s.last()) == s);
        assert(s.to_multiset() =~= s.drop_last().to_multiset().insert(s.last()));
        assert(prev.to_multiset() == s.drop_last().to_multiset());
        assert(sorted_lines(s).to_multiset() =~= s.to_multiset());
    } else {
        assert(sorted_lines(s) == s);
    }
}

/// The lines in ascending code-point order, joined by line feeds.
pub open spec fn spec_sort_lines(t: Seq<char>) -> Seq<char> {
    joined(sorted_lines(lines_of(t)), "\n"@)
}

/// Sorts the lines in ascending code-point order.
pub fn sort_lines(text: &str) -> (r: String)
    ensures
        r@ == spec_sort_lines(text@),
{
    let lines = split_lines(&chars_of(text));
    join_lines_nl(&sort_parts(&lines))
}

/// The lines in descending code-point order, joined by line feeds.
pub open spec fn spec_sort_lines_reverse(t: Seq<char>) -> Seq<char> {
    joined(sorted_lines(lines_of(t)).reverse(), "\n"@)
}

/// Sorts the lines in descending code-point order.
pub fn sort_lines_reverse(text: &str) -> (r: String)
    ensures
        r@ == spec_sort_lines_reverse(text@),
{
    let lines = split_lines(&chars_of(text));
    join_lines_nl(&reversed_parts(&sort_parts(&lines)))
}

// ---------------------------------------------------------------------
// Markup, indentation and content removal

/// Tags removed, then white space normalized.
pub open spec fn spec_strip_formatting(t: Seq<char>) -> Seq<char> {
    spec_normalize_whitespace(regex_substituted("<[^>]+>"@, t, ""@))
}

/// Removes anything shaped like a markup tag, then normalizes white space.
pub fn strip_formatting(text: &str) -> (r: String)
    ensures
        r@ == spec_strip_formatting(text@),
{
    let t = substitute_all("<[^>]+>", text, "");
    normalize_whitespace(t.as_str())
}

/// `n` copies of `c`.
pub open spec fn repeated(c: char, n: nat) -> Seq<char> {
    Seq::new(n, |i: int| c)
}

/// `n` copies of `c`.
fn repeat_char(c: char, n: u128) -> (r: Vec<char>)
    ensures
        r@ == repeated(c, n as nat),
{
    let mut out: Vec<char> = Vec::new();
    let mut k: u128 = 0;
    while k < n
        invariant
            k <= n,
            out@ == repeated(c, k as nat),
        decreases n - k,
    {
        out.push(c);
        k = k + 1;
        assert(out@ == repeated(c, k as nat));
    }
    out
}

/// Every tab replaced by `n` spaces.
pub open spec fn spec_tabs_to_spaces(t: Seq<char>, n: nat) -> Seq<char> {
    replaced(t, "\t"@, repeated(' ', n))
}

/// Replaces every tab by `spaces` spaces.
pub fn tabs_to_spaces(text: &str, spaces: usize) -> (r: String)
    ensures
        r@ == spec_tabs_to_spaces(text@, spaces as nat),
{
    let v = chars_of(text);
    string_of(&replace_chars(&v, &chars_of("\t"), &repeat_char(' ', spaces as u128)))
}

/// The number of bytes of `c` in UTF-8.
pub open spec fn utf8_size(c: char) -> nat {
    let n = c as u32;
    if n < 0x80 {
        1
    } else if n < 0x800 {
        2
    } else if n < 0x10000 {
        3
    } else {
        4
    }
}

/// The number of bytes of `s` in UTF-8: what `str::len` returns.
pub open spec fn utf8_len(s: Seq<char>) -> nat
    decreases s.len(),
{
    if s.len() == 0 {
        0
    } else {
        utf8_len(s.drop_last()) + utf8_size(s.last())
    }
}

/// The number of bytes of `v` in UTF-8.
fn byte_len(v: &Vec<char>) -> (r: u128)
    ensures
        r == utf8_len(v@),
        r <= 4 * v@.len(),
        r <= 4 * (usize::MAX as int),
{
    let mut total: u128 = 0;
    let mut i: usize = 0;
    while i < v.len()
        invariant
            i <= v.len(),
            total == utf8_len(v@.take(i as int)),
            total <= 4 * i,
        decreases v.len() - i,
    {
        assert(v@.take(i + 1).drop_last() == v@.take(i as int));
        let n = v[i] as u32;
        let size: u128 = if n < 0x80 {
            1
        } else if n < 0x800 {
            2
        } else if n < 0x10000 {
            3
        } else {
            4
        };
        total = total + size;
        i = i + 1;
    }
    assert(v@.take(v.len() as int) == v@);
    total
}

/// The number of spaces at the start of `l`.
pub open spec fn leading_spaces(l: Seq<char>) -> nat
    decreases l.len(),
{
    if l.len() > 0 && l[0] == ' ' {
        1 + leading_spaces(l.skip(1))
    } else {
        0
    }
}

/// A line with its leading run of spaces regrouped: a tab for each `n` of
/// them, the remainder as spaces; everything after the run stays.
pub open spec fn retabbed(l: Seq<char>, n: nat) -> Seq<char> {
    let k = leading_spaces(l);
    repeated('\t', k / n) + repeated(' ', k % n) + l.skip(k as int)
}

/// Leading indentation regrouped into tabs on every line; a width of zero
/// leaves the text unchanged.
pub open spec fn spec_spaces_to_tabs(t: Seq<char>, n: nat) -> Seq<char> {
    if n == 0 {
        t
    } else {
        joined(lines_of(t).map_values(|l: Seq<char>| retabbed(l, n)), "\n"@)
    }
}

/// One line regrouped, as `retabbed` states.
fn retab_line(l: &Vec<char>, n: usize) -> (r: Vec<char>)
    requires
        n > 0,
    ensures
        r@ == retabbed(l@, n as nat),
{
    let mut i: usize = 0;
    assert(l@.skip(0) == l@);
    while i < l.len() && l[i] == ' '
        invariant
            i <= l.len(),
            leading_spaces(l@) == i + leading_spaces(l@.skip(i as int)),
        decreases l.len() - i,
    {
        assert(l@.skip(i as int).skip(1) == l@.skip(i + 1));
        i = i + 1;
    }
    assert(leading_spaces(l@) == i);
    let body = slice_chars(l, i, l.len());
    assert(body@ == l@.skip(i as int));
    let mut out = repeat_char('\t', (i / n) as u128);
    push_all(&mut out, &repeat_char(' ', (i % n) as u128));
    push_all(&mut out, &body);
    out
}

/// Folds the leading run of spaces of each line into tabs of
/// `spaces_per_tab`; other characters, interior and trailing spaces stay.
pub fn spaces_to_tabs(text: &str, spaces_per_tab: usize) -> (r: String)
    ensures
        r@ == spec_spaces_to_tabs(text@, spaces_per_tab as nat),
{
    if spaces_per_tab == 0 {
        return text.to_owned();
    }
    let lines = split_lines(&chars_of(text));
    let mut out: Vec<Vec<char>> = Vec::new();
    let mut i: usize = 0;
    while i < lines.len()
        invariant
            i <= lines.len(),
            spaces_per_tab > 0,
            views(lines@) == lines_of(text@),
            out@.len() == i,
            forall|k: int|
                0 <= k < i ==> #[trigger] out@[k]@ == retabbed(lines@[k]@, spaces_per_tab as nat),
        decreases lines.len() - i,
    {
        out.push(retab_line(&lines[i], spaces_per_tab));
        i = i + 1;
    }
    assert(views(out@) == lines_of(text@).map_values(
        |l: Seq<char>| retabbed(l, spaces_per_tab as nat),
    ));
    join_lines_nl(&out)
}

/// Each line with the leftmost match of `pattern` replaced by `rep`.
fn map_lines_first(v: &Vec<char>, pattern: &str, rep: &str) -> (r: Vec<Vec<char>>)
    ensures
        views(r@) == lines_of(v@).map_values(
            |l: Seq<char>| regex_substituted_first(pattern@, l, rep@),
        ),
{
    let lines = split_lines(v);
    let mut out: Vec<Vec<char>> = Vec::new();
    let mut i: usize = 0;
    while i < lines.len()
        invariant
            i <= lines.len(),
            views(lines@) == lines_of(v@),
            out@.len() == i,
            forall|k: int|
                0 <= k < i ==> #[trigger] out@[k]@ == regex_substituted_first(
                    pattern@,
                    lines@[k]@,
                    rep@,
                ),
        decreases lines.len() - i,
    {
        let l = string_of(&lines[i]);
        let m = substitute_first(pattern, l.as_str(), rep);
        out.push(chars_of(m.as_str()));
        i = i + 1;
    }
    assert(views(out@) == lines_of(v@).map_values(
        |l: Seq<char>| regex_substituted_first(pattern@, l, rep@),
    ));
    out
}

/// The pattern of a web address.
pub open spec fn url_pattern() -> Seq<char> {
    "https?://\\S+"@
}

/// Web addresses removed.
pub open spec fn spec_remove_urls(t: Seq<char>) -> Seq<char> {
    regex_substituted(url_pattern(), t, ""@)
}

/// Removes `http://` and `https://` addresses.
pub fn remove_urls(text: &str) -> (r: String)
    ensures
        r@ == spec_remove_urls(text@),
{
    substitute_all("https?://\\S+", text, "")
}

/// The pattern of an e-mail address.
pub open spec fn email_pattern() -> Seq<char> {
    "\\b[A-Za-z0-9._%+-]+@[A-Za-z0-9.-]+\\.[A-Z|a-z]{2,}\\b"@
}

/// E-mail addresses removed.
pub open spec fn spec_remove_emails(t: Seq<char>) -> Seq<char> {
    regex_substituted(email_pattern(), t, ""@)
}

/// Removes e-mail addresses.
pub fn remove_emails(text: &str) -> (r: String)
    ensures
        r@ == spec_remove_emails(text@),
{
    substitute_all("\\b[A-Za-z0-9._%+-]+@[A-Za-z0-9.-]+\\.[A-Z|a-z]{2,}\\b", text, "")
}

/// The pattern of a phone number.
pub open spec fn phone_pattern() -> Seq<char> {
    "(\\+\\d{1,3}[-.\\s]?)?\\(?\\d{3}\\)?[-.\\s]?\\d{3}[-.\\s]?\\d{4}"@
}

/// Phone numbers removed.
pub open spec fn spec_remove_phone_numbers(t: Seq<char>) -> Seq<char> {
    regex_substituted(phone_pattern(), t, ""@)
}

/// Removes phone numbers of the common ten-digit shapes.
pub fn remove_phone_numbers(text: &str) -> (r: String)
    ensures
        r@ == spec_remove_phone_numbers(text@),
{
    substitute_all("(\\+\\d{1,3}[-.\\s]?)?\\(?\\d{3}\\)?[-.\\s]?\\d{3}[-.\\s]?\\d{4}", text, "")
}

// ---------------------------------------------------------------------
// Line numbers

/// The decimal digit of value `d`.
pub open spec fn digit_char(d: nat) -> char {
    if d == 0 {
        '0'
    } else if d == 1 {
        '1'
    } else if d == 2 {
        '2'
    } else if d == 3 {
        '3'
    } else if d == 4 {
        '4'
    } else if d == 5 {
        '5'
    } else if d == 6 {
        '6'
    } else if d == 7 {
        '7'
    } else if d == 8 {
        '8'
    } else {
        '9'
    }
}

/// The decimal numeral of `n`.
pub open spec fn decimal(n: nat) -> Seq<char>
    decreases n,
{
    if n < 10 {
        seq![digit_char(n)]
    } else {
        decimal(n / 10).push(digit_char(n % 10))
    }
}

/// The decimal numeral of `n`.
fn decimal_chars(n: usize) -> (r: Vec<char>)
    ensures
        r@ == decimal(n as nat),
    decreases n,
{
    let d = n % 10;
    let c = if d == 0 {
        '0'
    } else if d == 1 {
        '1'
    } else if d == 2 {
        '2'
    } else if d == 3 {
        '3'
    } else if d == 4 {
        '4'
    } else if d == 5 {
        '5'
    } else if d == 6 {
        '6'
    } else if d == 7 {
        '7'
    } else if d == 8 {
        '8'
    } else {
        '9'
    };
    if n < 10 {
        vec![c]
    } else {
        let mut out = decimal_chars(n / 10);
        out.push(c);
        out
    }
}

/// `s` padded on the left with spaces to at least four characters.
pub open spec fn padded4(s: Seq<char>) -> Seq<char> {
    if s.len() < 4 {
        repeated(' ', (4 - s.len()) as nat) + s
    } else {
        s
    }
}

/// Line `l` with its 1-based number `n` in front.
pub open spec fn numbered(n: nat, l: Seq<char>) -> Seq<char> {
    padded4(decimal(n)) + ": "@ + l
}

/// Each line numbered from 1, joined by line feeds.
pub open spec fn spec_add_line_numbers(t: Seq<char>) -> Seq<char> {
    joined(lines_of(t).map(|i: int, l: Seq<char>| numbered((i + 1) as nat, l)), "\n"@)
}

/// Puts the line number, right-aligned in four columns, and `": "` in
/// front of every line.
pub fn add_line_numbers(text: &str) -> (r: String)
    ensures
        r@ == spec_add_line_numbers(text@),
{
    let lines = split_lines(&chars_of(text));
    let mut out: Vec<Vec<char>> = Vec::new();
    let mut i: usize = 0;
    while i < lines.len()
        invariant
            i <= lines.len(),
            views(lines@) == lines_of(text@),
            out@.len() == i,
            forall|k: int|
                0 <= k < i ==> #[trigger] out@[k]@ == numbered((k + 1) as nat, lines@[k]@),
        decreases lines.len() - i,
    {
        let num = decimal_chars(i + 1);
        let mut l: Vec<char> = if num.len() < 4 {
            repeat_char(' ', (4 - num.len()) as u128)
        } else {
            Vec::new()
        };
        push_all(&mut l, &num);
        push_all(&mut l, &chars_of(": "));
        push_all(&mut l, &lines[i]);
        out.push(l);
        i = i + 1;
    }
    assert(views(out@) == lines_of(text@).map(
        |i: int, l: Seq<char>| numbered((i + 1) as nat, l),
    ));
    join_lines_nl(&out)
}

/// Each line without a leading number followed by `.` or `:`.
pub open spec fn spec_remove_line_numbers(t: Seq<char>) -> Seq<char> {
    joined(
        lines_of(t).map_values(
            |l: Seq<char>| regex_substituted_first("^\\s*\\d+[.:]\\s*"@, l, ""@),
        ),
        "\n"@,
    )
}

/// Removes a leading line number written as `N.` or `N:` (with the white
/// space around it) from every line.
pub fn remove_line_numbers(text: &str) -> (r: String)
    ensures
        r@ == spec_remove_line_numbers(text@),
{
    join_lines_nl(&map_lines_first(&chars_of(text), "^\\s*\\d+[.:]\\s*", ""))
}

/// Each line without the digits that follow its indentation.
pub open spec fn spec_remove_line_numbers_stuck(t: Seq<char>) -> Seq<char> {
    joined(
        lines_of(t).map_values(|l: Seq<char>| regex_substituted_first("^(\\s*)\\d+"@, l, "$1"@)),
        "\n"@,
    )
}

/// Removes line numbers written directly before the content, keeping the
/// indentation before them.
pub fn remove_line_numbers_stuck(text: &str) -> (r: String)
    ensures
        r@ == spec_remove_line_numbers_stuck(text@),
{
    join_lines_nl(&map_lines_first(&chars_of(text), "^(\\s*)\\d+", "$1"))
}

// ---------------------------------------------------------------------
// Line endings

/// Every `\r\n`, then every remaining `\r`, made `\n`.
pub open spec fn spec_to_unix_line_endings(t: Seq<char>) -> Seq<char> {
    replaced(replaced(t, "\r\n"@, "\n"@), "\r"@, "\n"@)
}

/// Converts line endings to `\n`.
pub fn to_unix_line_endings(text: &str) -> (r: String)
    ensures
        r@ == spec_to_unix_line_endings(text@),
{
    let v = chars_of(text);
    string_of(&replace_str(&replace_str(&v, "\r\n", "\n"), "\r", "\n"))
}

/// Line endings made `\n`, then each `\n` made `\r\n`.
pub open spec fn spec_to_windows_line_endings(t: Seq<char>) -> Seq<char> {
    replaced(spec_to_unix_line_endings(t), "\n"@, "\r\n"@)
}

/// Converts line endings to `\r\n`.
pub fn to_windows_line_endings(text: &str) -> (r: String)
    ensures
        r@ == spec_to_windows_line_endings(text@),
{
    let v = chars_of(text);
    let u = replace_str(&replace_str(&v, "\r\n", "\n"), "\r", "\n");
    string_of(&replace_str(&u, "\n", "\r\n"))
}

// ---------------------------------------------------------------------
// Joining and splitting

/// The lines joined by `sep`.
pub open spec fn spec_join_lines(t: Seq<char>, sep: Seq<char>) -> Seq<char> {
    joined(lines_of(t), sep)
}

/// Joins the lines into one, with `separator` between them.
pub fn join_lines(text: &str, separator: &str) -> (r: String)
    ensures
        r@ == spec_join_lines(text@, separator@),
{
    let lines = split_lines(&chars_of(text));
    string_of(&join_with(&lines, &chars_of(separator)))
}

/// Every occurrence of the delimiter made a line feed: the pieces between
/// the delimiters, one per line.
pub open spec fn spec_split_to_lines(t: Seq<char>, delim: Seq<char>) -> Seq<char> {
    replaced(t, delim, "\n"@)
}

/// Splits the text at each occurrence of `delimiter` and puts the pieces
/// on lines of their own.
pub fn split_to_lines(text: &str, delimiter: &str) -> (r: String)
    ensures
        r@ == spec_split_to_lines(text@, delimiter@),
{
    string_of(&replace_str(&chars_of(text), delimiter, "\n"))
}

// ---------------------------------------------------------------------
// HTML

/// The five special characters written as entities, `&` first.
pub open spec fn spec_encode_html_entities(t: Seq<char>) -> Seq<char> {
    let a = replaced(t, "&"@, "&amp;"@);
    let b = replaced(a, "<"@, "&lt;"@);
    let c = replaced(b, ">"@, "&gt;"@);
    let d = replaced(c, "\""@, "&quot;"@);
    replaced(d, "'"@, "&#39;"@)
}

/// Writes `&`, `<`, `>`, `"` and `'` as HTML entities.
pub fn encode_html_entities(text: &str) -> (r: String)
    ensures
        r@ == spec_encode_html_entities(text@),
{
    let v = chars_of(text);
    let a = replace_str(&v, "&", "&amp;");
    let b = replace_str(&a, "<", "&lt;");
    let c = replace_str(&b, ">", "&gt;");
    let d = replace_str(&c, "\"", "&quot;");
    string_of(&replace_str(&d, "'", "&#39;"))
}

/// The six known entities replaced by their characters, one after another
/// in a fixed order.
pub open spec fn spec_decode_html_entities(t: Seq<char>) -> Seq<char> {
    let a = replaced(t, "&amp;"@, "&"@);
    let b = replaced(a, "&lt;"@, "<"@);
    let c = replaced(b, "&gt;"@, ">"@);
    let d = replaced(c, "&quot;"@, "\""@);
    let e = replaced(d, "&#39;"@, "'"@);
    replaced(e, "&nbsp;"@, " "@)
}

/// Replaces `&amp;`, `&lt;`, `&gt;`, `&quot;`, `&#39;` and `&nbsp;` by the
/// characters they stand for.
pub fn decode_html_entities(text: &str) -> (r: String)
    ensures
        r@ == spec_decode_html_entities(text@),
{
    let v = chars_of(text);
    let a = replace_str(&v, "&amp;", "&");
    let b = replace_str(&a, "&lt;", "<");
    let c = replace_str(&b, "&gt;", ">");
    let d = replace_str(&c, "&quot;", "\"");
    let e = replace_str(&d, "&#39;", "'");
    string_of(&replace_str(&e, "&nbsp;", " "))
}

// ---------------------------------------------------------------------
// Wrapping

/// `cur` appended to the wrapped text `done`, on a line of its own unless
/// `done` is empty.
pub open spec fn flushed(done: Seq<char>, cur: Seq<char>) -> Seq<char> {
    if done.len() == 0 {
        cur
    } else {
        done.push('\n') + cur
    }
}

/// After placing the words `ws`: the lines already closed, joined, and the
/// line being filled. A word joins the current line while the line stays
/// within `width` bytes.
pub open spec fn wrap_scan(ws: Seq<Seq<char>>, width: nat) -> (Seq<char>, Seq<char>)
    decreases ws.len(),
{
    if ws.len() == 0 {
        (Seq::empty(), Seq::empty())
    } else {
        let p = wrap_scan(ws.drop_last(), width);
        let w = ws.last();
        if p.1.len() == 0 {
            (p.0, w)
        } else if utf8_len(p.1) + 1 + utf8_len(w) <= width {
            (p.0, p.1.push(' ') + w)
        } else {
            (flushed(p.0, p.1), w)
        }
    }
}

/// A line kept as it is if it fits in `width` bytes, else its words
/// greedily refilled into lines of at most `width` bytes (a longer word
/// stands alone).
pub open spec fn wrapped_line(l: Seq<char>, width: nat) -> Seq<char> {
    if utf8_len(l) <= width {
        l
    } else {
        let p = wrap_scan(words_of(l), width);
        if p.1.len() > 0 {
            flushed(p.0, p.1)
        } else {
            p.0
        }
    }
}

/// Each line wrapped at `width` bytes, joined by line feeds.
pub open spec fn spec_wrap_lines(t: Seq<char>, width: nat) -> Seq<char> {
    joined(lines_of(t).map_values(|l: Seq<char>| wrapped_line(l, width)), "\n"@)
}

/// `cur` appended to `done` as `flushed` states.
fn flush(done: &mut Vec<char>, cur: &Vec<char>)
    ensures
        final(done)@ == flushed(old(done)@, cur@),
{
    if done.len() > 0 {
        done.push('\n');
    }
    push_all(done, cur);
}

/// One line wrapped, as `wrapped_line` states.
fn wrap_line(l: &Vec<char>, width: usize) -> (r: Vec<char>)
    ensures
        r@ == wrapped_line(l@, width as nat),
{
    if byte_len(l) <= width as u128 {
        return copy_chars(l);
    }
    let ws = split_words(l);
    let ghost wv = views(ws@);
    let mut done: Vec<char> = Vec::new();
    let mut cur: Vec<char> = Vec::new();
    let mut i: usize = 0;
    while i < ws.len()
        invariant
            i <= ws.len(),
            wv == views(ws@),
            done@ == wrap_scan(wv.take(i as int), width as nat).0,
            cur@ == wrap_scan(wv.take(i as int), width as nat).1,
        decreases ws.len() - i,
    {
        assert(wv.take(i + 1).drop_last() == wv.take(i as int));
        assert(wv.take(i + 1).last() == ws@[i as int]@);
        if cur.len() == 0 {
            cur = copy_chars(&ws[i]);
        } else {
            let cur_len = byte_len(&cur);
            let word_len = byte_len(&ws[i]);
            if cur_len + 1 + word_len <= width as u128 {
                cur.push(' ');
                push_all(&mut cur, &ws[i]);
            } else {
                flush(&mut done, &cur);
                cur = copy_chars(&ws[i]);
            }
        }
        i = i + 1;
    }
    assert(wv.take(ws.len() as int) == wv);
    if cur.len() > 0 {
        flush(&mut done, &cur);
    }
    done
}

/// Refills every line longer than `width` bytes into lines of at most
/// `width` bytes, breaking between words; shorter lines stay as they are.
pub fn wrap_lines(text: &str, width: usize) -> (r: String)
    ensures
        r@ == spec_wrap_lines(text@, width as nat),
{
    let lines = split_lines(&chars_of(text));
    let mut out: Vec<Vec<char>> = Vec::new();
    let mut i: usize = 0;
    while i < lines.len()
        invariant
            i <= lines.len(),
            views(lines@) == lines_of(text@),
            out@.len() == i,
            forall|k: int|
                0 <= k < i ==> #[trigger] out@[k]@ == wrapped_line(lines@[k]@, width as nat),
        decreases lines.len() - i,
    {
        out.push(wrap_line(&lines[i], width));
        i = i + 1;
    }
    assert(views(out@) == lines_of(text@).map_values(|l: Seq<char>| wrapped_line(l, width as nat)));
    join_lines_nl(&out)
}

// ---------------------------------------------------------------------
// Numbers

/// Whether `c` is an ASCII decimal digit.
pub open spec fn is_digit(c: char) -> bool {
    '0' <= c && c <= '9'
}

/// The characters that number extraction keeps: digits, `.`, `-` and
/// white space.
pub open spec fn numeric_char(c: char) -> bool {
    is_digit(c) || c == '.' || c == '-' || is_space(c)
}

/// A token without its leading minus sign, if any.
pub open spec fn unsigned_part(w: Seq<char>) -> Seq<char> {
    if w.len() > 0 && w[0] == '-' {
        w.skip(1)
    } else {
        w
    }
}

/// Whether `b` is digits with at most one dot among them, and at least one
/// digit.
pub open spec fn unsigned_number(b: Seq<char>) -> bool {
    &&& forall|i: int| 0 <= i < b.len() ==> is_digit(#[trigger] b[i]) || b[i] == '.'
    &&& forall|i: int, j: int|
        #![trigger b[i], b[j]]
        0 <= i < j < b.len() && b[i] == '.' ==> b[j] != '.'
    &&& exists|i: int| 0 <= i < b.len() && is_digit(#[trigger] b[i])
}

/// Whether a token of digits, dots and minus signs is a number in Rust's
/// float syntax: an optional leading minus, then digits with at most one
/// dot among them, and at least one digit.
pub open spec fn number_token(w: Seq<char>) -> bool {
    unsigned_number(unsigned_part(w))
}

/// Whether the token is a number, as `number_token` states.
fn is_number_token(w: &Vec<char>) -> (r: bool)
    ensures
        r == number_token(w@),
{
    let start: usize = if w.len() > 0 && w[0] == '-' {
        1
    } else {
        0
    };
    let ghost b = unsigned_part(w@);
    assert(b == w@.skip(start as int));
    let mut ok = true;
    let mut seen_dot = false;
    let mut two_dots = false;
    let mut digit = false;
    let mut k: usize = start;
    while k < w.len()
        invariant
            start <= k <= w.len(),
            b == w@.skip(start as int),
            ok == (forall|i: int| 0 <= i < k - start ==> is_digit(#[trigger] b[i]) || b[i] == '.'),
            seen_dot == (exists|i: int| 0 <= i < k - start && #[trigger] b[i] == '.'),
            two_dots == (exists|i: int, j: int|
                #![trigger b[i], b[j]]
                0 <= i < j < k - start && b[i] == '.' && b[j] == '.'),
            digit == (exists|i: int| 0 <= i < k - start && is_digit(#[trigger] b[i])),
        decreases w.len() - k,
    {
        let c = w[k];
        assert(b[k - start] == c);
        if '0' <= c && c <= '9' {
            digit = true;
        } else if c == '.' {
            if seen_dot {
                two_dots = true;
            }
            seen_dot = true;
        } else {
            ok = false;
        }
        k = k + 1;
    }
    assert(k - start == b.len());
    assert(ok == (forall|i: int| 0 <= i < b.len() ==> is_digit(#[trigger] b[i]) || b[i] == '.'));
    assert(!two_dots == (forall|i: int, j: int|
        #![trigger b[i], b[j]]
        0 <= i < j < b.len() && b[i] == '.' ==> b[j] != '.'));
    assert(digit == (exists|i: int| 0 <= i < b.len() && is_digit(#[trigger] b[i])));
    ok && !two_dots && digit
}

/// Digits, dots, minus signs and white space kept; of the tokens between
/// white space, the numbers, one per line.
pub open spec fn spec_extract_numbers(t: Seq<char>) -> Seq<char> {
    joined(
        words_of(t.filter(|c: char| numeric_char(c))).filter(|w: Seq<char>| number_token(w)),
        "\n"@,
    )
}

/// Keeps the numbers of the text, one per line.
pub fn extract_numbers(text: &str) -> (r: String)
    ensures
        r@ == spec_extract_numbers(text@),
{
    let v = chars_of(text);
    let ghost keep = |c: char| numeric_char(c);
    let mut kept: Vec<char> = Vec::new();
    let mut i: usize = 0;
    while i < v.len()
        invariant
            i <= v.len(),
            kept@ == v@.take(i as int).filter(keep),
            keep == (|c: char| numeric_char(c)),
        decreases v.len() - i,
    {
        proof {
            reveal(Seq::filter);
            assert(v@.take(i + 1).drop_last() == v@.take(i as int));
        }
        let c = v[i];
        if ('0' <= c && c <= '9') || c == '.' || c == '-' || is_space_char(c) {
            kept.push(c);
        }
        i = i + 1;
    }
    assert(v@.take(v.len() as int) == v@);
    let tokens = split_words(&kept);
    let ghost tv = views(tokens@);
    let ghost is_num = |w: Seq<char>| number_token(w);
    let mut nums: Vec<Vec<char>> = Vec::new();
    let mut j: usize = 0;
    while j < tokens.len()
        invariant
            j <= tokens.len(),
            tv == views(tokens@),
            views(nums@) == tv.take(j as int).filter(is_num),
            is_num == (|w: Seq<char>| number_token(w)),
        decreases tokens.len() - j,
    {
        proof {
            reveal(Seq::filter);
            assert(tv.take(j + 1).drop_last() == tv.take(j as int));
            assert(tv.take(j + 1).last() == tokens@[j as int]@);
        }
        if is_number_token(&tokens[j]) {
            let t = copy_chars(&tokens[j]);
            proof {
                assert(views(nums@.push(t)) == views(nums@).push(t@));
            }
            nums.push(t);
        }
        j = j + 1;
    }
    assert(tv.take(tokens.len() as int) == tv);
    join_lines_nl(&nums)
}

// ---------------------------------------------------------------------
// Slugs

/// `s` without leading hyphens.
pub open spec fn dashes_trimmed_start(s: Seq<char>) -> Seq<char>
    decreases s.len(),
{
    if s.len() > 0 && s[0] == '-' {
        dashes_trimmed_start(s.skip(1))
    } else {
        s
    }
}

/// `s` without trailing hyphens.
pub open spec fn dashes_trimmed_end(s: Seq<char>) -> Seq<char>
    decreases s.len(),
{
    if s.len() > 0 && s.last() == '-' {
        dashes_trimmed_end(s.drop_last())
    } else {
        s
    }
}

/// `v` without hyphens at either end.
fn trim_dashes(v: &Vec<char>) -> (r: Vec<char>)
    ensures
        r@ == dashes_trimmed_end(dashes_trimmed_start(v@)),
{
    let mut i: usize = 0;
    assert(v@.skip(0) == v@);
    while i < v.len() && v[i] == '-'
        invariant
            i <= v.len(),
            dashes_trimmed_start(v@) == dashes_trimmed_start(v@.skip(i as int)),
        decreases v.len() - i,
    {
        assert(v@.skip(i as int).skip(1) == v@.skip(i + 1));
        i = i + 1;
    }
    let s = slice_chars(v, i, v.len());
    assert(s@ == v@.skip(i as int));
    let mut j: usize = s.len();
    assert(s@.take(s.len() as int) == s@);
    while j > 0 && s[j - 1] == '-'
        invariant
            j <= s.len(),
            dashes_trimmed_end(s@) == dashes_trimmed_end(s@.take(j as int)),
        decreases j,
    {
        assert(s@.take(j as int).drop_last() == s@.take(j - 1));
        j = j - 1;
    }
    assert(s@.subrange(0, j as int) == s@.take(j as int));
    slice_chars(&s, 0, j)
}

/// Lower case, characters other than `a-z`, `0-9`, white space and `-`
/// dropped, runs of white space and `_` made one hyphen, hyphens trimmed.
pub open spec fn spec_slugify(t: Seq<char>) -> Seq<char> {
    let a = lower_of(t);
    let b = regex_substituted("[^a-z0-9\\s-]"@, a, ""@);
    let c = regex_substituted("[\\s_]+"@, b, "-"@);
    dashes_trimmed_end(dashes_trimmed_start(c))
}

/// Makes a URL slug of the text.
pub fn slugify(text: &str) -> (r: String)
    ensures
        r@ == spec_slugify(text@),
{
    let a = lowercase(text);
    let b = substitute_all("[^a-z0-9\\s-]", a.as_str(), "");
    let c = substitute_all("[\\s_]+", b.as_str(), "-");
    string_of(&trim_dashes(&chars_of(c.as_str())))
}

// ---------------------------------------------------------------------
// Identifier styles

/// Each part mapped by the lower-case mapping.
fn lower_all(ws: &Vec<Vec<char>>) -> (r: Vec<Vec<char>>)
    ensures
        views(r@) == views(ws@).map_values(|w: Seq<char>| lower_of(w)),
{
    let mut out: Vec<Vec<char>> = Vec::new();
    let mut i: usize = 0;
    while i < ws.len()
        invariant
            i <= ws.len(),
            out@.len() == i,
            forall|k: int| 0 <= k < i ==> #[trigger] out@[k]@ == lower_of(ws@[k]@),
        decreases ws.len() - i,
    {
        out.push(lower_chars(&ws[i]));
        i = i + 1;
    }
    assert(views(out@) == views(ws@).map_values(|w: Seq<char>| lower_of(w)));
    out
}

/// Each part mapped by the upper-case mapping.
fn upper_all(ws: &Vec<Vec<char>>) -> (r: Vec<Vec<char>>)
    ensures
        views(r@) == views(ws@).map_values(|w: Seq<char>| upper_of(w)),
{
    let mut out: Vec<Vec<char>> = Vec::new();
    let mut i: usize = 0;
    while i < ws.len()
        invariant
            i <= ws.len(),
            out@.len() == i,
            forall|k: int| 0 <= k < i ==> #[trigger] out@[k]@ == upper_of(ws@[k]@),
        decreases ws.len() - i,
    {
        out.push(upper_chars(&ws[i]));
        i = i + 1;
    }
    assert(views(out@) == views(ws@).map_values(|w: Seq<char>| upper_of(w)));
    out
}

/// The first word in lower case, each later word capitalized, with nothing
/// between them.
pub open spec fn spec_to_camel_case(t: Seq<char>) -> Seq<char> {
    let ws = words_of(t);
    if ws.len() == 0 {
        Seq::empty()
    } else {
        lower_of(ws[0]) + joined(ws.skip(1).map_values(|w: Seq<char>| capitalized(w)), Seq::empty())
    }
}

/// Writes the words in camelCase.
pub fn to_camel_case(text: &str) -> (r: String)
    ensures
        r@ == spec_to_camel_case(text@),
{
    let ws = split_words(&chars_of(text));
    if ws.len() == 0 {
        return String::new();
    }
    let mut out = lower_chars(&ws[0]);
    let mut rest: Vec<Vec<char>> = Vec::new();
    let mut i: usize = 1;
    while i < ws.len()
        invariant
            1 <= i <= ws.len(),
            rest@.len() == i - 1,
            forall|k: int| 0 <= k < i - 1 ==> #[trigger] rest@[k]@ == capitalized(ws@[k + 1]@),
        decreases ws.len() - i,
    {
        rest.push(capitalize(&ws[i]));
        i = i + 1;
    }
    assert(views(rest@) == words_of(text@).skip(1).map_values(|w: Seq<char>| capitalized(w)));
    let empty: Vec<char> = Vec::new();
    push_all(&mut out, &join_with(&rest, &empty));
    string_of(&out)
}

/// Every word capitalized, with nothing between them.
pub open spec fn spec_to_pascal_case(t: Seq<char>) -> Seq<char> {
    joined(words_of(t).map_values(|w: Seq<char>| capitalized(w)), Seq::empty())
}

/// Writes the words in PascalCase.
pub fn to_pascal_case(text: &str) -> (r: String)
    ensures
        r@ == spec_to_pascal_case(text@),
{
    let ws = split_words(&chars_of(text));
    let empty: Vec<char> = Vec::new();
    string_of(&join_with(&capitalize_all(&ws), &empty))
}

/// The words in lower case, joined by `_`.
pub open spec fn spec_to_snake_case(t: Seq<char>) -> Seq<char> {
    joined(words_of(t).map_values(|w: Seq<char>| lower_of(w)), "_"@)
}

/// Writes the words in snake_case.
pub fn to_snake_case(text: &str) -> (r: String)
    ensures
        r@ == spec_to_snake_case(text@),
{
    let ws = split_words(&chars_of(text));
    string_of(&join_with(&lower_all(&ws), &chars_of("_")))
}

/// The words in upper case, joined by `_`.
pub open spec fn spec_to_screaming_snake_case(t: Seq<char>) -> Seq<char> {
    joined(words_of(t).map_values(|w: Seq<char>| upper_of(w)), "_"@)
}

/// Writes the words in SCREAMING_SNAKE_CASE.
pub fn to_screaming_snake_case(text: &str) -> (r: String)
    ensures
        r@ == spec_to_screaming_snake_case(text@),
{
    let ws = split_words(&chars_of(text));
    string_of(&join_with(&upper_all(&ws), &chars_of("_")))
}

/// The words in lower case, joined by `-`.
pub open spec fn spec_to_kebab_case(t: Seq<char>) -> Seq<char> {
    joined(words_of(t).map_values(|w: Seq<char>| lower_of(w)), "-"@)
}

/// Writes the words in kebab-case.
pub fn to_kebab_case(text: &str) -> (r: String)
    ensures
        r@ == spec_to_kebab_case(text@),
{
    let ws = split_words(&chars_of(text));
    string_of(&join_with(&lower_all(&ws), &chars_of("-")))
}

// ---------------------------------------------------------------------
// Markdown

/// Each line of `t` with the leftmost match of `pattern` removed.
pub open spec fn lines_stripped(t: Seq<char>, pattern: Seq<char>) -> Seq<char> {
    joined(lines_of(t).map_values(|l: Seq<char>| regex_substituted_first(pattern, l, ""@)), "\n"@)
}

/// Markdown markup removed in a fixed order: heading markers, bold, italic,
/// links (keeping their text), inline code, then bullet markers.
pub open spec fn spec_remove_markdown(t: Seq<char>) -> Seq<char> {
    let a = lines_stripped(t, "^#{1,6}\\s+"@);
    let b = regex_substituted("\\*\\*([^*]+)\\*\\*"@, a, "$1"@);
    let c = regex_substituted("\\*([^*]+)\\*"@, b, "$1"@);
    let d = regex_substituted("__([^_]+)__"@, c, "$1"@);
    let e = regex_substituted("_([^_]+)_"@, d, "$1"@);
    let f = regex_substituted("\\[([^\\]]+)\\]\\([^)]+\\)"@, e, "$1"@);
    let g = regex_substituted("`([^`]+)`"@, f, "$1"@);
    lines_stripped(g, "^\\s*[-*+]\\s+"@)
}

/// Removes Markdown headings, emphasis, links, inline code and bullets,
/// keeping the text they mark.
pub fn remove_markdown(text: &str) -> (r: String)
    ensures
        r@ == spec_remove_markdown(text@),
{
    let a = join_lines_nl(&map_lines_first(&chars_of(text), "^#{1,6}\\s+", ""));
    let b = substitute_all("\\*\\*([^*]+)\\*\\*", a.as_str(), "$1");
    let c = substitute_all("\\*([^*]+)\\*", b.as_str(), "$1");
    let d = substitute_all("__([^_]+)__", c.as_str(), "$1");
    let e = substitute_all("_([^_]+)_", d.as_str(), "$1");
    let f = substitute_all("\\[([^\\]]+)\\]\\([^)]+\\)", e.as_str(), "$1");
    let g = substitute_all("`([^`]+)`", f.as_str(), "$1");
    join_lines_nl(&map_lines_first(&chars_of(g.as_str()), "^\\s*[-*+]\\s+", ""))
}

// ---------------------------------------------------------------------
// Laws

/// Keeping first occurrences from a sequence without repeats, after seen
/// items it does not share, appends the whole sequence.
proof fn lemma_remove_duplicates_keeps_distinct(s: Seq<Seq<char>>, seen: Seq<Seq<char>>)
    requires
        s.no_duplicates(),
        forall|i: int| 0 <= i < s.len() ==> !seen.contains(#[trigger] s[i]),
    ensures
        s.remove_duplicates(seen) == seen + s,
    decreases s.len(),
{
    if s.len() == 0 {
        assert(seen + s == seen);
    } else {
        let t = s.skip(1);
        let seen2 = seen + seq![s[0]];
        assert forall|i: int| 0 <= i < t.len() implies !seen2.contains(#[trigger] t[i]) by {
            assert(t[i] == s[i + 1]);
            if seen2.contains(t[i]) {
                let k = choose|k: int| 0 <= k < seen2.len() && seen2[k] == t[i];
                if k < seen.len() {
                    assert(seen.contains(s[i + 1]));
                }
            }
        }
        lemma_remove_duplicates_keeps_distinct(t, seen2);
        assert(seen2 + t == seen + s);
    }
}

/// Keeping first occurrences yields a sequence without repeats, each item
/// from the input or the seen items.
proof fn lemma_remove_duplicates_distinct(s: Seq<Seq<char>>, seen: Seq<Seq<char>>)
    requires
        seen.no_duplicates(),
    ensures
        s.remove_duplicates(seen).no_duplicates(),
        forall|i: int|
            0 <= i < s.remove_duplicates(seen).len() ==> seen.contains(
                #[trigger] s.remove_duplicates(seen)[i],
            ) || s.contains(s.remove_duplicates(seen)[i]),
    decreases s.len(),
{
    if s.len() > 0 {
        let t = s.skip(1);
        if seen.contains(s[0]) {
            lemma_remove_duplicates_distinct(t, seen);
            assert forall|i: int| 0 <= i < t.remove_duplicates(seen).len() implies seen.contains(
                #[trigger] t.remove_duplicates(seen)[i],
            ) || s.contains(t.remove_duplicates(seen)[i]) by {
                let x = t.remove_duplicates(seen)[i];
                if t.contains(x) {
                    let k = choose|k: int| 0 <= k < t.len() && t[k] == x;
                    assert(s[k + 1] == x);
                }
            }
        } else {
            let seen2 = seen + seq![s[0]];
            assert(seen2.no_duplicates()) by {
                assert forall|a: int, b: int|
                    0 <= a < seen2.len() && 0 <= b < seen2.len() && a != b implies seen2[a]
                    != seen2[b] by {
                    if a < seen.len() && b < seen.len() {
                    } else if a < seen.len() {
                        assert(seen.contains(seen2[a]));
                    } else if b < seen.len() {
                        assert(seen.contains(seen2[b]));
                    }
                }
            }
            lemma_remove_duplicates_distinct(t, seen2);
            assert forall|i: int| 0 <= i < t.remove_duplicates(seen2).len() implies seen.contains(
                #[trigger] t.remove_duplicates(seen2)[i],
            ) || s.contains(t.remove_duplicates(seen2)[i]) by {
                let x = t.remove_duplicates(seen2)[i];
                if seen2.contains(x) {
                    let k = choose|k: int| 0 <= k < seen2.len() && seen2[k] == x;
                    if k < seen.len() {
                        assert(seen.contains(x));
                    } else {
                        assert(s[0] == x);
                    }
                } else {
                    let k = choose|k: int| 0 <= k < t.len() && t[k] == x;
                    assert(s[k + 1] == x);
                }
            }
        }
    }
}

/// Removing duplicate lines twice gives what removing them once gives, for
/// every text whose first occurrences survive being joined and split again
/// (no kept line but the last ends with a carriage return, and the last kept
/// line is empty only when it is the only one).
pub proof fn lemma_remove_duplicate_lines_idempotent(t: Seq<char>)
    requires
        lines_survive_join(unique_lines(t)),
    ensures
        spec_remove_duplicate_lines(spec_remove_duplicate_lines(t)) == spec_remove_duplicate_lines(
            t,
        ),
{
    let u = unique_lines(t);
    let r = spec_remove_duplicate_lines(t);
    lemma_remove_duplicates_distinct(lines_of(t), Seq::empty());
    lemma_lines_no_lf(t);
    assert forall|i: int| 0 <= i < u.len() implies no_lf(#[trigger] u[i]) by {
        let x = u[i];
        let k = choose|k: int| 0 <= k < lines_of(t).len() && lines_of(t)[k] == x;
        assert(no_lf(lines_of(t)[k]));
    }
    if u.len() == 1 && u[0].len() == 0 {
        assert(r == u[0]);
        assert(r.len() == 0);
        assert(lines_of(r) == Seq::<Seq<char>>::empty());
    } else {
        lemma_lines_of_joined(u);
        lemma_remove_duplicates_keeps_distinct(u, Seq::empty());
        assert(Seq::<Seq<char>>::empty() + u == u);
    }
}

/// Whether `s` holds no carriage return.
pub open spec fn no_cr(s: Seq<char>) -> bool {
    forall|i: int| 0 <= i < s.len() ==> s[i] != '\r'
}

/// Replacing every carriage return leaves none.
proof fn lemma_replace_cr_clears(s: Seq<char>, rep: Seq<char>)
    requires
        no_cr(rep),
    ensures
        no_cr(replaced(s, "\r"@, rep)),
    decreases s.len(),
{
    reveal_strlit("\r");
    if s.len() > 0 {
        lemma_replace_cr_clears(s.skip(1), rep);
        let rest = replaced(s.skip(1), "\r"@, rep);
        if "\r"@.is_prefix_of(s) {
            assert(replaced(s, "\r"@, rep) == rep + rest);
        } else {
            assert(s[0] != '\r');
            assert(replaced(s, "\r"@, rep) == seq![s[0]] + rest);
        }
    }
}

/// A pattern that starts with a carriage return never occurs in a text
/// without one.
proof fn lemma_replace_absent(s: Seq<char>, pat: Seq<char>, rep: Seq<char>)
    requires
        no_cr(s),
        pat.len() > 0,
        pat[0] == '\r',
    ensures
        replaced(s, pat, rep) == s,
    decreases s.len(),
{
    if s.len() > 0 {
        lemma_replace_absent(s.skip(1), pat, rep);
        assert(!pat.is_prefix_of(s)) by {
            if pat.is_prefix_of(s) {
                assert(s[0] == pat[0]);
            }
        }
        assert(seq![s[0]] + s.skip(1) == s);
    }
}

/// Expanding line feeds to `\r\n` and folding `\r\n` back gives the text
/// again, when it holds no carriage return.
proof fn lemma_crlf_round_trip(s: Seq<char>)
    requires
        no_cr(s),
    ensures
        replaced(replaced(s, "\n"@, "\r\n"@), "\r\n"@, "\n"@) == s,
    decreases s.len(),
{
    reveal_strlit("\n");
    reveal_strlit("\r\n");
    if s.len() > 0 {
        let w1 = replaced(s.skip(1), "\n"@, "\r\n"@);
        lemma_crlf_round_trip(s.skip(1));
        if s[0] == '\n' {
            assert("\n"@.is_prefix_of(s));
            let w = "\r\n"@ + w1;
            assert(replaced(s, "\n"@, "\r\n"@) == w);
            assert("\r\n"@.is_prefix_of(w));
            assert(w.skip(2) == w1);
            assert("\n"@ + s.skip(1) == s);
        } else {
            assert(!"\n"@.is_prefix_of(s)) by {
                if "\n"@.is_prefix_of(s) {
                    assert(s.subrange(0, 1)[0] == s[0]);
                }
            }
            let w = seq![s[0]] + w1;
            assert(replaced(s, "\n"@, "\r\n"@) == w);
            assert(!"\r\n"@.is_prefix_of(w)) by {
                if "\r\n"@.is_prefix_of(w) {
                    assert(w.subrange(0, 2)[0] == w[0]);
                    assert(w[0] == s[0]);
                }
            }
            assert(w.skip(1) == w1);
            assert(seq![s[0]] + s.skip(1) == s);
        }
    }
}

/// Converting to Unix line endings after converting to Windows line endings
/// gives back the Unix form of the text.
pub proof fn lemma_line_endings_round_trip(t: Seq<char>)
    ensures
        spec_to_unix_line_endings(spec_to_windows_line_endings(spec_to_unix_line_endings(t)))
            == spec_to_unix_line_endings(t),
{
    reveal_strlit("\r");
    reveal_strlit("\n");
    reveal_strlit("\r\n");
    let u = spec_to_unix_line_endings(t);
    lemma_replace_cr_clears(replaced(t, "\r\n"@, "\n"@), "\n"@);
    lemma_replace_absent(u, "\r\n"@, "\n"@);
    lemma_replace_absent(u, "\r"@, "\n"@);
    let w = replaced(u, "\n"@, "\r\n"@);
    assert(spec_to_windows_line_endings(u) == w);
    lemma_crlf_round_trip(u);
}

} // verus!
