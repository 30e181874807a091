use ninepaste::transformers::{
    add_line_numbers, decode_html_entities, encode_html_entities, extract_numbers,
    fix_smart_quotes, join_lines, normalize_unicode, normalize_whitespace, remove_duplicate_lines,
    remove_emails, remove_emojis, remove_empty_lines, remove_line_numbers, remove_markdown,
    remove_non_ascii, remove_phone_numbers, remove_urls, reverse_lines, slugify, sort_lines,
    sort_lines_reverse, spaces_to_tabs, split_to_lines, strip_formatting, tabs_to_spaces,
    to_camel_case, to_kebab_case, to_lowercase, to_pascal_case, to_screaming_snake_case,
    to_sentence_case, to_snake_case, to_title_case, to_unix_line_endings, to_uppercase,
    to_windows_line_endings, trim_lines, wrap_lines,
};

#[test]
fn normalize_whitespace_collapses_newlines_and_tabs() {
    assert_eq!(normalize_whitespace("\t a \n\n b\tc  "), "a b c");
    assert_eq!(normalize_whitespace(""), "");
    assert_eq!(normalize_whitespace("   "), "");
}

#[test]
fn trim_lines_trims_each_line() {
    assert_eq!(trim_lines("  a  \n\tb\t\n c"), "a\nb\nc");
    assert_eq!(trim_lines(""), "");
}

#[test]
fn remove_empty_lines_drops_blank_lines() {
    assert_eq!(remove_empty_lines("a\n\n   \nb\n"), "a\nb");
}

#[test]
fn case_mappings_use_full_unicode_rules() {
    assert_eq!(to_uppercase("straße"), "STRASSE");
    assert_eq!(to_lowercase("\u{C0}B"), "\u{E0}b");
}

#[test]
fn title_case_lowercases_the_rest_of_each_word() {
    assert_eq!(to_title_case("hELLO   wORLD"), "Hello World");
    assert_eq!(to_title_case(""), "");
}

#[test]
fn sentence_case_capitalizes_after_terminators() {
    assert_eq!(to_sentence_case("hello. WORLD! how?"), "Hello. World! How?");
    assert_eq!(to_sentence_case("1. abc"), "1. Abc");
}

#[test]
fn identifier_styles() {
    assert_eq!(to_camel_case("hello big world"), "helloBigWorld");
    assert_eq!(to_camel_case("HELLO big"), "helloBig");
    assert_eq!(to_camel_case("   "), "");
    assert_eq!(to_pascal_case("hello big world"), "HelloBigWorld");
    assert_eq!(to_screaming_snake_case("hello big world"), "HELLO_BIG_WORLD");
    assert_eq!(to_kebab_case("Hello Big World"), "hello-big-world");
    assert_eq!(to_snake_case(""), "");
}

#[test]
fn duplicate_removal_scenario_and_idempotence() {
    let once = remove_duplicate_lines("a\nb\na\nc\nb");
    assert_eq!(once, "a\nb\nc");
    assert_eq!(remove_duplicate_lines(&once), once);
    let t = "x\ny\n\nx\n\ny\nz";
    let once = remove_duplicate_lines(t);
    assert_eq!(once, "x\ny\n\nz");
    assert_eq!(remove_duplicate_lines(&once), once);
}

#[test]
fn duplicate_removal_drops_the_empty_line_after_a_final_line_feed() {
    assert_eq!(remove_duplicate_lines("a\n\n"), "a\n");
    assert_eq!(remove_duplicate_lines("a\n"), "a");
}

#[test]
fn sorting_and_reversing_lines() {
    assert_eq!(sort_lines("b\na\nc\nB"), "B\na\nb\nc");
    assert_eq!(sort_lines_reverse("b\na\nc"), "c\nb\na");
    assert_eq!(reverse_lines("1\n2\n3"), "3\n2\n1");
    assert_eq!(sort_lines("ab\na\n"), "a\nab");
}

#[test]
fn smart_quotes_ellipsis_and_dashes() {
    assert_eq!(fix_smart_quotes("wait\u{2026} a\u{2013}b a\u{2014}b"), "wait... a-b a--b");
}

#[test]
fn non_ascii_and_emoji_removal() {
    assert_eq!(remove_non_ascii("h\u{E9}llo"), "hllo");
    assert_eq!(remove_emojis("hi \u{1F600} there \u{2728}"), "hi  there ");
    assert_eq!(remove_emojis("caf\u{E9} \u{2192}"), "caf\u{E9} \u{2192}");
}

#[test]
fn unicode_composition() {
    assert_eq!(normalize_unicode("e\u{301}"), "\u{E9}");
}

#[test]
fn strip_formatting_removes_tags() {
    assert_eq!(strip_formatting("<b>hi</b>   there"), "hi there");
}

#[test]
fn tabs_and_spaces() {
    assert_eq!(tabs_to_spaces("\ta\tb", 2), "  a  b");
    assert_eq!(tabs_to_spaces("\ta", 0), "a");
    assert_eq!(spaces_to_tabs("      x\n  y", 4), "\t  x\n  y");
    assert_eq!(spaces_to_tabs("    a  b  ", 2), "\t\ta  b  ");
    assert_eq!(spaces_to_tabs("    a", 0), "    a");
    assert_eq!(spaces_to_tabs("\tx", 4), "\tx");
    assert_eq!(spaces_to_tabs("  \t  x", 2), "\t\t  x");
    assert_eq!(spaces_to_tabs("\u{A0}\u{A0}x", 1), "\u{A0}\u{A0}x");
}

#[test]
fn content_removal() {
    assert_eq!(remove_urls("see https://x.com/a?b now"), "see  now");
    assert_eq!(remove_emails("mail a@b.com now"), "mail  now");
    assert_eq!(remove_phone_numbers("call 555-123-4567 now"), "call  now");
}

#[test]
fn markdown_removal() {
    let input = "# Title\n**bold** and *it* [link](http://x) `code`\n- item";
    assert_eq!(remove_markdown(input), "Title\nbold and it link code\nitem");
}

#[test]
fn line_numbers() {
    assert_eq!(add_line_numbers("a\nb"), "   1: a\n   2: b");
    assert_eq!(add_line_numbers(""), "");
    assert_eq!(remove_line_numbers("1. first\n  2: second\nthird"), "first\nsecond\nthird");
}

#[test]
fn line_endings_round_trip() {
    let t = "a\r\nb\rc\nd";
    let unix = to_unix_line_endings(t);
    assert_eq!(unix, "a\nb\nc\nd");
    let windows = to_windows_line_endings(&unix);
    assert_eq!(windows, "a\r\nb\r\nc\r\nd");
    assert_eq!(to_unix_line_endings(&windows), unix);
    assert_eq!(to_windows_line_endings("x\r\n"), "x\r\n");
}

#[test]
fn wrapping_counts_bytes_and_keeps_long_words() {
    assert_eq!(wrap_lines("aaa bbb ccc", 7), "aaa bbb\nccc");
    assert_eq!(wrap_lines("short\nabcdefghij k", 5), "short\nabcdefghij\nk");
    assert_eq!(wrap_lines("a b", 0), "a\nb");
}

#[test]
fn number_extraction() {
    assert_eq!(extract_numbers("abc 12 x-3.5 . 1.2.3"), "12\n-3.5");
    assert_eq!(extract_numbers("5. and .5 and -"), "5.\n.5");
    assert_eq!(extract_numbers("none"), "");
    assert_eq!(extract_numbers("1\t2\r\n3"), "1\n2\n3");
}

#[test]
fn html_entities() {
    assert_eq!(
        encode_html_entities("<a href='x'>&\"</a>"),
        "&lt;a href=&#39;x&#39;&gt;&amp;&quot;&lt;/a&gt;"
    );
    assert_eq!(
        decode_html_entities("&lt;b&gt; &quot;x&quot; &#39;y&#39;&nbsp;z"),
        "<b> \"x\" 'y' z"
    );
    assert_eq!(decode_html_entities("&amp;lt;"), "<");
}

#[test]
fn slugs() {
    assert_eq!(slugify("  Hello, World__Again  "), "hello-worldagain");
    assert_eq!(slugify("--a--"), "a");
}

#[test]
fn joining_and_splitting() {
    assert_eq!(join_lines("a\r\nb\nc\n", ", "), "a, b, c");
    assert_eq!(split_to_lines("a,b,,c", ","), "a\nb\n\nc");
    assert_eq!(split_to_lines("ab", ""), "\na\nb\n");
}

#[test]
fn sorted_lines_are_an_ascending_permutation() {
    let input = "pear\napple\n\u{E9}clair\nApple\napple\n";
    let sorted = sort_lines(input);
    assert_eq!(sorted, "Apple\napple\napple\npear\n\u{E9}clair");
    let lines: Vec<&str> = sorted.lines().collect();
    assert!(lines.windows(2).all(|w| w[0] <= w[1]));
    let mut expected: Vec<&str> = input.lines().collect();
    expected.sort();
    assert_eq!(lines, expected);
}
