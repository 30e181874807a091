use ninepaste::transformers::{
    fix_smart_quotes, normalize_whitespace, remove_duplicate_lines, remove_line_numbers_stuck,
    slugify, to_snake_case, to_title_case,
};

#[test]
fn test_normalize_whitespace() {
    assert_eq!(normalize_whitespace("  hello   world  "), "hello world");
}

#[test]
fn test_remove_duplicate_lines() {
    assert_eq!(remove_duplicate_lines("a\nb\na\nc\nb"), "a\nb\nc");
}

#[test]
fn test_fix_smart_quotes() {
    let input = "\u{2018}hello\u{2019} \u{201C}world\u{201D}";
    assert_eq!(fix_smart_quotes(input), "'hello' \"world\"");
}

#[test]
fn test_to_title_case() {
    assert_eq!(to_title_case("hello world"), "Hello World");
}

#[test]
fn test_slugify() {
    assert_eq!(slugify("Hello World! 2024"), "hello-world-2024");
}

#[test]
fn test_to_snake_case() {
    assert_eq!(to_snake_case("Hello World"), "hello_world");
}

#[test]
fn test_remove_line_numbers_stuck() {
    let input = "1import React from \"react\";\n2import { useState } from \"react\";\n3\n93\t\tconst foo = 42;\n100\t\treturn foo;";
    let expected = "import React from \"react\";\nimport { useState } from \"react\";\n\n\t\tconst foo = 42;\n\t\treturn foo;";
    assert_eq!(remove_line_numbers_stuck(input), expected);
}
