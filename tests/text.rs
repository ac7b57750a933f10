use enwiro::recipe::{parse_recipe_line, parse_recipe_listing, CookbookMetadata, Recipe};
use enwiro::text::{
    find_char, parse_i32, parse_u64, rfind_char, rsplit_once, same_text, split_lines, split_once,
    strip_prefix, strip_suffix, trim, white_space,
};

#[test]
fn trim_removes_unicode_white_space() {
    assert_eq!(trim("  123\n"), "123");
    assert_eq!(trim("\u{3000}a b\u{a0}"), "a b");
    assert_eq!(trim("   "), "");
    assert_eq!(trim(""), "");
    assert_eq!(trim("x"), "x");
}

#[test]
fn white_space_matches_std() {
    for c in ['\t', '\n', '\u{b}', '\u{c}', '\r', ' ', '\u{85}', '\u{a0}', '\u{1680}', '\u{2000}', '\u{200a}', '\u{2028}', '\u{2029}', '\u{202f}', '\u{205f}', '\u{3000}', 'a', '\u{200b}', '0', '\u{feff}'] {
        assert_eq!(white_space(c), c.is_whitespace(), "{:?}", c);
    }
}

#[test]
fn integers_parse_as_std_does() {
    for s in ["0", "42", "+7", "-7", "", "+", "-", "12a", " 1", "18446744073709551615", "18446744073709551616", "2147483647", "2147483648", "-2147483648", "-2147483649", "999999999", "not-a-number", "007"] {
        assert_eq!(parse_u64(s), s.parse::<u64>().ok(), "u64 {:?}", s);
        assert_eq!(parse_i32(s), s.parse::<i32>().ok(), "i32 {:?}", s);
    }
}

#[test]
fn finding_and_splitting() {
    assert_eq!(find_char("a#b#c", '#'), Some(1));
    assert_eq!(rfind_char("a#b#c", '#'), Some(3));
    assert_eq!(find_char("abc", '#'), None);
    assert_eq!(split_once("a\tb\tc", '\t'), Some(("a", "b\tc")));
    assert_eq!(rsplit_once("a#b#c", '#'), Some(("a#b", "c")));
    assert_eq!(split_once("abc", '\t'), None);
    assert_eq!(strip_prefix("https://x", "https://"), Some("x"));
    assert_eq!(strip_prefix("http", "https://"), None);
    assert_eq!(strip_suffix("repo.git", ".git"), Some("repo"));
    assert_eq!(strip_suffix("repo", ".git"), None);
    assert!(same_text("abc", "abc"));
    assert!(!same_text("abc", "abd"));
    assert!(!same_text("abc", "ab"));
}

#[test]
fn lines_split_as_std_does() {
    for s in ["", "a", "a\n", "a\n\n", "a\r\nb", "foo\r\nbar\n\nbaz\r", "\n", "x\ny\nz", "é\nü\n"] {
        let expected: Vec<&str> = s.lines().collect();
        assert_eq!(split_lines(s), expected, "{:?}", s);
    }
}

#[test]
fn recipe_lines_take_a_tab_separated_description() {
    let r = parse_recipe_line("owner/repo#42\t[PR] Fix it");
    assert_eq!(r.name, "owner/repo#42");
    assert_eq!(r.description.as_deref(), Some("[PR] Fix it"));
    let r = parse_recipe_line("my-project");
    assert_eq!(r.name, "my-project");
    assert_eq!(r.description, None);
}

#[test]
fn listing_output_gives_one_recipe_per_line() {
    let recipes = parse_recipe_listing("repo-a\nrepo-b\tdesc\n");
    assert_eq!(recipes.len(), 2);
    assert_eq!(recipes[0], Recipe::new("repo-a"));
    assert_eq!(recipes[1], Recipe::with_description("repo-b", "desc"));
    assert!(parse_recipe_listing("").is_empty());
    let recipes = parse_recipe_listing("\n");
    assert_eq!(recipes.len(), 1);
    assert_eq!(recipes[0].name, "");
}

#[test]
fn metadata_priority_defaults_to_fifty() {
    let meta = CookbookMetadata::default();
    assert_eq!(meta.priority(), 50);
    let meta = CookbookMetadata {
        description: None,
        default_priority: Some(10),
    };
    assert_eq!(meta.priority(), 10);
}
