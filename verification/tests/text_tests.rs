use ql_provision::decimal::{decimal_of, digit_of, parse_usize};
use ql_provision::paths::{file_name_of_path, parent_of_path, relative_to_parent_of};
use ql_provision::text::{
    chars_of, comes_before, count_char_in, find_char_in, is_space_char, join_strings,
    map_char_in, replace_all_in, same_text, split_chars, starts_with_chars, string_of,
    trim_chars,
};

fn cs(s: &str) -> Vec<char> {
    s.chars().collect()
}

fn st(v: &[char]) -> String {
    v.iter().collect()
}

#[test]
fn chars_and_strings_round_trip() {
    assert_eq!(chars_of("héllo"), cs("héllo"));
    assert_eq!(string_of(&cs("héllo")), "héllo");
    assert_eq!(chars_of(""), Vec::<char>::new());
}

#[test]
fn same_text_compares_contents() {
    assert!(same_text("abc", "abc"));
    assert!(!same_text("abc", "abd"));
    assert!(!same_text("abc", "ab"));
    assert!(same_text("", ""));
}

#[test]
fn find_char_gives_first_index_or_length() {
    assert_eq!(find_char_in(&cs("a#b#c"), '#'), 1);
    assert_eq!(find_char_in(&cs("abc"), '#'), 3);
    assert_eq!(find_char_in(&cs(""), '#'), 0);
    assert_eq!(find_char_in(&cs("#"), '#'), 0);
}

#[test]
fn count_char_counts_occurrences() {
    assert_eq!(count_char_in(&cs("1.12.2"), '.'), 2);
    assert_eq!(count_char_in(&cs("1.7"), '.'), 1);
    assert_eq!(count_char_in(&cs("17"), '.'), 0);
}

#[test]
fn split_agrees_with_std_split() {
    for text in ["a:b:c", "", ":", "a::b", "abc", ":a:", "net.minecraftforge:forge:1.2:extra"] {
        let expected: Vec<String> = text.split(':').map(|p| p.to_string()).collect();
        let got: Vec<String> = split_chars(&cs(text), ':').iter().map(|p| st(p)).collect();
        assert_eq!(got, expected, "splitting {text:?}");
    }
}

#[test]
fn map_char_replaces_every_occurrence() {
    assert_eq!(st(&map_char_in(&cs("net.minecraft.forge"), '.', '/')), "net/minecraft/forge");
    assert_eq!(st(&map_char_in(&cs("a\\b\\c"), '\\', '/')), "a/b/c");
    assert_eq!(st(&map_char_in(&cs("abc"), '.', '/')), "abc");
}

#[test]
fn white_space_agrees_with_std() {
    for code in 0u32..0x3100 {
        if let Some(c) = char::from_u32(code) {
            assert_eq!(is_space_char(c), c.is_whitespace(), "U+{code:04X}");
        }
    }
    assert!(!is_space_char('\u{FEFF}'));
}

#[test]
fn trim_agrees_with_std_trim() {
    for text in ["  a b  ", "", "   ", "abc", "\t\r\nx\u{3000}", "\u{A0}y", "a", " a", "a "] {
        assert_eq!(st(&trim_chars(&cs(text))), text.trim(), "trimming {text:?}");
    }
}

#[test]
fn starts_with_agrees_with_std() {
    assert!(starts_with_chars(&cs("META-INF/services/x"), &cs("META-INF/services/")));
    assert!(!starts_with_chars(&cs("META-INF/service"), &cs("META-INF/services/")));
    assert!(starts_with_chars(&cs("abc"), &cs("")));
    assert!(!starts_with_chars(&cs(""), &cs("a")));
}

#[test]
fn replace_all_agrees_with_std_replace() {
    let cases = [
        ("install(CLIENT); // CLIENT", "CLIENT", "SERVER"),
        ("aaaa", "aa", "b"),
        ("aaa", "aa", "b"),
        ("abc", "x", "y"),
        ("", "x", "y"),
        ("xxCLIENx", "CLIENT", "S"),
        ("abcabc", "abc", ""),
    ];
    for (text, from, to) in cases {
        assert_eq!(
            st(&replace_all_in(&cs(text), &cs(from), &cs(to))),
            text.replace(from, to),
            "replacing {from:?} in {text:?}"
        );
    }
}

#[test]
fn replace_all_with_empty_pattern_changes_nothing() {
    assert_eq!(st(&replace_all_in(&cs("abc"), &cs(""), &cs("x"))), "abc");
}

#[test]
fn join_puts_separator_between_neighbours() {
    let parts = vec!["a".to_string(), "b".to_string(), "c".to_string()];
    assert_eq!(join_strings(&parts, " "), "a b c");
    assert_eq!(join_strings(&vec!["a".to_string()], " "), "a");
    assert_eq!(join_strings(&Vec::new(), " "), "");
    assert_eq!(join_strings(&vec![String::new(), String::new()], ", "), ", ");
}

#[test]
fn digits_have_their_values() {
    assert_eq!(digit_of('0'), Some(0));
    assert_eq!(digit_of('9'), Some(9));
    assert_eq!(digit_of('a'), None);
    assert_eq!(digit_of('/'), None);
    assert_eq!(digit_of(':'), None);
    assert_eq!(digit_of('٣'), None);
}

#[test]
fn parse_usize_agrees_with_std_parse() {
    let max = usize::MAX.to_string();
    let over = format!("{}0", usize::MAX);
    let cases = [
        "14", "0", "007", "+5", "", "+", "-1", "1a", "a1", " 1", "1 ", "++1", "14.23",
        max.as_str(), over.as_str(), "99999999999999999999999999",
    ];
    for text in cases {
        assert_eq!(parse_usize(&cs(text)), text.parse::<usize>().ok(), "parsing {text:?}");
    }
}

#[test]
fn decimal_agrees_with_std_to_string() {
    for n in [0usize, 1, 9, 10, 11, 99, 100, 2859, usize::MAX] {
        assert_eq!(st(&decimal_of(n)), n.to_string());
    }
}

fn parent(path: &str, windows: bool) -> Option<String> {
    parent_of_path(&cs(path), windows).map(|p| st(&p))
}

fn file_name(path: &str, windows: bool) -> Option<String> {
    file_name_of_path(&cs(path), windows).map(|p| st(&p))
}

#[test]
fn parent_and_file_name_are_cut_at_the_last_component() {
    let p = "net/minecraftforge/forge/1.2/forge-1.2.jar";
    assert_eq!(file_name(p, false), Some("forge-1.2.jar".to_string()));
    assert_eq!(parent(p, false), Some("net/minecraftforge/forge/1.2".to_string()));
    assert_eq!(file_name("plain.jar", false), Some("plain.jar".to_string()));
    assert_eq!(parent("plain.jar", false), Some(String::new()));
    assert_eq!(file_name("/root.jar", false), Some("root.jar".to_string()));
    assert_eq!(parent("/root.jar", false), Some("/".to_string()));
}

#[test]
fn trailing_and_repeated_separators_and_dots_do_not_count() {
    assert_eq!(file_name("a/b/", false), Some("b".to_string()));
    assert_eq!(parent("a/b/", false), Some("a".to_string()));
    assert_eq!(file_name("a//b/.", false), Some("b".to_string()));
    assert_eq!(parent("a//b/.", false), Some("a".to_string()));
    assert_eq!(parent("a/./b", false), Some("a".to_string()));
    assert_eq!(parent("a//b//c", false), Some("a//b".to_string()));
    assert_eq!(file_name("foo.txt/.//", false), Some("foo.txt".to_string()));
}

#[test]
fn paths_without_a_last_component_have_no_parent_and_no_file_name() {
    for path in ["", "/", "//", "/."] {
        assert_eq!(parent(path, false), None, "parent of {path:?}");
        assert_eq!(file_name(path, false), None, "file name of {path:?}");
    }
}

#[test]
fn dot_components_at_the_end_name_no_file() {
    assert_eq!(file_name("a/..", false), None);
    assert_eq!(parent("a/..", false), Some("a".to_string()));
    assert_eq!(file_name("..", false), None);
    assert_eq!(parent("..", false), Some(String::new()));
    assert_eq!(file_name(".", false), None);
    assert_eq!(parent(".", false), Some(String::new()));
    assert_eq!(file_name("./a", false), Some("a".to_string()));
    assert_eq!(parent("./a", false), Some(".".to_string()));
}

#[test]
fn parent_and_file_name_agree_with_std_paths() {
    let paths = [
        "", "/", "//", ".", "..", "./", "/.", "a", "a/", "a//", "a/.", "a/./", "a/..", "a/../",
        "a/b", "a/b/", "a//b", "a/./b", "a/b/.", "a/b/./.", "/a", "/a/", "/a/b", "//a", "./a",
        "../a", "a/b/c.jar", "a/b//c.jar/", "...", "a/...", ".a", "a.", "a/.b", "a/b.", "x/y/.z/",
        "net/minecraftforge/forge/1.12.2-14.23.5.2859/forge-1.12.2-14.23.5.2859.jar",
    ];
    for path in paths {
        let std_path = std::path::Path::new(path);
        let std_parent = std_path.parent().map(|p| p.to_string_lossy().to_string());
        let std_file = std_path.file_name().map(|p| p.to_string_lossy().to_string());
        let std_relative = std_path
            .parent()
            .and_then(|parent| std_path.strip_prefix(parent).ok())
            .unwrap_or(std_path)
            .to_string_lossy()
            .to_string();
        assert_eq!(parent(path, false), std_parent, "parent of {path:?}");
        assert_eq!(file_name(path, false), std_file, "file name of {path:?}");
        assert_eq!(st(&relative_to_parent_of(&cs(path), false)), std_relative, "relative {path:?}");
    }
}

#[test]
fn backslash_separates_only_on_windows() {
    let p = "C:\\libs\\a.jar";
    assert_eq!(file_name(p, true), Some("a.jar".to_string()));
    assert_eq!(parent(p, true), Some("C:\\libs".to_string()));
    assert_eq!(file_name(p, false), Some("C:\\libs\\a.jar".to_string()));
    assert_eq!(parent(p, false), Some(String::new()));
    assert_eq!(file_name("a/b\\c.jar", true), Some("c.jar".to_string()));
    assert_eq!(file_name("a\\b/c.jar\\", true), Some("c.jar".to_string()));
}

#[test]
fn joining_the_pieces_of_a_split_gives_the_text_back() {
    for text in ["a:b:c", "", ":", "a::b", "abc", ":a:", "::"] {
        let pieces: Vec<String> = split_chars(&cs(text), ':').iter().map(|p| st(p)).collect();
        assert!(pieces.iter().all(|p| !p.contains(':')));
        assert_eq!(join_strings(&pieces, ":"), text);
    }
}

#[test]
fn order_of_texts_agrees_with_the_order_of_strings() {
    let texts = ["", "a", "ab", "b", "B", "a/b", "a-b", "é", "e", "\u{ffff}", "\u{10000}", "abc", "abd"];
    for a in texts {
        for b in texts {
            assert_eq!(comes_before(&cs(a), &cs(b)), a < b, "{a:?} before {b:?}");
        }
    }
}
