use rss_watch::text::{chars_of, contains, contains_ignoring_case, matches_at};

#[test]
fn chars_of_keeps_every_character_in_order() {
    assert_eq!(chars_of("naïve #1"), vec!['n', 'a', 'ï', 'v', 'e', ' ', '#', '1']);
    assert_eq!(chars_of(""), Vec::<char>::new());
}

#[test]
fn matches_at_compares_at_the_given_index() {
    let hay = chars_of("release notes");
    let needle = chars_of("notes");
    assert!(matches_at(&hay, &needle, 8));
    assert!(!matches_at(&hay, &needle, 0));
    assert!(!matches_at(&hay, &needle, 7));
    assert!(matches_at(&hay, &chars_of(""), 13));
}

#[test]
fn matches_at_beyond_the_end_is_no_match() {
    let hay = chars_of("abc");
    assert!(!matches_at(&hay, &chars_of("bcd"), 1));
    assert!(!matches_at(&hay, &chars_of("c"), 3));
    assert!(!matches_at(&hay, &chars_of(""), 4));
    assert!(!matches_at(&hay, &chars_of("abcd"), 0));
    assert!(!matches_at(&hay, &chars_of("a"), usize::MAX));
}

#[test]
fn contains_finds_a_part_anywhere() {
    assert!(contains("release notes", "release"));
    assert!(contains("release notes", "se no"));
    assert!(contains("release notes", "notes"));
    assert!(contains("release notes", "release notes"));
    assert!(!contains("release notes", "note s"));
    assert!(!contains("release notes", "release notes!"));
    assert!(!contains("release notes", "Release"));
}

#[test]
fn contains_with_empty_needle_or_hay() {
    assert!(contains("abc", ""));
    assert!(contains("", ""));
    assert!(!contains("", "a"));
}

#[test]
fn contains_works_on_characters_beyond_ascii() {
    assert!(contains("smörgåsbord", "gås"));
    assert!(!contains("smörgåsbord", "gas"));
    assert!(contains("日本語のニュース", "ニュース"));
}

#[test]
fn contains_agrees_with_std() {
    let hays = ["", "a", "aa", "aaa", "abab", "ababa", "#TITLE", "xx#TIT#TITLE", "éèé"];
    let needles = ["", "a", "aa", "ab", "aba", "bab", "#TITLE", "#TIT", "é", "èé", "z"];
    for hay in hays {
        for needle in needles {
            assert_eq!(contains(hay, needle), hay.contains(needle), "{:?} in {:?}", needle, hay);
        }
    }
}

#[test]
fn contains_ignoring_case_lowers_both_sides() {
    assert!(contains_ignoring_case("RUST 2.0 Released", "rust"));
    assert!(contains_ignoring_case("rust 2.0 released", "RELEASED"));
    assert!(contains_ignoring_case("Ärger im Büro", "ÄRGER"));
    assert!(!contains_ignoring_case("Rust 2.0 Released", "python"));
}
