use dodgem::patch::{patch_contents, replace_chars};
use dodgem::text::{chars_of, same_text, string_of};

#[test]
fn the_version_line_is_patched() {
    assert_eq!(patch_contents("version = \"1.2.3\"", "1.2.3", "1.3.0"), "version = \"1.3.0\"");
}

#[test]
fn nothing_but_the_occurrences_changes() {
    let before = "name = \"pkg\"\nversion = \"1.2.3\"\n\ndescription = \"gr\u{fc}n\"\n";
    let after = "name = \"pkg\"\nversion = \"1.3.0\"\n\ndescription = \"gr\u{fc}n\"\n";
    assert_eq!(patch_contents(before, "1.2.3", "1.3.0"), after);
}

#[test]
fn every_occurrence_is_replaced() {
    let before = "# was 1.2.3\nversion = \"1.2.3\"\nrequires = [\"other-1.2.3\"]";
    let after = "# was 1.3.0\nversion = \"1.3.0\"\nrequires = [\"other-1.3.0\"]";
    assert_eq!(patch_contents(before, "1.2.3", "1.3.0"), after);
    assert_eq!(patch_contents("1.2.31.2.3", "1.2.3", "10.0.0"), "10.0.010.0.0");
}

#[test]
fn a_text_without_the_old_version_stays() {
    let text = "version = \"2.0.0\"\n";
    assert_eq!(patch_contents(text, "1.2.3", "1.3.0"), text);
    assert_eq!(patch_contents("", "1.2.3", "1.3.0"), "");
    assert_eq!(patch_contents("1.2", "1.2.3", "1.3.0"), "1.2");
}

#[test]
fn occurrences_are_taken_from_the_left_without_overlap() {
    assert_eq!(patch_contents("aaa", "aa", "b"), "ba");
    assert_eq!(patch_contents("aaaa", "aa", "b"), "bb");
    assert_eq!(patch_contents("1.1.1.1.1", "1.1.1", "2.0.0"), "2.0.0.1.1");
    assert_eq!(patch_contents("abab", "ab", "abab"), "abababab");
}

#[test]
fn the_substitution_agrees_with_the_standard_one() {
    let texts = ["", "a", "abc", "version = \"1.2.3\"", "1.2.3", "x1.2.3y1.2.3", "\u{e9}t\u{e9} 1.2.3 \u{1f600}"];
    let olds = ["1.2.3", "a", "", "\u{e9}", "1.2.3y"];
    let news = ["1.3.0", "", "--", "1.2.3"];
    for text in texts {
        for old in olds {
            for new in news {
                assert_eq!(patch_contents(text, old, new), text.replace(old, new), "{:?} {:?} {:?}", text, old, new);
            }
        }
    }
}

#[test]
fn an_empty_old_version_stands_before_every_character_and_at_the_end() {
    assert_eq!(patch_contents("abc", "", "-"), "-a-b-c-");
    assert_eq!(patch_contents("", "", "x"), "x");
}

#[test]
fn replace_chars_works_on_characters() {
    let text: Vec<char> = "v 1.2.3".chars().collect();
    let old: Vec<char> = "1.2.3".chars().collect();
    let new: Vec<char> = "1.3.0".chars().collect();
    let expected: Vec<char> = "v 1.3.0".chars().collect();
    assert_eq!(replace_chars(&text, &old, &new), expected);
}

#[test]
fn text_goes_to_characters_and_back() {
    let chars = chars_of("gr\u{fc}n-1.2.3");
    assert_eq!(chars, vec!['g', 'r', '\u{fc}', 'n', '-', '1', '.', '2', '.', '3']);
    assert_eq!(string_of(&chars), "gr\u{fc}n-1.2.3");
    assert_eq!(string_of(&vec![]), "");
    assert_eq!(chars_of(""), Vec::<char>::new());
}

#[test]
fn same_text_compares_whole_strings() {
    assert!(same_text("main", "main"));
    assert!(same_text("", ""));
    assert!(!same_text("main", "mai"));
    assert!(!same_text("main", "maim"));
    assert!(!same_text("", "main"));
}
