use host_bridge::order::{key_precedes, lex_precedes, sort_key, SortKey};
use host_bridge::sorting::stable_order;

fn chars(text: &str) -> Vec<char> {
    text.chars().collect()
}

fn key(name: &str, is_dir: bool) -> SortKey {
    sort_key(name, is_dir)
}

#[test]
fn lexicographic_order_of_texts() {
    assert!(lex_precedes(&chars("a"), &chars("b")));
    assert!(!lex_precedes(&chars("b"), &chars("a")));
    assert!(lex_precedes(&chars("a"), &chars("ab")));
    assert!(!lex_precedes(&chars("ab"), &chars("a")));
    assert!(lex_precedes(&chars(""), &chars("a")));
    assert!(!lex_precedes(&chars("a"), &chars("")));
    assert!(lex_precedes(&chars("abc"), &chars("abd")));
    assert!(lex_precedes(&chars("Z"), &chars("a")));
    assert!(lex_precedes(&chars("a10"), &chars("a9")));
}

#[test]
fn no_text_precedes_itself() {
    for text in ["", "a", "abc", "ünï"] {
        assert!(!lex_precedes(&chars(text), &chars(text)));
    }
}

#[test]
fn lexicographic_order_agrees_with_the_order_of_strings() {
    let texts = ["", "a", "A", "ab", "b", "é", "z", "zz", "名", "😀", "\u{7f}", "\u{80}", "\u{7ff}", "\u{800}", "\u{ffff}", "\u{10000}"];
    for a in texts {
        for b in texts {
            assert_eq!(lex_precedes(&chars(a), &chars(b)), a < b, "{:?} {:?}", a, b);
        }
    }
}

#[test]
fn sort_key_folds_the_name_to_lower_case() {
    let k = key("ReadMe.TXT", false);
    assert!(!k.is_dir);
    assert_eq!(k.folded, chars("readme.txt"));
    let d = key("ÀÉÎ", true);
    assert!(d.is_dir);
    assert_eq!(d.folded, chars("àéî"));
}

#[test]
fn sort_key_of_a_lower_case_name_is_the_name() {
    assert_eq!(key("notes.md", false).folded, chars("notes.md"));
    assert_eq!(key("", false).folded, chars(""));
}

#[test]
fn directories_stand_before_files() {
    assert!(key_precedes(&key("zzz", true), &key("aaa", false)));
    assert!(!key_precedes(&key("aaa", false), &key("zzz", true)));
}

#[test]
fn names_are_ordered_without_regard_to_case() {
    assert!(key_precedes(&key("apple", false), &key("Banana", false)));
    assert!(key_precedes(&key("Apple", false), &key("banana", false)));
    assert!(!key_precedes(&key("Banana", false), &key("apple", false)));
    assert!(key_precedes(&key("Docs", true), &key("src", true)));
}

#[test]
fn names_that_differ_only_in_case_tie() {
    assert!(!key_precedes(&key("README", false), &key("readme", false)));
    assert!(!key_precedes(&key("readme", false), &key("README", false)));
}

#[test]
fn stable_order_of_no_keys_is_empty() {
    assert_eq!(stable_order(&Vec::new()), Vec::<usize>::new());
}

#[test]
fn stable_order_of_one_key() {
    assert_eq!(stable_order(&vec![key("only", false)]), vec![0]);
}

#[test]
fn stable_order_names_each_position_in_sorted_order() {
    let keys = vec![key("b.txt", false), key("A", true), key("a.txt", false)];
    assert_eq!(stable_order(&keys), vec![1, 2, 0]);
}

#[test]
fn stable_order_keeps_ties_as_met() {
    let keys = vec![
        key("x", false),
        key("Same", false),
        key("same", false),
        key("SAME", false),
        key("a", false),
        key("same", true),
    ];
    assert_eq!(stable_order(&keys), vec![5, 4, 1, 2, 3, 0]);
}

#[test]
fn stable_order_of_keys_in_reverse() {
    let names = ["h", "g", "f", "e", "d", "c", "b", "a"];
    let keys: Vec<SortKey> = names.iter().map(|n| key(n, false)).collect();
    assert_eq!(stable_order(&keys), vec![7, 6, 5, 4, 3, 2, 1, 0]);
}

#[test]
fn stable_order_of_keys_given_as_they_are() {
    let keys = vec![
        SortKey { is_dir: false, folded: chars("b") },
        SortKey { is_dir: false, folded: chars("a") },
        SortKey { is_dir: true, folded: chars("c") },
        SortKey { is_dir: false, folded: chars("a") },
        SortKey { is_dir: false, folded: chars("") },
    ];
    assert_eq!(stable_order(&keys), vec![2, 4, 1, 3, 0]);
}
