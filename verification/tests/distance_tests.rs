use levenshtein_lib::distance::{chars_of, distance, levenshtein_distance};

#[test]
fn test_levenshtein_distance() {
    assert_eq!(levenshtein_distance("apple", "apple"), 0);
    assert_eq!(levenshtein_distance("Apple", "apple"), 1);
    assert_eq!(levenshtein_distance("", ""), 0);
    assert_eq!(levenshtein_distance("", "apple"), 5);
    assert_eq!(levenshtein_distance("apple", "aple"), 1);
    assert_eq!(levenshtein_distance("apple", "appl"), 1);
    assert_eq!(levenshtein_distance("apple", "applle"), 1);
    assert_eq!(levenshtein_distance("apple", "bpple"), 1);
    assert_eq!(levenshtein_distance("apple", "elppa"), 4);
}

#[test]
fn distance_of_both_empty_is_zero() {
    assert_eq!(levenshtein_distance("", ""), 0);
}

#[test]
fn distance_from_empty_is_the_other_length() {
    assert_eq!(levenshtein_distance("", "apple"), 5);
    assert_eq!(levenshtein_distance("apple", ""), 5);
    assert_eq!(levenshtein_distance("", "a"), 1);
}

#[test]
fn distance_of_equal_text_is_zero() {
    for x in ["", "a", "apple", "Apple", "na\u{ef}ve", "\u{65e5}\u{672c}\u{8a9e}"] {
        assert_eq!(levenshtein_distance(x, x), 0, "{x:?}");
    }
}

#[test]
fn distance_compares_case_sensitively() {
    assert_eq!(levenshtein_distance("Apple", "apple"), 1);
    assert_eq!(levenshtein_distance("APPLE", "apple"), 5);
}

#[test]
fn distance_of_single_edits_is_one() {
    assert_eq!(levenshtein_distance("apple", "aple"), 1);
    assert_eq!(levenshtein_distance("apple", "applle"), 1);
    assert_eq!(levenshtein_distance("apple", "bpple"), 1);
}

#[test]
fn distance_of_reversal() {
    assert_eq!(levenshtein_distance("apple", "elppa"), 4);
}

#[test]
fn distance_of_classic_pairs() {
    assert_eq!(levenshtein_distance("kitten", "sitting"), 3);
    assert_eq!(levenshtein_distance("flaw", "lawn"), 2);
    assert_eq!(levenshtein_distance("saturday", "sunday"), 3);
    assert_eq!(levenshtein_distance("intention", "execution"), 5);
    assert_eq!(levenshtein_distance("abc", "xyz"), 3);
    assert_eq!(levenshtein_distance("ab", "ba"), 2);
}

#[test]
fn distance_is_symmetric() {
    let words = ["", "a", "apple", "aple", "elppa", "kitten", "sitting", "\u{e9}t\u{e9}"];
    for a in words {
        for b in words {
            assert_eq!(levenshtein_distance(a, b), levenshtein_distance(b, a), "{a:?} {b:?}");
        }
    }
}

#[test]
fn distance_lies_between_length_gap_and_longer_length() {
    let words = ["", "a", "apple", "aple", "elppa", "kitten", "sitting", "\u{e9}t\u{e9}"];
    for a in words {
        for b in words {
            let d = levenshtein_distance(a, b);
            let la = a.chars().count();
            let lb = b.chars().count();
            assert!(d <= la.max(lb), "{a:?} {b:?}");
            assert!(d >= la.abs_diff(lb), "{a:?} {b:?}");
        }
    }
}

#[test]
fn distance_counts_codepoints_not_bytes() {
    // one two-byte codepoint against one one-byte codepoint: one substitution
    assert_eq!(levenshtein_distance("\u{e9}", "e"), 1);
    assert_eq!(levenshtein_distance("\u{e9}", ""), 1);
    assert_eq!(levenshtein_distance("caf\u{e9}", "cafe"), 1);
    assert_eq!(levenshtein_distance("\u{65e5}\u{672c}\u{8a9e}", "\u{65e5}\u{672c}"), 1);
    assert_eq!(levenshtein_distance("\u{1f600}\u{1f601}", "\u{1f601}\u{1f600}"), 2);
}

#[test]
fn chars_of_lists_the_codepoints_in_order() {
    assert_eq!(chars_of(""), Vec::<char>::new());
    assert_eq!(chars_of("abc"), vec!['a', 'b', 'c']);
    assert_eq!(chars_of("h\u{e9}\u{65e5}"), vec!['h', '\u{e9}', '\u{65e5}']);
}

#[test]
fn distance_on_codepoint_slices() {
    let a = ['a', 'p', 'p', 'l', 'e'];
    let b = ['a', 'p', 'l', 'e'];
    let none: [char; 0] = [];
    assert_eq!(distance(&a, &b), 1);
    assert_eq!(distance(&b, &a), 1);
    assert_eq!(distance(&a, &none), 5);
    assert_eq!(distance(&none, &b), 4);
    assert_eq!(distance(&none, &none), 0);
}

#[test]
fn distance_of_long_inputs() {
    let a = "a".repeat(300);
    let b = "b".repeat(200);
    assert_eq!(levenshtein_distance(&a, &b), 300);
    let c = format!("{}x", a);
    assert_eq!(levenshtein_distance(&a, &c), 1);
}

#[test]
fn distance_is_zero_only_between_equal_text() {
    let words = ["", "a", "apple", "aple", "elppa", "Apple", "\u{e9}t\u{e9}"];
    for a in words {
        for b in words {
            assert_eq!(levenshtein_distance(a, b) == 0, a == b, "{a:?} {b:?}");
        }
    }
}

#[test]
fn distance_by_a_detour_is_no_shorter() {
    let words = ["", "a", "apple", "aple", "elppa", "kitten", "sitting"];
    for a in words {
        for b in words {
            for c in words {
                let direct = levenshtein_distance(a, c);
                let detour = levenshtein_distance(a, b) + levenshtein_distance(b, c);
                assert!(direct <= detour, "{a:?} {b:?} {c:?}");
            }
        }
    }
}
