use workbench::fibonacci::sequence;
use workbench::generic::{largest, largest_char, largest_i32};
use workbench::lifetimes::longest_string;
use workbench::slices::{first_word, split_words};

#[test]
fn largest_number_of_a_list() {
    let number_list = vec![34, 50, 25, 100, 65];
    assert_eq!(*largest_i32(&number_list), 100);
    assert_eq!(*largest(&number_list), 100);
    assert_eq!(*largest_i32(&[-3]), -3);
    assert_eq!(*largest_i32(&[i32::MIN, -1, i32::MIN]), -1);
    assert_eq!(*largest_i32(&[7, 7, 7]), 7);
}

#[test]
fn largest_char_of_a_list() {
    let char_list = vec!['y', 'm', 'a', 'q'];
    assert_eq!(*largest_char(&char_list), 'y');
    assert_eq!(*largest(&char_list), 'y');
    assert_eq!(*largest_char(&['a', '\u{e9}', 'z']), '\u{e9}');
}

#[test]
fn largest_keeps_the_first_of_equals() {
    let pairs = [(1, 'a'), (3, 'b'), (3, 'c'), (2, 'd')];
    let firsts: Vec<i32> = pairs.iter().map(|p| p.0).collect();
    let found = largest(&firsts);
    assert!(std::ptr::eq(found, &firsts[1]));
    assert_eq!(*largest(&["pear", "apple", "quince"]), "quince");
}

#[test]
fn largest_passes_over_what_cannot_be_compared() {
    // Nothing compares greater than a NaN that stands first.
    let found = *largest(&[f64::NAN, 1.0, 2.0]);
    assert!(found.is_nan());
    assert_eq!(*largest(&[1.0, f64::NAN, 2.0]), 2.0);
}

#[test]
fn longest_of_two_strings() {
    let string1 = String::from("abcd");
    let string2 = "xyzhihi";
    assert_eq!(longest_string(string1.as_str(), string2), "xyzhihi");
    assert_eq!(longest_string(string2, string1.as_str()), "xyzhihi");
    // Equally long: the second.
    assert_eq!(longest_string("abc", "xyz"), "xyz");
    // Length is counted in bytes.
    assert_eq!(longest_string("\u{e9}\u{e9}", "abc"), "\u{e9}\u{e9}");
    assert_eq!(longest_string("", ""), "");
}

#[test]
fn first_word_ends_at_the_first_space() {
    assert_eq!(first_word("hello world"), ("hello", 5));
    assert_eq!(first_word("hello"), ("hello", 5));
    assert_eq!(first_word(" hello"), ("", 0));
    assert_eq!(first_word(""), ("", 0));
    assert_eq!(first_word("\u{e9}t\u{e9} chaud"), ("\u{e9}t\u{e9}", 5));
    assert_eq!(first_word("a\tb c"), ("a\tb", 3));
}

#[test]
fn words_are_the_pieces_between_spaces() {
    assert_eq!(split_words("the quick  fox"), vec!["the", "quick", "", "fox"]);
    assert_eq!(split_words("fox "), vec!["fox"]);
    assert_eq!(split_words(" fox"), vec!["", "fox"]);
    assert_eq!(split_words(" "), vec![""]);
    assert!(split_words("").is_empty());
    assert_eq!(split_words("one\n"), vec!["one\n"]);
}

#[test]
fn fibonacci_sequence_begins_with_zero_and_one() {
    assert_eq!(sequence(0), (vec![], false));
    assert_eq!(sequence(1), (vec![0], false));
    assert_eq!(sequence(10), (vec![0, 1, 1, 2, 3, 5, 8, 13, 21, 34], false));
}

#[test]
fn fibonacci_sequence_is_cut_short_on_overflow() {
    let (shown, cut) = sequence(92);
    assert_eq!(shown.len(), 92);
    assert!(!cut);
    assert_eq!(shown[91], 4660046610375530309);
    let (shown, cut) = sequence(93);
    assert_eq!(shown.len(), 92);
    assert!(cut);
    let (shown, cut) = sequence(u32::MAX);
    assert_eq!(shown.len(), 92);
    assert!(cut);
    for k in 2..92 {
        assert_eq!(shown[k], shown[k - 1] + shown[k - 2]);
    }
}
