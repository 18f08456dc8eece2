use rust_basics::words::{count_word_starts, count_words};

#[test]
fn words_in_sentence() {
    assert_eq!(count_words(&String::from("Rust is awesome!")), 3);
}

#[test]
fn words_in_empty_text() {
    assert_eq!(count_words(&String::new()), 0);
}

#[test]
fn words_in_blank_text() {
    assert_eq!(count_words(&String::from(" \t\n  ")), 0);
}

#[test]
fn words_with_surrounding_and_repeated_blanks() {
    assert_eq!(count_words(&String::from("  one   two\tthree\n")), 3);
}

#[test]
fn words_single_word() {
    assert_eq!(count_words(&String::from("word")), 1);
}

#[test]
fn words_split_by_unicode_space() {
    // U+3000 IDEOGRAPHIC SPACE and U+00A0 NO-BREAK SPACE are white space.
    assert_eq!(count_words(&String::from("a\u{3000}b\u{a0}c")), 3);
}

#[test]
fn words_agree_with_std() {
    let samples = ["", " ", "a", " a b ", "x\r\ny", "héllo wörld", "\u{2003}z"];
    for s in samples {
        let text = String::from(s);
        assert_eq!(count_words(&text), s.split_whitespace().count());
    }
}

#[test]
fn word_starts_of_masks() {
    assert_eq!(count_word_starts(&[]), 0);
    assert_eq!(count_word_starts(&[true, true]), 0);
    assert_eq!(count_word_starts(&[false]), 1);
    assert_eq!(count_word_starts(&[false, false, true, false]), 2);
    assert_eq!(count_word_starts(&[true, false, false, true, false, true]), 2);
}
