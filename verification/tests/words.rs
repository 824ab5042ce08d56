use hangman::words::{random_word, split_lines, transliterate};

#[test]
fn lines_are_what_stands_between_line_feeds() {
    assert_eq!(split_lines("a\nb"), vec![String::from("a"), String::from("b")]);
    assert_eq!(split_lines("a\nb\n"), vec![String::from("a"), String::from("b"), String::new()]);
    assert_eq!(split_lines(""), vec![String::new()]);
    assert_eq!(split_lines("\n\n"), vec![String::new(), String::new(), String::new()]);
    assert_eq!(split_lines("word"), vec![String::from("word")]);
}

#[test]
fn lines_agree_with_the_standard_split() {
    for text in ["", "x", "one\ntwo\nthree", "\nlead", "trail\n", "a\n\nb", "\u{e4}\n\u{df}"] {
        let expected: Vec<String> = text.split('\n').map(String::from).collect();
        assert_eq!(split_lines(text), expected);
    }
}

#[test]
fn umlauts_are_spelled_with_two_letters() {
    assert_eq!(transliterate("\u{c4}RGER"), "AERGER");
    assert_eq!(transliterate("K\u{d6}NIG"), "KOENIG");
    assert_eq!(transliterate("T\u{dc}R"), "TUER");
    assert_eq!(transliterate("\u{c4}\u{d6}\u{dc}"), "AEOEUE");
    assert_eq!(transliterate("HAUS"), "HAUS");
    assert_eq!(transliterate(""), "");
    assert_eq!(transliterate("\u{e4}"), "\u{e4}");
}

#[test]
fn random_word_is_a_line_of_the_text() {
    let text = "alpha\nbeta\ngamma";
    for _ in 0..200 {
        let word = random_word(text);
        assert!(word == "alpha" || word == "beta" || word == "gamma");
    }
    assert_eq!(random_word("only"), "only");
}

#[test]
fn random_word_reaches_every_line() {
    let text = "alpha\nbeta";
    let mut seen_alpha = false;
    let mut seen_beta = false;
    for _ in 0..1000 {
        let word = random_word(text);
        seen_alpha = seen_alpha || word == "alpha";
        seen_beta = seen_beta || word == "beta";
    }
    assert!(seen_alpha && seen_beta);
}
