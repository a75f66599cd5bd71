use floatkeys::predict::Predictor;

fn typed(p: &mut Predictor, s: &str) {
    for u in s.encode_utf16() {
        p.word_char(u);
    }
}

fn sugg(p: &Predictor) -> Vec<String> {
    (0..3).map(|i| String::from_utf8(p.suggestion(i).clone()).unwrap()).collect()
}

fn loaded() -> Predictor {
    let mut p = Predictor::new();
    p.load_data(b"the\nthem\nthen\nthere\nto\n", b"hello\nhelp\n", &[0, 0, 3, 0], b"");
    p
}

#[test]
fn completions_follow_dictionary_order() {
    let mut p = loaded();
    typed(&mut p, "th");
    assert_eq!(sugg(&p), vec!["the", "them", "then"]);
    assert!(!p.is_misspelt());
}

#[test]
fn capitals_match_lower_case_words() {
    let mut p = loaded();
    typed(&mut p, "THE");
    assert_eq!(sugg(&p), vec!["the", "them", "then"]);
}

#[test]
fn unknown_prefix_is_misspelt() {
    let mut p = loaded();
    typed(&mut p, "xq");
    assert_eq!(sugg(&p), vec!["", "", ""]);
    assert!(p.is_misspelt());
}

#[test]
fn language_switch_uses_the_other_dictionary() {
    let mut p = loaded();
    p.set_lang(1);
    typed(&mut p, "hel");
    assert_eq!(sugg(&p), vec!["hello", "help", ""]);
}

#[test]
fn next_word_after_a_space() {
    let mut p = loaded();
    typed(&mut p, "the ");
    // "the" is word 0, and the table says "there" (word 3) follows it
    assert_eq!(sugg(&p), vec!["there", "", ""]);
}

#[test]
fn word_tracking() {
    let mut p = loaded();
    typed(&mut p, "ab");
    assert_eq!(p.word(), &vec![97u16, 98]);
    p.word_chop();
    assert_eq!(p.word(), &vec![97u16]);
    p.word_clear();
    assert!(p.word().is_empty());
}

#[test]
fn autocorrect_keeps_the_capital() {
    let mut p = loaded();
    typed(&mut p, "Teh");
    let r = p.auto_correct_now(true);
    assert_eq!(r, Some("The".encode_utf16().collect::<Vec<u16>>()));
    assert!(p.undo_armed());
    assert_eq!(p.undo_len(), 4);
}

#[test]
fn autocorrect_leaves_known_and_short_words() {
    let mut p = loaded();
    typed(&mut p, "then");
    assert_eq!(p.auto_correct_now(false), None);
    let mut q = loaded();
    typed(&mut q, "te");
    assert_eq!(q.auto_correct_now(false), None);
    let mut r = loaded();
    r.toggle_autocorrect();
    typed(&mut r, "teh");
    assert_eq!(r.auto_correct_now(false), None);
}

#[test]
fn corrected_word_is_the_tracked_word() {
    let mut p = loaded();
    typed(&mut p, "teh");
    let r = p.auto_correct_now(true);
    assert_eq!(r, Some("the".encode_utf16().collect::<Vec<u16>>()));
    assert_eq!(p.word(), &"the".encode_utf16().collect::<Vec<u16>>());
}

#[test]
fn next_words_follow_the_correction() {
    let mut p = loaded();
    typed(&mut p, "teh");
    assert!(p.auto_correct_now(true).is_some());
    typed(&mut p, " ");
    assert!(p.word().is_empty());
    // the correction "the" (word 0) is followed by "there" in the table
    assert_eq!(sugg(&p), vec!["there", "", ""]);
}
