use wordguessr::service::dictionary::{
    DictionaryError, DictionaryService, Word, WordData,
};

fn word(text: &str) -> Word {
    Word { word: String::from(text), meanings: Vec::new() }
}

fn pair(w: &str, m: &str) -> (String, String) {
    (String::from(w), String::from(m))
}

#[test]
fn from_pairs_uppercases_words() {
    let data = WordData::from_pairs(vec![pair("robot", "a machine")]);
    assert_eq!(data.words.len(), 1);
    assert_eq!(data.words[0].word, "ROBOT");
}

#[test]
fn from_pairs_splits_meanings_on_double_dash() {
    let data = WordData::from_pairs(vec![pair("otter", "an animal--a playful one")]);
    assert_eq!(
        data.words[0].meanings,
        vec![String::from("an animal"), String::from("a playful one")]
    );
}

#[test]
fn from_pairs_single_meaning_stays_whole() {
    let data = WordData::from_pairs(vec![pair("toast", "browned bread")]);
    assert_eq!(data.words[0].meanings, vec![String::from("browned bread")]);
}

#[test]
fn from_pairs_adjacent_separators_give_empty_piece() {
    let data = WordData::from_pairs(vec![pair("boost", "a----b")]);
    assert_eq!(
        data.words[0].meanings,
        vec![String::from("a"), String::from(""), String::from("b")]
    );
}

#[test]
fn from_pairs_single_dashes_are_kept() {
    let data = WordData::from_pairs(vec![pair("ox", "a-b")]);
    assert_eq!(data.words[0].meanings, vec![String::from("a-b")]);
}

#[test]
fn validate_word_is_case_insensitive() {
    let s = DictionaryService::new(vec![word("ROBOT"), word("OX")]);
    assert!(s.validate_word("robot"));
    assert!(s.validate_word("ROBOT"));
    assert!(s.validate_word("RoBoT"));
    assert!(!s.validate_word("robots"));
    assert!(!s.validate_word(""));
}

#[test]
fn get_words_by_length_filters() {
    let s = DictionaryService::new(vec![word("ROBOT"), word("OX"), word("TOAST")]);
    let five = s.get_words_by_length(5);
    assert_eq!(five.len(), 2);
    assert_eq!(five[0].word, "ROBOT");
    assert_eq!(five[1].word, "TOAST");
    assert_eq!(s.get_words_by_length(3).len(), 0);
}

#[test]
fn get_random_word_returns_the_only_candidate() {
    let s = DictionaryService::new(vec![word("ROBOT"), word("OX")]);
    let w = s.get_random_word(2).expect("a two-letter word exists");
    assert_eq!(w.word, "OX");
}

#[test]
fn get_random_word_fails_when_no_length_matches() {
    let s = DictionaryService::new(vec![word("ROBOT")]);
    assert!(matches!(s.get_random_word(4), Err(DictionaryError::NoWordOfLength)));
}

#[test]
fn duplicate_copies_word_and_meanings() {
    let w = Word {
        word: String::from("ROBOT"),
        meanings: vec![String::from("a machine")],
    };
    let d = w.duplicate();
    assert_eq!(d.word, w.word);
    assert_eq!(d.meanings, w.meanings);
}
