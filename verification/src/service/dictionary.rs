use vstd::prelude::*;

use rand::Rng;

use crate::text::{chars_range_to_string, str_chars, upper_seq, upper_string};

verus! {

/// The mathematical value of a [`Word`]: its text and its meanings, as
/// sequences of characters.
#[verifier::ext_equal]
pub struct WordV {
    pub text: Seq<char>,
    pub meanings: Seq<Seq<char>>,
}

/// A dictionary entry: the word itself (stored uppercase) and the list of
/// its meanings.
#[derive(Clone, Debug)]
pub struct Word {
    pub word: String,
    pub meanings: Vec<String>,
}

impl View for Word {
    type V = WordV;

    open spec fn view(&self) -> WordV {
        WordV { text: self.word@, meanings: self.meanings.deep_view() }
    }
}

impl Word {
    /// A copy of this entry, equal to it, value for value.
    pub fn duplicate(&self) -> (r: Word)
        ensures
            r@ == self@,
    {
        let word = self.word.clone();
        let meanings = self.meanings.clone();
        proof {
            assert(meanings.deep_view() =~~= self.meanings.deep_view());
        }
        Word { word, meanings }
    }
}

/// The position of the first meaning separator `--` in `s` at or after
/// `from`, or `-1` if none occurs there.
pub open spec fn find_sep(s: Seq<char>, from: int) -> int
    decreases s.len() - from,
{
    if from + 2 > s.len() {
        -1
    } else if s[from] == '-' && s[from + 1] == '-' {
        from
    } else {
        find_sep(s, from + 1)
    }
}

/// A found separator lies between `from` and the end of `s`.
pub proof fn lemma_find_sep_bounds(s: Seq<char>, from: int)
    ensures
        find_sep(s, from) == -1 || (from <= find_sep(s, from) && find_sep(s, from) + 2
            <= s.len()),
    decreases s.len() - from,
{
    if from + 2 > s.len() {
    } else if s[from] == '-' && s[from + 1] == '-' {
    } else {
        lemma_find_sep_bounds(s, from + 1);
    }
}

/// The pieces of `s[from..]` cut at each leftmost occurrence of the
/// separator `--`, the separators themselves dropped: the meaning list
/// encoded in a dictionary entry.
pub open spec fn split_meanings_of(s: Seq<char>, from: int) -> Seq<Seq<char>>
    decreases s.len() - from,
    via split_meanings_of_decreases
{
    let i = find_sep(s, from);
    if i < 0 {
        seq![s.subrange(from, s.len() as int)]
    } else {
        seq![s.subrange(from, i)] + split_meanings_of(s, i + 2)
    }
}

#[via_fn]
proof fn split_meanings_of_decreases(s: Seq<char>, from: int) {
    lemma_find_sep_bounds(s, from);
}

/// The position of the first separator at or after `from`, by a scan.
fn find_sep_from(cs: &Vec<char>, from: usize) -> (r: Option<usize>)
    requires
        from <= cs@.len(),
    ensures
        r matches Some(i) ==> find_sep(cs@, from as int) == i && from <= i && i + 2 <= cs@.len(),
        r is None ==> find_sep(cs@, from as int) == -1,
{
    let mut k: usize = from;
    while k < cs.len() && k + 1 < cs.len()
        invariant
            from <= k <= cs@.len(),
            find_sep(cs@, from as int) == find_sep(cs@, k as int),
        decreases cs@.len() - k,
    {
        if cs[k] == '-' && cs[k + 1] == '-' {
            return Some(k);
        }
        k = k + 1;
    }
    None
}

/// The meanings encoded in `s`: the pieces of `s` cut at each `--`.
pub fn split_meanings(s: &str) -> (r: Vec<String>)
    ensures
        r.deep_view() == split_meanings_of(s@, 0),
{
    let cs = str_chars(s);
    let n = cs.len();
    let mut r: Vec<String> = Vec::new();
    let mut pos: usize = 0;
    loop
        invariant_except_break
            pos <= cs@.len(),
            n == cs@.len(),
            cs@ == s@,
            split_meanings_of(s@, 0) =~~= r.deep_view() + split_meanings_of(s@, pos as int),
        ensures
            r.deep_view() =~~= split_meanings_of(s@, 0),
        decreases cs@.len() - pos,
    {
        let ghost dv0 = r.deep_view();
        match find_sep_from(&cs, pos) {
            Some(i) => {
                let piece = chars_range_to_string(&cs, pos, i);
                r.push(piece);
                proof {
                    assert(r.deep_view() =~~= dv0.push(s@.subrange(pos as int, i as int)));
                    assert(split_meanings_of(s@, pos as int) == seq![
                        s@.subrange(pos as int, i as int),
                    ] + split_meanings_of(s@, i + 2));
                    assert(split_meanings_of(s@, 0) =~~= r.deep_view() + split_meanings_of(
                        s@,
                        i + 2,
                    ));
                }
                pos = i + 2;
            },
            None => {
                let piece = chars_range_to_string(&cs, pos, cs.len());
                r.push(piece);
                proof {
                    assert(r.deep_view() =~~= dv0.push(
                        s@.subrange(pos as int, s@.len() as int),
                    ));
                    assert(split_meanings_of(s@, pos as int) == seq![
                        s@.subrange(pos as int, s@.len() as int),
                    ]);
                    assert(r.deep_view() =~~= split_meanings_of(s@, 0));
                }
                break;
            },
        }
    }
    r
}

/// The raw contents of a dictionary file: the list of its entries.
pub struct WordData {
    pub words: Vec<Word>,
}

impl WordData {
    /// The dictionary encoded by raw `(word, meanings)` pairs: each word
    /// is stored uppercased (ASCII), its meanings split at each `--`.
    pub fn from_pairs(pairs: Vec<(String, String)>) -> (d: WordData)
        ensures
            d.words@.len() == pairs@.len(),
            forall|i: int|
                0 <= i < pairs@.len() ==> (#[trigger] d.words@[i])@.text == upper_seq(
                    pairs@[i].0@,
                ) && d.words@[i]@.meanings == split_meanings_of(pairs@[i].1@, 0),
    {
        let mut words: Vec<Word> = Vec::new();
        let mut i: usize = 0;
        let n = pairs.len();
        while i < n
            invariant
                i <= n,
                n == pairs@.len(),
                words@.len() == i,
                forall|k: int|
                    0 <= k < i ==> (#[trigger] words@[k])@.text == upper_seq(pairs@[k].0@)
                        && words@[k]@.meanings == split_meanings_of(pairs@[k].1@, 0),
            decreases n - i,
        {
            let word = upper_string(pairs[i].0.as_str());
            let meanings = split_meanings(pairs[i].1.as_str());
            words.push(Word { word, meanings });
            i = i + 1;
        }
        WordData { words }
    }
}

/// The dictionary holds some word whose text is exactly `text`.
pub open spec fn dict_has_text(dict: Seq<WordV>, text: Seq<char>) -> bool {
    exists|i: int| 0 <= i < dict.len() && (#[trigger] dict[i]).text == text
}

/// The dictionary holds some word of `n` letters.
pub open spec fn dict_has_text_of_len(dict: Seq<WordV>, n: int) -> bool {
    exists|i: int| 0 <= i < dict.len() && (#[trigger] dict[i]).text.len() == n
}

/// The entries of `dict` whose text has exactly `n` letters, kept in
/// dictionary order.
pub open spec fn words_of_length(dict: Seq<WordV>, n: int) -> Seq<WordV>
    decreases dict.len(),
{
    if dict.len() == 0 {
        Seq::empty()
    } else {
        words_of_length(dict.drop_last(), n) + if dict.last().text.len() == n {
            seq![dict.last()]
        } else {
            Seq::empty()
        }
    }
}

/// The dictionary holds `w` itself, meanings included.
pub open spec fn dict_has_entry(dict: Seq<WordV>, w: WordV) -> bool {
    exists|i: int| 0 <= i < dict.len() && #[trigger] dict[i] == w
}

/// Failure of [`DictionaryService::get_random_word`]: the dictionary holds
/// no word of the requested length.
#[derive(Clone, Copy, PartialEq, Eq, Structural, Debug)]
pub enum DictionaryError {
    NoWordOfLength,
}

/// A word service backed by an in-memory dictionary.
pub struct DictionaryService {
    pub dictionary: Vec<Word>,
}

impl View for DictionaryService {
    type V = Seq<WordV>;

    open spec fn view(&self) -> Seq<WordV> {
        self.dictionary@.map_values(|w: Word| w@)
    }
}

/// Relies on `rand::Rng::random_range` over `0..n`, with the generator
/// from `rand::rng`: for a non-empty range it returns a value inside the
/// range.
#[verifier::external_body]
fn pick_index(n: usize) -> (r: usize)
    requires
        n > 0,
    ensures
        r < n,
{
    rand::rng().random_range(0..n)
}

impl DictionaryService {
    /// A service answering from the given dictionary.
    pub fn new(dictionary: Vec<Word>) -> (s: DictionaryService)
        ensures
            s@ == dictionary@.map_values(|w: Word| w@),
    {
        DictionaryService { dictionary }
    }

    /// True iff `word`, taken case-insensitively (ASCII), is an entry of
    /// the dictionary.
    pub fn validate_word(&self, word: &str) -> (r: bool)
        ensures
            r == dict_has_text(self@, upper_seq(word@)),
    {
        let upper = upper_string(word);
        let n = self.dictionary.len();
        let mut j: usize = 0;
        while j < n
            invariant
                j <= n,
                n == self.dictionary@.len(),
                upper@ == upper_seq(word@),
                forall|k: int| 0 <= k < j ==> (#[trigger] self@[k]).text != upper@,
            decreases n - j,
        {
            if self.dictionary[j].word == upper {
                assert(self@[j as int].text == upper_seq(word@));
                return true;
            }
            j = j + 1;
        }
        false
    }

    /// Every entry whose word has exactly `length` letters, in dictionary
    /// order.
    pub fn get_words_by_length(&self, length: usize) -> (r: Vec<Word>)
        ensures
            r@.map_values(|w: Word| w@) == words_of_length(self@, length as int),
            forall|i: int|
                0 <= i < r@.len() ==> (#[trigger] r@[i])@.text.len() == length && dict_has_entry(
                    self@,
                    r@[i]@,
                ),
            r@.len() > 0 <==> dict_has_text_of_len(self@, length as int),
            forall|i: int|
                0 <= i < self@.len() && (#[trigger] self@[i]).text.len() == length
                    ==> dict_has_entry(r@.map_values(|w: Word| w@), self@[i]),
    {
        let n = self.dictionary.len();
        let mut r: Vec<Word> = Vec::new();
        let mut j: usize = 0;
        while j < n
            invariant
                j <= n,
                n == self.dictionary@.len(),
                r@.map_values(|w: Word| w@) =~= words_of_length(self@.take(j as int), length as int),
                forall|i: int|
                    0 <= i < r@.len() ==> (#[trigger] r@[i])@.text.len() == length
                        && dict_has_entry(self@, r@[i]@),
                r@.len() > 0 <==> dict_has_text_of_len(self@.take(j as int), length as int),
                forall|i: int|
                    0 <= i < j && (#[trigger] self@[i]).text.len() == length ==> dict_has_entry(
                        r@.map_values(|w: Word| w@),
                        self@[i],
                    ),
            decreases n - j,
        {
            let w = &self.dictionary[j];
            if w.word.as_str().unicode_len() == length {
                let ghost r0map = r@.map_values(|w2: Word| w2@);
                r.push(w.duplicate());
                proof {
                    let newmap = r@.map_values(|w2: Word| w2@);
                    assert(self@.take(j as int + 1).drop_last() =~= self@.take(j as int));
                    assert(newmap =~= r0map + seq![self@[j as int]]);
                    assert(r@[r@.len() - 1]@ == self@[j as int]);
                    assert(newmap[r@.len() - 1] == self@[j as int]);
                    assert(self@.take(j as int + 1)[j as int].text.len() == length);
                    assert forall|i: int|
                        0 <= i < j + 1 && (#[trigger] self@[i]).text.len() == length
                            implies dict_has_entry(newmap, self@[i]) by {
                        if i < j {
                            let k = choose|k: int|
                                0 <= k < r0map.len() && #[trigger] r0map[k] == self@[i];
                            assert(newmap[k] == self@[i]);
                        } else {
                            assert(newmap[newmap.len() - 1] == self@[i]);
                        }
                    }
                }
            } else {
                proof {
                    assert(self@.take(j as int + 1).drop_last() =~= self@.take(j as int));
                    assert(r@.map_values(|w2: Word| w2@) =~= words_of_length(
                        self@.take(j as int + 1),
                        length as int,
                    ));
                    assert(self@[j as int].text.len() != length);
                    if dict_has_text_of_len(self@.take(j as int + 1), length as int) {
                        let tk = self@.take(j as int + 1);
                        let k = choose|k: int|
                            0 <= k < tk.len() && (#[trigger] tk[k]).text.len() == length;
                        assert(self@.take(j as int)[k].text.len() == length);
                    }
                }
            }
            j = j + 1;
        }
        proof {
            assert(self@.take(n as int) =~= self@);
        }
        r
    }

    /// A uniformly chosen dictionary entry of `length` letters; fails with
    /// `NoWordOfLength` iff the dictionary holds no word of that length.
    pub fn get_random_word(&self, length: usize) -> (r: Result<Word, DictionaryError>)
        ensures
            r is Ok <==> dict_has_text_of_len(self@, length as int),
            r matches Ok(w) ==> w@.text.len() == length && dict_has_entry(self@, w@),
            r is Err ==> r == Err::<Word, DictionaryError>(DictionaryError::NoWordOfLength),
    {
        let words = self.get_words_by_length(length);
        if words.len() == 0 {
            return Err(DictionaryError::NoWordOfLength);
        }
        let idx = pick_index(words.len());
        Ok(words[idx].duplicate())
    }
}

} // verus!
