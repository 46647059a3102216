//! Text to phoneme mapping for the formant voice.
//!
//! The mapper turns a line of dialogue into a sequence of phonemes: vowels with
//! formant targets, consonants with their articulation class, pauses and breaths.
//! Durations are kept in thousandths of the synthesizer's base unit and formant
//! targets in whole hertz; the pitch of each phoneme is described by its place in
//! the sentence (`Prosody`), to which the synthesizer adds its own jitter.

use vstd::prelude::*;

use crate::text::{
    chars_of, is_alphabetic, is_whitespace, sub_chars, to_lowercase_chars, trim_end,
    trim_end_seq, char_alphabetic, lowercase_of, unicode_whitespace,
};

verus! {

/// Primary language selection.
#[derive(Debug, Clone, Copy, PartialEq, Eq, Structural)]
pub enum Language {
    English,
    Portuguese,
}

#[derive(Debug, Clone, Copy, PartialEq, Eq, Structural)]
pub enum PhonemeType {
    Vowel,
    Consonant,
    Pause,
    Breath,
}

#[derive(Debug, Clone, Copy, PartialEq, Eq, Structural)]
pub enum ConsonantClass {
    PlosiveVoiced,
    PlosiveUnvoiced,
    FricativeVoiced,
    FricativeUnvoiced,
    Nasal,
    Liquid,
    Tap,
    Trill,
    Lateral,
    Affricate,
}

/// First three formant targets of a vowel, in hertz.
#[derive(Debug, Clone, Copy, PartialEq, Eq, Structural)]
pub struct Formants {
    pub f1: u32,
    pub f2: u32,
    pub f3: u32,
}

/// The intonation curve a word-level phoneme follows across its sentence.
#[derive(Debug, Clone, Copy, PartialEq, Eq, Structural)]
pub enum PitchCurve {
    /// English: gentle declination across the words of the text.
    EnglishDecline,
    /// Portuguese statement: declination across the words of the text.
    PortugueseDecline,
    /// Portuguese question (text ends in `?`): rise across the words of the text.
    PortugueseRise,
}

/// Where a phoneme sits in the prosody of its text.
#[derive(Debug, Clone, Copy, PartialEq, Eq, Structural)]
pub enum Prosody {
    /// Neutral pitch (pauses and breaths).
    Level,
    /// A phoneme of word number `word_index` (from 0) out of `word_count` words;
    /// `accent` marks a stressed vowel, which is raised above the curve.
    Contour { curve: PitchCurve, word_index: usize, word_count: usize, accent: bool },
}

#[derive(Debug, Clone, Copy, PartialEq, Eq)]
pub struct Phoneme {
    pub ty: PhonemeType,
    /// Formant targets (vowels).
    pub formants: Option<Formants>,
    /// Articulation class (consonants).
    pub consonant: Option<ConsonantClass>,
    /// Duration multiplier in thousandths.
    pub duration_milli: u32,
    pub stressed: bool,
    /// The (lowercased) characters the phoneme was read from; unused slots hold `'\0'`.
    pub source_chars: (char, char),
    /// How many of `source_chars` are in use: 0, 1 or 2.
    pub source_len: u8,
    /// Character index in the text the phoneme stems from.
    pub source_index: usize,
    pub prosody: Prosody,
}

/// A pause of the given duration at character `i`.
pub open spec fn pause_spec(i: usize, dur: u32) -> Phoneme {
    Phoneme {
        ty: PhonemeType::Pause,
        formants: None,
        consonant: None,
        duration_milli: dur,
        stressed: false,
        source_chars: ('\0', '\0'),
        source_len: 0,
        source_index: i,
        prosody: Prosody::Level,
    }
}

/// A breath at character `i`.
pub open spec fn breath_spec(i: usize) -> Phoneme {
    Phoneme {
        ty: PhonemeType::Breath,
        formants: None,
        consonant: None,
        duration_milli: 800,
        stressed: false,
        source_chars: ('\0', '\0'),
        source_len: 0,
        source_index: i,
        prosody: Prosody::Level,
    }
}

impl Phoneme {
    fn pause(source_index: usize, dur: u32) -> (r: Self)
        ensures
            r == pause_spec(source_index, dur),
    {
        Phoneme {
            ty: PhonemeType::Pause,
            formants: None,
            consonant: None,
            duration_milli: dur,
            stressed: false,
            source_chars: ('\0', '\0'),
            source_len: 0,
            source_index,
            prosody: Prosody::Level,
        }
    }

    fn breath(source_index: usize) -> (r: Self)
        ensures
            r == breath_spec(source_index),
    {
        Phoneme {
            ty: PhonemeType::Breath,
            formants: None,
            consonant: None,
            duration_milli: 800,
            stressed: false,
            source_chars: ('\0', '\0'),
            source_len: 0,
            source_index,
            prosody: Prosody::Level,
        }
    }
}

/// The character index `start + offset`, saturated at `usize::MAX`.
pub open spec fn char_index(start: int, offset: int) -> usize {
    if start + offset <= usize::MAX {
        (start + offset) as usize
    } else {
        usize::MAX
    }
}

fn char_index_exec(start: usize, offset: usize) -> (r: usize)
    ensures
        r == char_index(start as int, offset as int),
{
    start.saturating_add(offset)
}

pub struct PhoneticMapper;

impl Default for PhoneticMapper {
    fn default() -> (r: Self) {
        PhoneticMapper
    }
}

/// The phonemes the mapper reads from `text` in language `lang`.
pub open spec fn text_phonemes(text: Seq<char>, lang: Language) -> Seq<Phoneme> {
    match lang {
        Language::English => english_phonemes(text),
        Language::Portuguese => portuguese_phonemes(text),
    }
}

impl PhoneticMapper {
    pub fn text_to_phonemes(&mut self, text: &str, lang: Language) -> (r: Vec<Phoneme>)
        ensures
            r@ == text_phonemes(text@, lang),
    {
        match lang {
            Language::English => text_to_phonemes_english(text),
            Language::Portuguese => text_to_phonemes_portuguese(text),
        }
    }
}

// ---------------------------------------------
// english mapper (primary)
// ---------------------------------------------

pub open spec fn is_sentence_end_spec(ch: char) -> bool {
    ch == '.' || ch == '!' || ch == '?'
}

pub open spec fn is_punct_pause_spec(ch: char) -> bool {
    ch == ',' || ch == ';' || ch == ':'
}

pub open spec fn is_vowel_basic_spec(ch: char) -> bool {
    ch == 'a' || ch == 'e' || ch == 'i' || ch == 'o' || ch == 'u' || ch == 'y'
}

pub fn is_sentence_end(ch: char) -> (r: bool)
    ensures
        r == is_sentence_end_spec(ch),
{
    ch == '.' || ch == '!' || ch == '?'
}

pub fn is_punct_pause(ch: char) -> (r: bool)
    ensures
        r == is_punct_pause_spec(ch),
{
    ch == ',' || ch == ';' || ch == ':'
}

pub fn is_vowel_basic(ch: char) -> (r: bool)
    ensures
        r == is_vowel_basic_spec(ch),
{
    ch == 'a' || ch == 'e' || ch == 'i' || ch == 'o' || ch == 'u' || ch == 'y'
}

pub open spec fn fm(f1: u32, f2: u32, f3: u32) -> Formants {
    Formants { f1, f2, f3 }
}

/// The english vowel inventory: one- and two-letter vowel tokens and their formant targets.
pub open spec fn english_vowel_formants_spec(t: Seq<char>) -> Option<Formants> {
    if t.len() == 2 {
        let (a, b) = (t[0], t[1]);
        if a == 'e' && (b == 'e' || b == 'a') {
            Some(fm(300, 2600, 3400))
        } else if a == 'o' && b == 'o' {
            Some(fm(350, 800, 2500))
        } else if a == 'a' && (b == 'y' || b == 'i') {
            Some(fm(650, 1800, 2800))
        } else if a == 'o' && (b == 'y' || b == 'i') {
            Some(fm(500, 1100, 2600))
        } else if a == 'o' && (b == 'w' || b == 'u') {
            Some(fm(500, 900, 2500))
        } else if a == 'e' && b == 'r' {
            Some(fm(450, 1350, 2500))
        } else {
            None
        }
    } else if t.len() == 1 {
        let a = t[0];
        if a == 'a' {
            Some(fm(800, 1400, 2500))
        } else if a == 'e' {
            Some(fm(500, 2000, 2600))
        } else if a == 'i' || a == 'y' {
            Some(fm(380, 2100, 2900))
        } else if a == 'o' {
            Some(fm(550, 1000, 2500))
        } else if a == 'u' {
            Some(fm(600, 1200, 2400))
        } else {
            None
        }
    } else {
        None
    }
}

/// Very small english vowel inventory -> (f1, f2, f3) targets.
fn english_vowel_formants(token: &[char]) -> (r: Option<Formants>)
    ensures
        r == english_vowel_formants_spec(token@),
{
    if token.len() == 2 {
        let a = token[0];
        let b = token[1];
        if a == 'e' && (b == 'e' || b == 'a') {
            Some(Formants { f1: 300, f2: 2600, f3: 3400 })
        } else if a == 'o' && b == 'o' {
            Some(Formants { f1: 350, f2: 800, f3: 2500 })
        } else if a == 'a' && (b == 'y' || b == 'i') {
            Some(Formants { f1: 650, f2: 1800, f3: 2800 })
        } else if a == 'o' && (b == 'y' || b == 'i') {
            Some(Formants { f1: 500, f2: 1100, f3: 2600 })
        } else if a == 'o' && (b == 'w' || b == 'u') {
            Some(Formants { f1: 500, f2: 900, f3: 2500 })
        } else if a == 'e' && b == 'r' {
            Some(Formants { f1: 450, f2: 1350, f3: 2500 })
        } else {
            None
        }
    } else if token.len() == 1 {
        let a = token[0];
        if a == 'a' {
            Some(Formants { f1: 800, f2: 1400, f3: 2500 })
        } else if a == 'e' {
            Some(Formants { f1: 500, f2: 2000, f3: 2600 })
        } else if a == 'i' || a == 'y' {
            Some(Formants { f1: 380, f2: 2100, f3: 2900 })
        } else if a == 'o' {
            Some(Formants { f1: 550, f2: 1000, f3: 2500 })
        } else if a == 'u' {
            Some(Formants { f1: 600, f2: 1200, f3: 2400 })
        } else {
            None
        }
    } else {
        None
    }
}

/// Two-letter english consonant tokens.
pub open spec fn english_digraph_consonant_spec(t: Seq<char>) -> Option<ConsonantClass> {
    if t.len() != 2 {
        None
    } else {
        let (a, b) = (t[0], t[1]);
        if b == 'h' && (a == 't' || a == 's' || a == 'p' || a == 'w') {
            Some(ConsonantClass::FricativeUnvoiced)
        } else if a == 'c' && b == 'h' {
            Some(ConsonantClass::Affricate)
        } else if a == 'n' && b == 'g' {
            Some(ConsonantClass::Nasal)
        } else {
            None
        }
    }
}

/// Digraph consonants (english).
pub fn english_digraph_consonant(token: &[char]) -> (r: Option<ConsonantClass>)
    ensures
        r == english_digraph_consonant_spec(token@),
{
    if token.len() != 2 {
        return None;
    }
    let a = token[0];
    let b = token[1];
    if b == 'h' && (a == 't' || a == 's' || a == 'p' || a == 'w') {
        Some(ConsonantClass::FricativeUnvoiced)
    } else if a == 'c' && b == 'h' {
        Some(ConsonantClass::Affricate)
    } else if a == 'n' && b == 'g' {
        Some(ConsonantClass::Nasal)
    } else {
        None
    }
}

pub open spec fn english_consonant_class_spec(ch: char) -> Option<ConsonantClass> {
    if ch == 'b' || ch == 'd' || ch == 'g' {
        Some(ConsonantClass::PlosiveVoiced)
    } else if ch == 'p' || ch == 't' || ch == 'k' || ch == 'c' || ch == 'q' {
        Some(ConsonantClass::PlosiveUnvoiced)
    } else if ch == 'f' || ch == 's' || ch == 'x' || ch == 'h' {
        Some(ConsonantClass::FricativeUnvoiced)
    } else if ch == 'v' || ch == 'z' || ch == 'j' {
        Some(ConsonantClass::FricativeVoiced)
    } else if ch == 'm' || ch == 'n' {
        Some(ConsonantClass::Nasal)
    } else if ch == 'l' {
        Some(ConsonantClass::Lateral)
    } else if ch == 'r' || ch == 'w' {
        Some(ConsonantClass::Liquid)
    } else {
        None
    }
}

pub fn english_consonant_class(ch: char) -> (r: Option<ConsonantClass>)
    ensures
        r == english_consonant_class_spec(ch),
{
    if ch == 'b' || ch == 'd' || ch == 'g' {
        Some(ConsonantClass::PlosiveVoiced)
    } else if ch == 'p' || ch == 't' || ch == 'k' || ch == 'c' || ch == 'q' {
        Some(ConsonantClass::PlosiveUnvoiced)
    } else if ch == 'f' || ch == 's' || ch == 'x' || ch == 'h' {
        Some(ConsonantClass::FricativeUnvoiced)
    } else if ch == 'v' || ch == 'z' || ch == 'j' {
        Some(ConsonantClass::FricativeVoiced)
    } else if ch == 'm' || ch == 'n' {
        Some(ConsonantClass::Nasal)
    } else if ch == 'l' {
        Some(ConsonantClass::Lateral)
    } else if ch == 'r' || ch == 'w' {
        Some(ConsonantClass::Liquid)
    } else {
        None
    }
}

/// Cheap stress heuristic for english: the first vowel nucleus when the word has
/// at most one nucleus or its last nucleus starts within the first four letters,
/// else the penultimate nucleus.
pub open spec fn english_stress_spec(nuclei: Seq<usize>) -> int {
    if nuclei.len() <= 1 {
        0
    } else if nuclei.last() <= 3 {
        0
    } else {
        nuclei.len() - 2
    }
}

pub fn english_stress_vowel_index(vowel_positions: &[usize]) -> (r: usize)
    ensures
        r == english_stress_spec(vowel_positions@),
{
    if vowel_positions.len() == 0 {
        return 0;
    }
    if vowel_positions.len() == 1 {
        return 0;
    }
    if vowel_positions[vowel_positions.len() - 1] <= 3 {
        0
    } else {
        vowel_positions.len() - 2
    }
}

// ---------------------------------------------
// words and their counts
// ---------------------------------------------

/// Whether `c` belongs to a word: letters, and in english also the apostrophe.
pub open spec fn word_char(c: char, lang: Language) -> bool {
    match lang {
        Language::English => char_alphabetic(c) || c == '\'',
        Language::Portuguese => char_alphabetic(c),
    }
}

fn is_word_char(c: char, lang: Language) -> (r: bool)
    ensures
        r == word_char(c, lang),
{
    match lang {
        Language::English => is_alphabetic(c) || c == '\'',
        Language::Portuguese => is_alphabetic(c),
    }
}

/// The end of the run of word characters that starts at `i`.
pub open spec fn run_end(s: Seq<char>, i: int, lang: Language) -> int
    decreases s.len() - i,
{
    if 0 <= i < s.len() && word_char(s[i], lang) {
        run_end(s, i + 1, lang)
    } else {
        i
    }
}

pub proof fn lemma_run_end(s: Seq<char>, i: int, lang: Language)
    requires
        0 <= i <= s.len(),
    ensures
        i <= run_end(s, i, lang) <= s.len(),
        forall|k: int| i <= k < run_end(s, i, lang) ==> word_char(#[trigger] s[k], lang),
        run_end(s, i, lang) < s.len() ==> !word_char(s[run_end(s, i, lang)], lang),
        i < s.len() && word_char(s[i], lang) ==> i < run_end(s, i, lang),
    decreases s.len() - i,
{
    if i < s.len() && word_char(s[i], lang) {
        lemma_run_end(s, i + 1, lang);
    }
}

/// How many words (maximal runs of word characters) `s` holds.
pub open spec fn word_starts(s: Seq<char>, lang: Language) -> nat
    decreases s.len(),
{
    if s.len() == 0 {
        0
    } else {
        let n = s.len() - 1;
        word_starts(s.drop_last(), lang) + if word_char(s[n], lang) && (n == 0 || !word_char(
            s[n - 1],
            lang,
        )) {
            1nat
        } else {
            0nat
        }
    }
}

/// The number of words of `s`, at least one.
pub open spec fn word_count(s: Seq<char>, lang: Language) -> nat {
    if word_starts(s, lang) == 0 {
        1
    } else {
        word_starts(s, lang)
    }
}

proof fn lemma_word_starts_bound(s: Seq<char>, lang: Language)
    ensures
        word_starts(s, lang) <= s.len(),
    decreases s.len(),
{
    if s.len() > 0 {
        lemma_word_starts_bound(s.drop_last(), lang);
    }
}

fn count_words(chars: &[char], lang: Language) -> (r: usize)
    ensures
        r == word_count(chars@, lang),
{
    let mut in_word = false;
    let mut c: usize = 0;
    let mut k: usize = 0;
    while k < chars.len()
        invariant
            k <= chars@.len(),
            c == word_starts(chars@.take(k as int), lang),
            in_word == (k > 0 && word_char(chars@[k - 1], lang)),
        decreases chars.len() - k,
    {
        proof {
            let t = chars@.take(k as int + 1);
            assert(t.drop_last() =~= chars@.take(k as int));
            lemma_word_starts_bound(chars@.take(k as int), lang);
        }
        if is_word_char(chars[k], lang) {
            if !in_word {
                in_word = true;
                c += 1;
            }
        } else {
            in_word = false;
        }
        k += 1;
    }
    assert(chars@.take(k as int) =~= chars@);
    if c == 0 {
        1
    } else {
        c
    }
}

// ---------------------------------------------
// english words
// ---------------------------------------------

/// Start positions of the vowel nuclei (maximal runs of basic vowels) of `w`.
pub open spec fn vowel_nuclei(w: Seq<char>) -> Seq<usize>
    decreases w.len(),
{
    if w.len() == 0 {
        Seq::empty()
    } else {
        let n = w.len() - 1;
        let prev = vowel_nuclei(w.drop_last());
        if is_vowel_basic_spec(w[n]) && (n == 0 || !is_vowel_basic_spec(w[n - 1])) {
            prev.push(n as usize)
        } else {
            prev
        }
    }
}

fn find_vowel_nuclei(w: &[char]) -> (r: Vec<usize>)
    ensures
        r@ == vowel_nuclei(w@),
{
    let mut nuclei: Vec<usize> = Vec::new();
    let mut wi: usize = 0;
    let mut last_was_vowel = false;
    while wi < w.len()
        invariant
            wi <= w@.len(),
            nuclei@ == vowel_nuclei(w@.take(wi as int)),
            last_was_vowel == (wi > 0 && is_vowel_basic_spec(w@[wi - 1])),
        decreases w.len() - wi,
    {
        proof {
            assert(w@.take(wi as int + 1).drop_last() =~= w@.take(wi as int));
        }
        let v = is_vowel_basic(w[wi]);
        if v && !last_was_vowel {
            nuclei.push(wi);
        }
        last_was_vowel = v;
        wi += 1;
    }
    assert(w@.take(wi as int) =~= w@);
    nuclei
}

pub open spec fn en_contour(word_index: int, word_count: int, accent: bool) -> Prosody {
    Prosody::Contour {
        curve: PitchCurve::EnglishDecline,
        word_index: word_index as usize,
        word_count: word_count as usize,
        accent,
    }
}

/// The consonant class of the letter at `wi` of `w`: soft `c` and `g` before `e`, `i`, `y`.
pub open spec fn en_consonant(w: Seq<char>, wi: int) -> Option<ConsonantClass> {
    let c = w[wi];
    let soft = wi + 1 < w.len() && (w[wi + 1] == 'e' || w[wi + 1] == 'i' || w[wi + 1] == 'y');
    if c == 'c' && soft {
        Some(ConsonantClass::FricativeUnvoiced)
    } else if c == 'g' && soft {
        Some(ConsonantClass::FricativeVoiced)
    } else {
        english_consonant_class_spec(c)
    }
}

/// The phonemes of the lowercased english word `w` from position `wi` on, where
/// `nucleus` vowel nuclei were read before `wi`, nucleus number `stressed` carries the
/// stress, and the word starts at character `start` of its text.
pub open spec fn en_word(
    w: Seq<char>,
    wi: int,
    nucleus: int,
    stressed: int,
    start: int,
    word_index: int,
    wc: int,
) -> Seq<Phoneme>
    decreases w.len() - wi,
{
    if wi < 0 || wi >= w.len() {
        Seq::empty()
    } else {
        let st = nucleus == stressed;
        let src = char_index(start, wi);
        if wi + 1 < w.len() && english_vowel_formants_spec(w.subrange(wi, wi + 2)) is Some {
            seq![
                Phoneme {
                    ty: PhonemeType::Vowel,
                    formants: english_vowel_formants_spec(w.subrange(wi, wi + 2)),
                    consonant: None,
                    duration_milli: if st { 1250 } else { 950 },
                    stressed: st,
                    source_chars: (w[wi], w[wi + 1]),
                    source_len: 2,
                    source_index: src,
                    prosody: en_contour(word_index, wc, st),
                },
            ] + en_word(w, wi + 2, nucleus + 1, stressed, start, word_index, wc)
        } else if wi + 1 < w.len() && english_digraph_consonant_spec(w.subrange(wi, wi + 2)) is Some {
            seq![
                Phoneme {
                    ty: PhonemeType::Consonant,
                    formants: None,
                    consonant: english_digraph_consonant_spec(w.subrange(wi, wi + 2)),
                    duration_milli: 550,
                    stressed: st,
                    source_chars: (w[wi], w[wi + 1]),
                    source_len: 2,
                    source_index: src,
                    prosody: en_contour(word_index, wc, false),
                },
            ] + en_word(w, wi + 2, nucleus, stressed, start, word_index, wc)
        } else if english_vowel_formants_spec(seq![w[wi]]) is Some {
            seq![
                Phoneme {
                    ty: PhonemeType::Vowel,
                    formants: english_vowel_formants_spec(seq![w[wi]]),
                    consonant: None,
                    duration_milli: if st { 1150 } else { 900 },
                    stressed: st,
                    source_chars: (w[wi], '\0'),
                    source_len: 1,
                    source_index: src,
                    prosody: en_contour(word_index, wc, st),
                },
            ] + en_word(w, wi + 1, nucleus + 1, stressed, start, word_index, wc)
        } else if en_consonant(w, wi) is Some {
            seq![
                Phoneme {
                    ty: PhonemeType::Consonant,
                    formants: None,
                    consonant: en_consonant(w, wi),
                    duration_milli: 500,
                    stressed: st,
                    source_chars: (w[wi], '\0'),
                    source_len: 1,
                    source_index: src,
                    prosody: en_contour(word_index, wc, false),
                },
            ] + en_word(w, wi + 1, nucleus, stressed, start, word_index, wc)
        } else {
            seq![pause_spec(src, 120)] + en_word(w, wi + 1, nucleus, stressed, start, word_index, wc)
        }
    }
}

/// The phonemes of the english text `s` from character `i` on, where `word_index`
/// words were read before `i` and the text has `wc` words.
pub open spec fn en_text(s: Seq<char>, i: int, word_index: int, wc: int) -> Seq<Phoneme>
    decreases s.len() - i,
{
    if i < 0 || i >= s.len() {
        Seq::empty()
    } else {
        let ch = s[i];
        if unicode_whitespace(ch) {
            seq![pause_spec(i as usize, 350)] + en_text(s, i + 1, word_index, wc)
        } else if is_punct_pause_spec(ch) {
            seq![pause_spec(i as usize, 750)] + en_text(s, i + 1, word_index, wc)
        } else if is_sentence_end_spec(ch) {
            seq![pause_spec(i as usize, 1250), breath_spec(i as usize)] + en_text(
                s,
                i + 1,
                word_index,
                wc,
            )
        } else if word_char(ch, Language::English) {
            let end = run_end(s, i, Language::English);
            proof {
                lemma_run_end(s, i, Language::English);
            }
            let lower = lowercase_of(s.subrange(i, end));
            let stressed = english_stress_spec(vowel_nuclei(lower));
            en_word(lower, 0, 0, stressed, i, word_index, wc) + seq![pause_spec(end as usize, 250)]
                + en_text(s, end, word_index + 1, wc)
        } else {
            en_text(s, i + 1, word_index, wc)
        }
    }
}

/// The phonemes the english mapper reads from `text`.
pub open spec fn english_phonemes(text: Seq<char>) -> Seq<Phoneme> {
    en_text(text, 0, 0, word_count(text, Language::English) as int)
}

/// Reads one english word (already lowercased) into `out`.
fn english_word(
    out: &mut Vec<Phoneme>,
    lower: &[char],
    stressed_nucleus: usize,
    start: usize,
    word_index: usize,
    word_count: usize,
)
    ensures
        final(out)@ == old(out)@ + en_word(
            lower@,
            0,
            0,
            stressed_nucleus as int,
            start as int,
            word_index as int,
            word_count as int,
        ),
{
    let ghost head = old(out)@;
    let ghost total = head + en_word(
        lower@,
        0,
        0,
        stressed_nucleus as int,
        start as int,
        word_index as int,
        word_count as int,
    );
    let mut wi: usize = 0;
    let mut nucleus_idx: usize = 0;
    while wi < lower.len()
        invariant
            wi <= lower@.len(),
            nucleus_idx <= wi,
            out@ + en_word(
                lower@,
                wi as int,
                nucleus_idx as int,
                stressed_nucleus as int,
                start as int,
                word_index as int,
                word_count as int,
            ) == total,
        decreases lower.len() - wi,
    {
        let ghost before = out@;
        let ghost rest = en_word(
            lower@,
            wi as int,
            nucleus_idx as int,
            stressed_nucleus as int,
            start as int,
            word_index as int,
            word_count as int,
        );
        let stressed = nucleus_idx == stressed_nucleus;
        let src = char_index_exec(start, wi);
        let c = lower[wi];
        if wi + 1 < lower.len() {
            let token = sub_chars(lower, wi, wi + 2);
            let vf = english_vowel_formants(&token);
            if vf.is_some() {
                out.push(
                    Phoneme {
                        ty: PhonemeType::Vowel,
                        formants: vf,
                        consonant: None,
                        duration_milli: if stressed { 1250 } else { 950 },
                        stressed,
                        source_chars: (lower[wi], lower[wi + 1]),
                        source_len: 2,
                        source_index: src,
                        prosody: Prosody::Contour {
                            curve: PitchCurve::EnglishDecline,
                            word_index,
                            word_count,
                            accent: stressed,
                        },
                    },
                );
                nucleus_idx += 1;
                wi += 2;
                assert(out@ + en_word(
                    lower@,
                    wi as int,
                    nucleus_idx as int,
                    stressed_nucleus as int,
                    start as int,
                    word_index as int,
                    word_count as int,
                ) =~= before + rest);
                continue;
            }
            let dc = english_digraph_consonant(&token);
            if dc.is_some() {
                out.push(
                    Phoneme {
                        ty: PhonemeType::Consonant,
                        formants: None,
                        consonant: dc,
                        duration_milli: 550,
                        stressed,
                        source_chars: (lower[wi], lower[wi + 1]),
                        source_len: 2,
                        source_index: src,
                        prosody: Prosody::Contour {
                            curve: PitchCurve::EnglishDecline,
                            word_index,
                            word_count,
                            accent: false,
                        },
                    },
                );
                wi += 2;
                assert(out@ + en_word(
                    lower@,
                    wi as int,
                    nucleus_idx as int,
                    stressed_nucleus as int,
                    start as int,
                    word_index as int,
                    word_count as int,
                ) =~= before + rest);
                continue;
            }
        }
        let single = vec![c];
        proof {
            assert(single@ =~= seq![lower@[wi as int]]);
        }
        let sv = english_vowel_formants(&single);
        if sv.is_some() {
            out.push(
                Phoneme {
                    ty: PhonemeType::Vowel,
                    formants: sv,
                    consonant: None,
                    duration_milli: if stressed { 1150 } else { 900 },
                    stressed,
                    source_chars: (c, '\0'),
                    source_len: 1,
                    source_index: src,
                    prosody: Prosody::Contour {
                        curve: PitchCurve::EnglishDecline,
                        word_index,
                        word_count,
                        accent: stressed,
                    },
                },
            );
            nucleus_idx += 1;
            wi += 1;
            assert(out@ + en_word(
                lower@,
                wi as int,
                nucleus_idx as int,
                stressed_nucleus as int,
                start as int,
                word_index as int,
                word_count as int,
            ) =~= before + rest);
            continue;
        }
        let mut cc = english_consonant_class(c);
        if c == 'c' && wi + 1 < lower.len() {
            let n = lower[wi + 1];
            if n == 'e' || n == 'i' || n == 'y' {
                cc = Some(ConsonantClass::FricativeUnvoiced);
            }
        }
        if c == 'g' && wi + 1 < lower.len() {
            let n = lower[wi + 1];
            if n == 'e' || n == 'i' || n == 'y' {
                cc = Some(ConsonantClass::FricativeVoiced);
            }
        }
        assert(cc == en_consonant(lower@, wi as int));
        if cc.is_some() {
            out.push(
                Phoneme {
                    ty: PhonemeType::Consonant,
                    formants: None,
                    consonant: cc,
                    duration_milli: 500,
                    stressed,
                    source_chars: (c, '\0'),
                    source_len: 1,
                    source_index: src,
                    prosody: Prosody::Contour {
                        curve: PitchCurve::EnglishDecline,
                        word_index,
                        word_count,
                        accent: false,
                    },
                },
            );
        } else {
            out.push(Phoneme::pause(src, 120));
        }
        wi += 1;
        assert(out@ + en_word(
            lower@,
            wi as int,
            nucleus_idx as int,
            stressed_nucleus as int,
            start as int,
            word_index as int,
            word_count as int,
        ) =~= before + rest);
    }
}

fn text_to_phonemes_english(text: &str) -> (out: Vec<Phoneme>)
    ensures
        out@ == english_phonemes(text@),
{
    let chars = chars_of(text);
    let wc = count_words(&chars, Language::English);
    let ghost total = english_phonemes(text@);
    let mut out: Vec<Phoneme> = Vec::new();
    let mut i: usize = 0;
    let mut word_index: usize = 0;
    while i < chars.len()
        invariant
            chars@ == text@,
            i <= chars@.len(),
            word_index <= i,
            wc == word_count(chars@, Language::English),
            out@ + en_text(chars@, i as int, word_index as int, wc as int) == total,
        decreases chars.len() - i,
    {
        let ghost before = out@;
        let ch = chars[i];
        if is_whitespace(ch) {
            out.push(Phoneme::pause(i, 350));
            i += 1;
            assert(out@ + en_text(chars@, i as int, word_index as int, wc as int) =~= before
                + en_text(chars@, i - 1, word_index as int, wc as int));
            continue;
        }
        if is_punct_pause(ch) {
            out.push(Phoneme::pause(i, 750));
            i += 1;
            assert(out@ + en_text(chars@, i as int, word_index as int, wc as int) =~= before
                + en_text(chars@, i - 1, word_index as int, wc as int));
            continue;
        }
        if is_sentence_end(ch) {
            out.push(Phoneme::pause(i, 1250));
            out.push(Phoneme::breath(i));
            i += 1;
            assert(out@ + en_text(chars@, i as int, word_index as int, wc as int) =~= before
                + en_text(chars@, i - 1, word_index as int, wc as int));
            continue;
        }
        if is_word_char(ch, Language::English) {
            let start = i;
            proof {
                lemma_run_end(chars@, start as int, Language::English);
            }
            while i < chars.len() && is_word_char(chars[i], Language::English)
                invariant
                    start <= i <= chars@.len(),
                    run_end(chars@, start as int, Language::English) == run_end(
                        chars@,
                        i as int,
                        Language::English,
                    ),
                decreases chars.len() - i,
            {
                i += 1;
            }
            let word = sub_chars(&chars, start, i);
            let lower = to_lowercase_chars(&word);
            let nuclei = find_vowel_nuclei(&lower);
            let stressed_nucleus = english_stress_vowel_index(&nuclei);
            english_word(&mut out, &lower, stressed_nucleus, start, word_index, wc);
            out.push(Phoneme::pause(i, 250));
            word_index += 1;
            assert(out@ + en_text(chars@, i as int, word_index as int, wc as int) =~= before
                + en_text(chars@, start as int, word_index - 1, wc as int));
            continue;
        }
        i += 1;
    }
    out
}

// ---------------------------------------------
// portuguese mapper (kept as option)
// ---------------------------------------------

pub open spec fn pt_is_vowel_spec(ch: char) -> bool {
    ch == 'a' || ch == 'á' || ch == 'â' || ch == 'à' || ch == 'e' || ch == 'é' || ch == 'ê' || ch
        == 'i' || ch == 'í' || ch == 'o' || ch == 'ó' || ch == 'ô' || ch == 'u' || ch == 'ú' || ch
        == 'ã' || ch == 'õ'
}

pub fn pt_is_vowel(ch: char) -> (r: bool)
    ensures
        r == pt_is_vowel_spec(ch),
{
    ch == 'a' || ch == 'á' || ch == 'â' || ch == 'à' || ch == 'e' || ch == 'é' || ch == 'ê' || ch
        == 'i' || ch == 'í' || ch == 'o' || ch == 'ó' || ch == 'ô' || ch == 'u' || ch == 'ú' || ch
        == 'ã' || ch == 'õ'
}

pub open spec fn pt_vowel_formants_spec(ch: char) -> Option<Formants> {
    if ch == 'a' {
        Some(fm(800, 1200, 2500))
    } else if ch == 'á' {
        Some(fm(820, 1250, 2550))
    } else if ch == 'â' {
        Some(fm(600, 1150, 2500))
    } else if ch == 'à' {
        Some(fm(800, 1200, 2500))
    } else if ch == 'e' {
        Some(fm(450, 1950, 2600))
    } else if ch == 'é' {
        Some(fm(550, 1900, 2700))
    } else if ch == 'ê' {
        Some(fm(400, 2100, 2700))
    } else if ch == 'i' {
        Some(fm(300, 2700, 3300))
    } else if ch == 'í' {
        Some(fm(280, 2750, 3350))
    } else if ch == 'o' {
        Some(fm(500, 900, 2500))
    } else if ch == 'ó' {
        Some(fm(550, 950, 2500))
    } else if ch == 'ô' {
        Some(fm(400, 800, 2500))
    } else if ch == 'u' {
        Some(fm(350, 700, 2500))
    } else if ch == 'ú' {
        Some(fm(330, 680, 2450))
    } else if ch == 'ã' {
        Some(fm(700, 1100, 2500))
    } else if ch == 'õ' {
        Some(fm(450, 820, 2400))
    } else {
        None
    }
}

fn pt_vowel_formants(ch: char) -> (r: Option<Formants>)
    ensures
        r == pt_vowel_formants_spec(ch),
{
    let f = if ch == 'a' {
        (800, 1200, 2500)
    } else if ch == 'á' {
        (820, 1250, 2550)
    } else if ch == 'â' {
        (600, 1150, 2500)
    } else if ch == 'à' {
        (800, 1200, 2500)
    } else if ch == 'e' {
        (450, 1950, 2600)
    } else if ch == 'é' {
        (550, 1900, 2700)
    } else if ch == 'ê' {
        (400, 2100, 2700)
    } else if ch == 'i' {
        (300, 2700, 3300)
    } else if ch == 'í' {
        (280, 2750, 3350)
    } else if ch == 'o' {
        (500, 900, 2500)
    } else if ch == 'ó' {
        (550, 950, 2500)
    } else if ch == 'ô' {
        (400, 800, 2500)
    } else if ch == 'u' {
        (350, 700, 2500)
    } else if ch == 'ú' {
        (330, 680, 2450)
    } else if ch == 'ã' {
        (700, 1100, 2500)
    } else if ch == 'õ' {
        (450, 820, 2400)
    } else {
        return None;
    };
    Some(Formants { f1: f.0, f2: f.1, f3: f.2 })
}

pub open spec fn pt_consonant_class_spec(ch: char) -> Option<ConsonantClass> {
    if ch == 'b' || ch == 'd' || ch == 'g' {
        Some(ConsonantClass::PlosiveVoiced)
    } else if ch == 'p' || ch == 't' || ch == 'k' || ch == 'c' || ch == 'q' {
        Some(ConsonantClass::PlosiveUnvoiced)
    } else if ch == 'f' || ch == 's' || ch == 'x' || ch == 'ç' || ch == 'h' {
        Some(ConsonantClass::FricativeUnvoiced)
    } else if ch == 'v' || ch == 'z' || ch == 'j' {
        Some(ConsonantClass::FricativeVoiced)
    } else if ch == 'm' || ch == 'n' {
        Some(ConsonantClass::Nasal)
    } else if ch == 'l' || ch == 'w' || ch == 'y' {
        Some(ConsonantClass::Liquid)
    } else if ch == 'r' {
        Some(ConsonantClass::Tap)
    } else {
        None
    }
}

pub fn pt_consonant_class(ch: char) -> (r: Option<ConsonantClass>)
    ensures
        r == pt_consonant_class_spec(ch),
{
    if ch == 'b' || ch == 'd' || ch == 'g' {
        Some(ConsonantClass::PlosiveVoiced)
    } else if ch == 'p' || ch == 't' || ch == 'k' || ch == 'c' || ch == 'q' {
        Some(ConsonantClass::PlosiveUnvoiced)
    } else if ch == 'f' || ch == 's' || ch == 'x' || ch == 'ç' || ch == 'h' {
        Some(ConsonantClass::FricativeUnvoiced)
    } else if ch == 'v' || ch == 'z' || ch == 'j' {
        Some(ConsonantClass::FricativeVoiced)
    } else if ch == 'm' || ch == 'n' {
        Some(ConsonantClass::Nasal)
    } else if ch == 'l' || ch == 'w' || ch == 'y' {
        Some(ConsonantClass::Liquid)
    } else if ch == 'r' {
        Some(ConsonantClass::Tap)
    } else {
        None
    }
}

pub open spec fn pt_digraph_spec(ch1: char, ch2: char) -> Option<ConsonantClass> {
    if ch1 == 'n' && ch2 == 'h' {
        Some(ConsonantClass::Nasal)
    } else if ch1 == 'l' && ch2 == 'h' {
        Some(ConsonantClass::Lateral)
    } else if ch1 == 'c' && ch2 == 'h' {
        Some(ConsonantClass::FricativeUnvoiced)
    } else if ch1 == 'r' && ch2 == 'r' {
        Some(ConsonantClass::Trill)
    } else if ch1 == 's' && ch2 == 's' {
        Some(ConsonantClass::FricativeUnvoiced)
    } else if ch1 == 'q' && ch2 == 'u' {
        Some(ConsonantClass::PlosiveUnvoiced)
    } else if ch1 == 'g' && ch2 == 'u' {
        Some(ConsonantClass::PlosiveVoiced)
    } else {
        None
    }
}

pub fn pt_digraph(ch1: char, ch2: char) -> (r: Option<ConsonantClass>)
    ensures
        r == pt_digraph_spec(ch1, ch2),
{
    if ch1 == 'n' && ch2 == 'h' {
        Some(ConsonantClass::Nasal)
    } else if ch1 == 'l' && ch2 == 'h' {
        Some(ConsonantClass::Lateral)
    } else if ch1 == 'c' && ch2 == 'h' {
        Some(ConsonantClass::FricativeUnvoiced)
    } else if ch1 == 'r' && ch2 == 'r' {
        Some(ConsonantClass::Trill)
    } else if ch1 == 's' && ch2 == 's' {
        Some(ConsonantClass::FricativeUnvoiced)
    } else if ch1 == 'q' && ch2 == 'u' {
        Some(ConsonantClass::PlosiveUnvoiced)
    } else if ch1 == 'g' && ch2 == 'u' {
        Some(ConsonantClass::PlosiveVoiced)
    } else {
        None
    }
}

/// Portuguese stress falls on the penultimate syllable (the only one of a
/// one-syllable word).
pub open spec fn pt_stress_spec(syllables: int) -> int {
    if syllables <= 1 {
        0
    } else {
        syllables - 2
    }
}

pub fn pt_find_stressed_syllable(syllables: usize) -> (r: usize)
    ensures
        r == pt_stress_spec(syllables as int),
{
    if syllables <= 1 {
        0
    } else {
        syllables - 2
    }
}

/// The number of vowel groups (maximal runs of portuguese vowels) of `w`.
pub open spec fn pt_vowel_groups(w: Seq<char>) -> nat
    decreases w.len(),
{
    if w.len() == 0 {
        0
    } else {
        let n = w.len() - 1;
        pt_vowel_groups(w.drop_last()) + if pt_is_vowel_spec(w[n]) && (n == 0 || !pt_is_vowel_spec(
            w[n - 1],
        )) {
            1nat
        } else {
            0nat
        }
    }
}

proof fn lemma_pt_vowel_groups_bound(w: Seq<char>)
    ensures
        pt_vowel_groups(w) <= w.len(),
    decreases w.len(),
{
    if w.len() > 0 {
        lemma_pt_vowel_groups_bound(w.drop_last());
    }
}

/// The syllable count of a portuguese word: its vowel groups, at least one.
pub open spec fn pt_syllables(w: Seq<char>) -> int {
    if pt_vowel_groups(w) == 0 {
        1
    } else {
        pt_vowel_groups(w) as int
    }
}

fn count_pt_syllables(w: &[char]) -> (r: usize)
    ensures
        r == pt_syllables(w@),
{
    let mut count: usize = 0;
    let mut last_v = false;
    let mut k: usize = 0;
    while k < w.len()
        invariant
            k <= w@.len(),
            count == pt_vowel_groups(w@.take(k as int)),
            last_v == (k > 0 && pt_is_vowel_spec(w@[k - 1])),
        decreases w.len() - k,
    {
        proof {
            assert(w@.take(k as int + 1).drop_last() =~= w@.take(k as int));
            lemma_pt_vowel_groups_bound(w@.take(k as int));
        }
        let v = pt_is_vowel(w[k]);
        if v && !last_v {
            count += 1;
        }
        last_v = v;
        k += 1;
    }
    assert(w@.take(k as int) =~= w@);
    if count == 0 {
        1
    } else {
        count
    }
}

/// Whether the text is a question: its last non-blank character is `?`.
pub open spec fn pt_is_question(s: Seq<char>) -> bool {
    let t = trim_end_seq(s);
    t.len() > 0 && t.last() == '?'
}

pub open spec fn pt_contour(curve: PitchCurve, word_index: int, word_count: int, accent: bool) -> Prosody {
    Prosody::Contour {
        curve,
        word_index: word_index as usize,
        word_count: word_count as usize,
        accent,
    }
}

/// The consonant class of the letter at `wi` of `w` with the portuguese context
/// rules: `c` before `e`/`i` is /s/, `r` at the start or after a consonant is
/// trilled, `s` between vowels is voiced.
pub open spec fn pt_consonant(w: Seq<char>, wi: int) -> Option<ConsonantClass> {
    let c = w[wi];
    match pt_consonant_class_spec(c) {
        None => None,
        Some(base) => Some(
            if c == 'c' && wi + 1 < w.len() && (w[wi + 1] == 'e' || w[wi + 1] == 'i') {
                ConsonantClass::FricativeUnvoiced
            } else if c == 'r' && (wi == 0 || !pt_is_vowel_spec(w[wi - 1])) {
                ConsonantClass::Trill
            } else if c == 's' && wi > 0 && wi + 1 < w.len() && pt_is_vowel_spec(w[wi - 1])
                && pt_is_vowel_spec(w[wi + 1]) {
                ConsonantClass::FricativeVoiced
            } else {
                base
            },
        ),
    }
}

/// The phonemes of the lowercased portuguese word `w` from position `wi` on, where
/// `cur` syllables were entered before `wi`, `last_vowel` tells whether the letter
/// before `wi` was read as a vowel, and syllable number `stressed` carries the stress.
pub open spec fn pt_word(
    w: Seq<char>,
    wi: int,
    cur: int,
    last_vowel: bool,
    stressed: int,
    start: int,
    word_index: int,
    wc: int,
    curve: PitchCurve,
) -> Seq<Phoneme>
    decreases w.len() - wi,
{
    if wi < 0 || wi >= w.len() {
        Seq::empty()
    } else {
        let st = cur == stressed;
        let src = char_index(start, wi);
        if wi + 1 < w.len() && pt_digraph_spec(w[wi], w[wi + 1]) is Some {
            seq![
                Phoneme {
                    ty: PhonemeType::Consonant,
                    formants: None,
                    consonant: pt_digraph_spec(w[wi], w[wi + 1]),
                    duration_milli: 600,
                    stressed: st,
                    source_chars: (w[wi], w[wi + 1]),
                    source_len: 2,
                    source_index: src,
                    prosody: pt_contour(curve, word_index, wc, false),
                },
            ] + pt_word(w, wi + 2, cur, false, stressed, start, word_index, wc, curve)
        } else if pt_vowel_formants_spec(w[wi]) is Some {
            seq![
                Phoneme {
                    ty: PhonemeType::Vowel,
                    formants: pt_vowel_formants_spec(w[wi]),
                    consonant: None,
                    duration_milli: if st { 1200 } else { 900 },
                    stressed: st,
                    source_chars: (w[wi], '\0'),
                    source_len: 1,
                    source_index: src,
                    prosody: pt_contour(curve, word_index, wc, st),
                },
            ] + pt_word(
                w,
                wi + 1,
                if last_vowel { cur } else { cur + 1 },
                true,
                stressed,
                start,
                word_index,
                wc,
                curve,
            )
        } else if pt_consonant(w, wi) is Some {
            seq![
                Phoneme {
                    ty: PhonemeType::Consonant,
                    formants: None,
                    consonant: pt_consonant(w, wi),
                    duration_milli: 500,
                    stressed: st,
                    source_chars: (w[wi], '\0'),
                    source_len: 1,
                    source_index: src,
                    prosody: pt_contour(curve, word_index, wc, false),
                },
            ] + pt_word(w, wi + 1, cur, false, stressed, start, word_index, wc, curve)
        } else {
            seq![pause_spec(src, 150)] + pt_word(
                w,
                wi + 1,
                cur,
                false,
                stressed,
                start,
                word_index,
                wc,
                curve,
            )
        }
    }
}

/// The phonemes of the portuguese text `s` from character `i` on.
pub open spec fn pt_text(s: Seq<char>, i: int, word_index: int, wc: int, curve: PitchCurve) -> Seq<
    Phoneme,
>
    decreases s.len() - i,
{
    if i < 0 || i >= s.len() {
        Seq::empty()
    } else {
        let ch = s[i];
        if unicode_whitespace(ch) {
            seq![pause_spec(i as usize, 400)] + pt_text(s, i + 1, word_index, wc, curve)
        } else if is_punct_pause_spec(ch) {
            seq![pause_spec(i as usize, 800)] + pt_text(s, i + 1, word_index, wc, curve)
        } else if is_sentence_end_spec(ch) {
            seq![
                pause_spec(i as usize, if ch == '.' { 1200 } else { 1500 }),
                breath_spec(i as usize),
            ] + pt_text(s, i + 1, word_index, wc, curve)
        } else if word_char(ch, Language::Portuguese) {
            let end = run_end(s, i, Language::Portuguese);
            proof {
                lemma_run_end(s, i, Language::Portuguese);
            }
            let lower = lowercase_of(s.subrange(i, end));
            let stressed = pt_stress_spec(pt_syllables(lower));
            pt_word(lower, 0, 0, false, stressed, i, word_index, wc, curve) + seq![
                pause_spec(end as usize, 250),
            ] + pt_text(s, end, word_index + 1, wc, curve)
        } else {
            pt_text(s, i + 1, word_index, wc, curve)
        }
    }
}

/// The phonemes the portuguese mapper reads from `text`.
pub open spec fn portuguese_phonemes(text: Seq<char>) -> Seq<Phoneme> {
    pt_text(
        text,
        0,
        0,
        word_count(text, Language::Portuguese) as int,
        if pt_is_question(text) {
            PitchCurve::PortugueseRise
        } else {
            PitchCurve::PortugueseDecline
        },
    )
}

/// Reads one portuguese word (already lowercased) into `out`.
fn portuguese_word(
    out: &mut Vec<Phoneme>,
    lower: &[char],
    stressed_syllable: usize,
    start: usize,
    word_index: usize,
    word_count: usize,
    curve: PitchCurve,
)
    ensures
        final(out)@ == old(out)@ + pt_word(
            lower@,
            0,
            0,
            false,
            stressed_syllable as int,
            start as int,
            word_index as int,
            word_count as int,
            curve,
        ),
{
    let ghost total = old(out)@ + pt_word(
        lower@,
        0,
        0,
        false,
        stressed_syllable as int,
        start as int,
        word_index as int,
        word_count as int,
        curve,
    );
    let mut current_syllable: usize = 0;
    let mut last_char_was_vowel = false;
    let mut wi: usize = 0;
    while wi < lower.len()
        invariant
            wi <= lower@.len(),
            current_syllable <= wi,
            out@ + pt_word(
                lower@,
                wi as int,
                current_syllable as int,
                last_char_was_vowel,
                stressed_syllable as int,
                start as int,
                word_index as int,
                word_count as int,
                curve,
            ) == total,
        decreases lower.len() - wi,
    {
        let ghost before = out@;
        let ghost rest = pt_word(
            lower@,
            wi as int,
            current_syllable as int,
            last_char_was_vowel,
            stressed_syllable as int,
            start as int,
            word_index as int,
            word_count as int,
            curve,
        );
        let c = lower[wi];
        let src = char_index_exec(start, wi);
        let stressed = current_syllable == stressed_syllable;
        if wi + 1 < lower.len() {
            let dg = pt_digraph(lower[wi], lower[wi + 1]);
            if dg.is_some() {
                out.push(
                    Phoneme {
                        ty: PhonemeType::Consonant,
                        formants: None,
                        consonant: dg,
                        duration_milli: 600,
                        stressed,
                        source_chars: (lower[wi], lower[wi + 1]),
                        source_len: 2,
                        source_index: src,
                        prosody: Prosody::Contour { curve, word_index, word_count, accent: false },
                    },
                );
                last_char_was_vowel = false;
                wi += 2;
                assert(out@ + pt_word(
                    lower@,
                    wi as int,
                    current_syllable as int,
                    last_char_was_vowel,
                    stressed_syllable as int,
                    start as int,
                    word_index as int,
                    word_count as int,
                    curve,
                ) =~= before + rest);
                continue;
            }
        }
        let vf = pt_vowel_formants(c);
        if vf.is_some() {
            out.push(
                Phoneme {
                    ty: PhonemeType::Vowel,
                    formants: vf,
                    consonant: None,
                    duration_milli: if stressed { 1200 } else { 900 },
                    stressed,
                    source_chars: (c, '\0'),
                    source_len: 1,
                    source_index: src,
                    prosody: Prosody::Contour { curve, word_index, word_count, accent: stressed },
                },
            );
            if !last_char_was_vowel {
                current_syllable += 1;
            }
            last_char_was_vowel = true;
            wi += 1;
            assert(out@ + pt_word(
                lower@,
                wi as int,
                current_syllable as int,
                last_char_was_vowel,
                stressed_syllable as int,
                start as int,
                word_index as int,
                word_count as int,
                curve,
            ) =~= before + rest);
            continue;
        }
        let base = pt_consonant_class(c);
        if let Some(base_class) = base {
            let mut cc = base_class;
            if c == 'c' && wi + 1 < lower.len() {
                let n = lower[wi + 1];
                if n == 'e' || n == 'i' {
                    cc = ConsonantClass::FricativeUnvoiced;
                }
            }
            if c == 'r' && (wi == 0 || !pt_is_vowel(lower[wi - 1])) {
                cc = ConsonantClass::Trill;
            }
            if c == 's' && wi > 0 && wi + 1 < lower.len() {
                if pt_is_vowel(lower[wi - 1]) && pt_is_vowel(lower[wi + 1]) {
                    cc = ConsonantClass::FricativeVoiced;
                }
            }
            assert(Some(cc) == pt_consonant(lower@, wi as int));
            out.push(
                Phoneme {
                    ty: PhonemeType::Consonant,
                    formants: None,
                    consonant: Some(cc),
                    duration_milli: 500,
                    stressed,
                    source_chars: (c, '\0'),
                    source_len: 1,
                    source_index: src,
                    prosody: Prosody::Contour { curve, word_index, word_count, accent: false },
                },
            );
            last_char_was_vowel = false;
            wi += 1;
            assert(out@ + pt_word(
                lower@,
                wi as int,
                current_syllable as int,
                last_char_was_vowel,
                stressed_syllable as int,
                start as int,
                word_index as int,
                word_count as int,
                curve,
            ) =~= before + rest);
            continue;
        }
        out.push(Phoneme::pause(src, 150));
        last_char_was_vowel = false;
        wi += 1;
        assert(out@ + pt_word(
            lower@,
            wi as int,
            current_syllable as int,
            last_char_was_vowel,
            stressed_syllable as int,
            start as int,
            word_index as int,
            word_count as int,
            curve,
        ) =~= before + rest);
    }
}

fn text_to_phonemes_portuguese(text: &str) -> (out: Vec<Phoneme>)
    ensures
        out@ == portuguese_phonemes(text@),
{
    let chars = chars_of(text);
    let trimmed = trim_end(&chars);
    let is_question = trimmed.len() > 0 && trimmed[trimmed.len() - 1] == '?';
    let curve = if is_question {
        PitchCurve::PortugueseRise
    } else {
        PitchCurve::PortugueseDecline
    };
    let wc = count_words(&chars, Language::Portuguese);
    let ghost total = portuguese_phonemes(text@);
    let mut out: Vec<Phoneme> = Vec::new();
    let mut i: usize = 0;
    let mut word_idx: usize = 0;
    while i < chars.len()
        invariant
            chars@ == text@,
            i <= chars@.len(),
            word_idx <= i,
            wc == word_count(chars@, Language::Portuguese),
            out@ + pt_text(chars@, i as int, word_idx as int, wc as int, curve) == total,
        decreases chars.len() - i,
    {
        let ghost before = out@;
        let ch = chars[i];
        if is_whitespace(ch) {
            out.push(Phoneme::pause(i, 400));
            i += 1;
            assert(out@ + pt_text(chars@, i as int, word_idx as int, wc as int, curve) =~= before
                + pt_text(chars@, i - 1, word_idx as int, wc as int, curve));
            continue;
        }
        if is_punct_pause(ch) {
            out.push(Phoneme::pause(i, 800));
            i += 1;
            assert(out@ + pt_text(chars@, i as int, word_idx as int, wc as int, curve) =~= before
                + pt_text(chars@, i - 1, word_idx as int, wc as int, curve));
            continue;
        }
        if is_sentence_end(ch) {
            out.push(
                Phoneme::pause(
                    i,
                    if ch == '.' {
                        1200
                    } else {
                        1500
                    },
                ),
            );
            out.push(Phoneme::breath(i));
            i += 1;
            assert(out@ + pt_text(chars@, i as int, word_idx as int, wc as int, curve) =~= before
                + pt_text(chars@, i - 1, word_idx as int, wc as int, curve));
            continue;
        }
        if is_alphabetic(ch) {
            let start = i;
            proof {
                lemma_run_end(chars@, start as int, Language::Portuguese);
            }
            while i < chars.len() && is_alphabetic(chars[i])
                invariant
                    start <= i <= chars@.len(),
                    run_end(chars@, start as int, Language::Portuguese) == run_end(
                        chars@,
                        i as int,
                        Language::Portuguese,
                    ),
                decreases chars.len() - i,
            {
                i += 1;
            }
            let word = sub_chars(&chars, start, i);
            let lower = to_lowercase_chars(&word);
            let syllable_count = count_pt_syllables(&lower);
            let stressed_syllable = pt_find_stressed_syllable(syllable_count);
            portuguese_word(&mut out, &lower, stressed_syllable, start, word_idx, wc, curve);
            out.push(Phoneme::pause(i, 250));
            word_idx += 1;
            assert(out@ + pt_text(chars@, i as int, word_idx as int, wc as int, curve) =~= before
                + pt_text(chars@, start as int, word_idx - 1, wc as int, curve));
            continue;
        }
        i += 1;
    }
    out
}

// ---------------------------------------------
// one stress per english word
// ---------------------------------------------

/// The number of stressed vowels among `ps`.
pub open spec fn stressed_vowels(ps: Seq<Phoneme>) -> nat
    decreases ps.len(),
{
    if ps.len() == 0 {
        0
    } else {
        stressed_vowels(ps.drop_last()) + if ps.last().ty == PhonemeType::Vowel
            && ps.last().stressed {
            1nat
        } else {
            0nat
        }
    }
}

proof fn lemma_stressed_vowels_concat(a: Seq<Phoneme>, b: Seq<Phoneme>)
    ensures
        stressed_vowels(a + b) == stressed_vowels(a) + stressed_vowels(b),
    decreases b.len(),
{
    if b.len() == 0 {
        assert(a + b =~= a);
    } else {
        lemma_stressed_vowels_concat(a, b.drop_last());
        assert((a + b).drop_last() =~= a + b.drop_last());
    }
}

proof fn lemma_head_stress(p: Phoneme, rest: Seq<Phoneme>)
    ensures
        stressed_vowels(seq![p] + rest) == stressed_vowels(rest) + if p.ty == PhonemeType::Vowel
            && p.stressed {
            1nat
        } else {
            0nat
        },
{
    lemma_stressed_vowels_concat(seq![p], rest);
    let one = seq![p];
    assert(one.drop_last() =~= Seq::<Phoneme>::empty());
    assert(stressed_vowels(Seq::<Phoneme>::empty()) == 0);
    assert(one.last() == p);
    assert(stressed_vowels(one) == stressed_vowels(one.drop_last()) + if p.ty == PhonemeType::Vowel
        && p.stressed {
        1nat
    } else {
        0nat
    });
}

proof fn lemma_en_word_stress(
    w: Seq<char>,
    wi: int,
    nucleus: int,
    stressed: int,
    start: int,
    word_index: int,
    wc: int,
)
    ensures
        stressed_vowels(en_word(w, wi, nucleus, stressed, start, word_index, wc)) <= if nucleus
            <= stressed {
            1nat
        } else {
            0nat
        },
    decreases w.len() - wi,
{
    if 0 <= wi < w.len() {
        let ps = en_word(w, wi, nucleus, stressed, start, word_index, wc);
        let two = wi + 1 < w.len();
        let st = nucleus == stressed;
        let src = char_index(start, wi);
        if two && english_vowel_formants_spec(w.subrange(wi, wi + 2)) is Some {
            let rest = en_word(w, wi + 2, nucleus + 1, stressed, start, word_index, wc);
            lemma_en_word_stress(w, wi + 2, nucleus + 1, stressed, start, word_index, wc);
            let p = Phoneme {
                ty: PhonemeType::Vowel,
                formants: english_vowel_formants_spec(w.subrange(wi, wi + 2)),
                consonant: None,
                duration_milli: if st { 1250 } else { 950 },
                stressed: st,
                source_chars: (w[wi], w[wi + 1]),
                source_len: 2,
                source_index: src,
                prosody: en_contour(word_index, wc, st),
            };
            assert(ps == seq![p] + rest);
            lemma_head_stress(p, rest);
        } else if two && english_digraph_consonant_spec(w.subrange(wi, wi + 2)) is Some {
            let rest = en_word(w, wi + 2, nucleus, stressed, start, word_index, wc);
            lemma_en_word_stress(w, wi + 2, nucleus, stressed, start, word_index, wc);
            let p = Phoneme {
                ty: PhonemeType::Consonant,
                formants: None,
                consonant: english_digraph_consonant_spec(w.subrange(wi, wi + 2)),
                duration_milli: 550,
                stressed: st,
                source_chars: (w[wi], w[wi + 1]),
                source_len: 2,
                source_index: src,
                prosody: en_contour(word_index, wc, false),
            };
            assert(ps == seq![p] + rest);
            lemma_head_stress(p, rest);
        } else if english_vowel_formants_spec(seq![w[wi]]) is Some {
            let rest = en_word(w, wi + 1, nucleus + 1, stressed, start, word_index, wc);
            lemma_en_word_stress(w, wi + 1, nucleus + 1, stressed, start, word_index, wc);
            let p = Phoneme {
                ty: PhonemeType::Vowel,
                formants: english_vowel_formants_spec(seq![w[wi]]),
                consonant: None,
                duration_milli: if st { 1150 } else { 900 },
                stressed: st,
                source_chars: (w[wi], '\0'),
                source_len: 1,
                source_index: src,
                prosody: en_contour(word_index, wc, st),
            };
            assert(ps == seq![p] + rest);
            lemma_head_stress(p, rest);
        } else if en_consonant(w, wi) is Some {
            let rest = en_word(w, wi + 1, nucleus, stressed, start, word_index, wc);
            lemma_en_word_stress(w, wi + 1, nucleus, stressed, start, word_index, wc);
            let p = Phoneme {
                ty: PhonemeType::Consonant,
                formants: None,
                consonant: en_consonant(w, wi),
                duration_milli: 500,
                stressed: st,
                source_chars: (w[wi], '\0'),
                source_len: 1,
                source_index: src,
                prosody: en_contour(word_index, wc, false),
            };
            assert(ps == seq![p] + rest);
            lemma_head_stress(p, rest);
        } else {
            let rest = en_word(w, wi + 1, nucleus, stressed, start, word_index, wc);
            lemma_en_word_stress(w, wi + 1, nucleus, stressed, start, word_index, wc);
            assert(ps == seq![pause_spec(src, 120)] + rest);
            lemma_head_stress(pause_spec(src, 120), rest);
        }
    }
}

/// In an english word, a `c` or `g` reached by the reader right before `e`, `i` or
/// `y` is soft: `c` reads as an unvoiced fricative (/s/), `g` as a voiced one (/dʒ/);
/// one before any other letter or at the end keeps its hard sound.
pub proof fn law_english_soft_c_and_g(
    w: Seq<char>,
    wi: int,
    nucleus: int,
    stressed: int,
    start: int,
    word_index: int,
    wc: int,
)
    requires
        0 <= wi < w.len(),
        w[wi] == 'c' || w[wi] == 'g',
    ensures
        ({
            let p = en_word(w, wi, nucleus, stressed, start, word_index, wc)[0];
            let soft = wi + 1 < w.len() && (w[wi + 1] == 'e' || w[wi + 1] == 'i' || w[wi + 1] == 'y');
            &&& soft ==> p.ty == PhonemeType::Consonant && p.consonant == Some(
                if w[wi] == 'c' {
                    ConsonantClass::FricativeUnvoiced
                } else {
                    ConsonantClass::FricativeVoiced
                },
            )
            &&& (!soft && !(wi + 1 < w.len() && w[wi] == 'c' && w[wi + 1] == 'h')) ==> p.ty
                == PhonemeType::Consonant && p.consonant == Some(
                if w[wi] == 'c' {
                    ConsonantClass::PlosiveUnvoiced
                } else {
                    ConsonantClass::PlosiveVoiced
                },
            )
            &&& p.source_len == 1 || (wi + 1 < w.len() && w[wi] == 'c' && w[wi + 1] == 'h')
        }),
{
    if wi + 1 < w.len() {
        let t = w.subrange(wi, wi + 2);
        assert(t[0] == w[wi] && t[1] == w[wi + 1]);
    }
    assert(seq![w[wi]][0] == w[wi]);
}

/// In a portuguese word, an `s` reached by the reader between two vowels is voiced
/// (/z/); an `s` at the start of the word, or after a consonant, before a vowel
/// stays unvoiced.
pub proof fn law_portuguese_voiced_s(
    w: Seq<char>,
    wi: int,
    cur: int,
    last_vowel: bool,
    stressed: int,
    start: int,
    word_index: int,
    wc: int,
    curve: PitchCurve,
)
    requires
        0 <= wi,
        wi + 1 < w.len(),
        w[wi] == 's',
        pt_is_vowel_spec(w[wi + 1]),
    ensures
        ({
            let p = pt_word(w, wi, cur, last_vowel, stressed, start, word_index, wc, curve)[0];
            &&& p.ty == PhonemeType::Consonant
            &&& (wi > 0 && pt_is_vowel_spec(w[wi - 1])) ==> p.consonant == Some(
                ConsonantClass::FricativeVoiced,
            )
            &&& !(wi > 0 && pt_is_vowel_spec(w[wi - 1])) ==> p.consonant == Some(
                ConsonantClass::FricativeUnvoiced,
            )
        }),
{
}

/// An english word carries at most one stressed vowel.
pub proof fn law_one_stressed_vowel_per_word(
    w: Seq<char>,
    stressed: int,
    start: int,
    word_index: int,
    wc: int,
)
    ensures
        stressed_vowels(en_word(w, 0, 0, stressed, start, word_index, wc)) <= 1,
{
    lemma_en_word_stress(w, 0, 0, stressed, start, word_index, wc);
}

} // verus!
