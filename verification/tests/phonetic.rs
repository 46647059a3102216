use feverish::phonetic::{
    english_consonant_class, english_digraph_consonant, english_stress_vowel_index,
    is_punct_pause, is_sentence_end, is_vowel_basic, pt_consonant_class, pt_digraph,
    pt_find_stressed_syllable, pt_is_vowel, ConsonantClass, Formants, Language, PhonemeType,
    PhoneticMapper, PitchCurve, Prosody,
};

#[test]
fn punctuation_classes() {
    assert!(is_sentence_end('.'));
    assert!(is_sentence_end('!'));
    assert!(is_sentence_end('?'));
    assert!(!is_sentence_end(','));
    assert!(is_punct_pause(','));
    assert!(is_punct_pause(';'));
    assert!(is_punct_pause(':'));
    assert!(!is_punct_pause('.'));
}

#[test]
fn basic_vowels() {
    for c in ['a', 'e', 'i', 'o', 'u', 'y'] {
        assert!(is_vowel_basic(c));
    }
    assert!(!is_vowel_basic('b'));
    assert!(!is_vowel_basic('A'));
}

#[test]
fn english_digraphs() {
    assert_eq!(english_digraph_consonant(&['t', 'h']), Some(ConsonantClass::FricativeUnvoiced));
    assert_eq!(english_digraph_consonant(&['s', 'h']), Some(ConsonantClass::FricativeUnvoiced));
    assert_eq!(english_digraph_consonant(&['c', 'h']), Some(ConsonantClass::Affricate));
    assert_eq!(english_digraph_consonant(&['p', 'h']), Some(ConsonantClass::FricativeUnvoiced));
    assert_eq!(english_digraph_consonant(&['n', 'g']), Some(ConsonantClass::Nasal));
    assert_eq!(english_digraph_consonant(&['w', 'h']), Some(ConsonantClass::FricativeUnvoiced));
    assert_eq!(english_digraph_consonant(&['k', 'h']), None);
    assert_eq!(english_digraph_consonant(&['s']), None);
}

#[test]
fn english_consonants() {
    assert_eq!(english_consonant_class('b'), Some(ConsonantClass::PlosiveVoiced));
    assert_eq!(english_consonant_class('q'), Some(ConsonantClass::PlosiveUnvoiced));
    assert_eq!(english_consonant_class('h'), Some(ConsonantClass::FricativeUnvoiced));
    assert_eq!(english_consonant_class('j'), Some(ConsonantClass::FricativeVoiced));
    assert_eq!(english_consonant_class('n'), Some(ConsonantClass::Nasal));
    assert_eq!(english_consonant_class('l'), Some(ConsonantClass::Lateral));
    assert_eq!(english_consonant_class('w'), Some(ConsonantClass::Liquid));
    assert_eq!(english_consonant_class('a'), None);
}

#[test]
fn english_stress_choice() {
    assert_eq!(english_stress_vowel_index(&[]), 0);
    assert_eq!(english_stress_vowel_index(&[4]), 0);
    assert_eq!(english_stress_vowel_index(&[1, 3]), 0);
    assert_eq!(english_stress_vowel_index(&[1, 4, 7]), 1);
    assert_eq!(english_stress_vowel_index(&[0, 5]), 0);
}

#[test]
fn portuguese_tables() {
    assert!(pt_is_vowel('õ'));
    assert!(pt_is_vowel('á'));
    assert!(!pt_is_vowel('y'));
    assert_eq!(pt_consonant_class('ç'), Some(ConsonantClass::FricativeUnvoiced));
    assert_eq!(pt_consonant_class('r'), Some(ConsonantClass::Tap));
    assert_eq!(pt_consonant_class('y'), Some(ConsonantClass::Liquid));
    assert_eq!(pt_consonant_class('a'), None);
    assert_eq!(pt_digraph('l', 'h'), Some(ConsonantClass::Lateral));
    assert_eq!(pt_digraph('r', 'r'), Some(ConsonantClass::Trill));
    assert_eq!(pt_digraph('q', 'u'), Some(ConsonantClass::PlosiveUnvoiced));
    assert_eq!(pt_digraph('a', 'b'), None);
}

#[test]
fn portuguese_stress() {
    assert_eq!(pt_find_stressed_syllable(0), 0);
    assert_eq!(pt_find_stressed_syllable(1), 0);
    assert_eq!(pt_find_stressed_syllable(2), 0);
    assert_eq!(pt_find_stressed_syllable(3), 1);
    assert_eq!(pt_find_stressed_syllable(5), 3);
}

#[test]
fn english_word_ba() {
    let mut mapper = PhoneticMapper::default();
    let p = mapper.text_to_phonemes("ba", Language::English);
    assert_eq!(p.len(), 3);

    assert_eq!(p[0].ty, PhonemeType::Consonant);
    assert_eq!(p[0].consonant, Some(ConsonantClass::PlosiveVoiced));
    assert_eq!(p[0].duration_milli, 500);
    assert!(p[0].stressed);
    assert_eq!(p[0].source_chars, ('b', '\0'));
    assert_eq!(p[0].source_len, 1);
    assert_eq!(p[0].source_index, 0);
    assert_eq!(
        p[0].prosody,
        Prosody::Contour { curve: PitchCurve::EnglishDecline, word_index: 0, word_count: 1, accent: false }
    );

    assert_eq!(p[1].ty, PhonemeType::Vowel);
    assert_eq!(p[1].formants, Some(Formants { f1: 800, f2: 1400, f3: 2500 }));
    assert_eq!(p[1].duration_milli, 1150);
    assert!(p[1].stressed);
    assert_eq!(p[1].source_index, 1);
    assert_eq!(
        p[1].prosody,
        Prosody::Contour { curve: PitchCurve::EnglishDecline, word_index: 0, word_count: 1, accent: true }
    );

    assert_eq!(p[2].ty, PhonemeType::Pause);
    assert_eq!(p[2].duration_milli, 250);
    assert_eq!(p[2].source_index, 2);
    assert_eq!(p[2].prosody, Prosody::Level);
}

#[test]
fn english_punctuation_pauses() {
    let mut mapper = PhoneticMapper::default();
    let p = mapper.text_to_phonemes(" ,.", Language::English);
    assert_eq!(p.len(), 4);
    assert_eq!((p[0].ty, p[0].duration_milli, p[0].source_index), (PhonemeType::Pause, 350, 0));
    assert_eq!((p[1].ty, p[1].duration_milli, p[1].source_index), (PhonemeType::Pause, 750, 1));
    assert_eq!((p[2].ty, p[2].duration_milli, p[2].source_index), (PhonemeType::Pause, 1250, 2));
    assert_eq!((p[3].ty, p[3].duration_milli, p[3].source_index), (PhonemeType::Breath, 800, 2));
}

#[test]
fn english_vowel_digraph_and_soft_c() {
    let mut mapper = PhoneticMapper::default();
    let p = mapper.text_to_phonemes("see ce", Language::English);
    // "see": s, ee, gap; " " pause; "ce": soft c, e, gap
    assert_eq!(p.len(), 7);
    assert_eq!(p[0].consonant, Some(ConsonantClass::FricativeUnvoiced));
    assert_eq!(p[1].ty, PhonemeType::Vowel);
    assert_eq!(p[1].formants, Some(Formants { f1: 300, f2: 2600, f3: 3400 }));
    assert_eq!(p[1].source_chars, ('e', 'e'));
    assert_eq!(p[1].source_len, 2);
    assert_eq!(p[1].duration_milli, 1250);
    assert_eq!(p[2].ty, PhonemeType::Pause);
    assert_eq!(p[2].duration_milli, 250);
    assert_eq!(p[3].ty, PhonemeType::Pause);
    assert_eq!(p[3].duration_milli, 350);
    assert_eq!(p[4].consonant, Some(ConsonantClass::FricativeUnvoiced));
    assert_eq!(p[4].source_index, 4);
    assert_eq!(
        p[5].prosody,
        Prosody::Contour { curve: PitchCurve::EnglishDecline, word_index: 1, word_count: 2, accent: true }
    );
}

#[test]
fn portuguese_question_rises() {
    let mut mapper = PhoneticMapper::default();
    let p = mapper.text_to_phonemes("sa?", Language::Portuguese);
    // s, a, word gap, pause(1500), breath
    assert_eq!(p.len(), 5);
    assert_eq!(p[0].consonant, Some(ConsonantClass::FricativeUnvoiced));
    assert_eq!(p[1].ty, PhonemeType::Vowel);
    assert_eq!(p[1].duration_milli, 1200);
    assert!(p[1].stressed);
    assert_eq!(
        p[1].prosody,
        Prosody::Contour { curve: PitchCurve::PortugueseRise, word_index: 0, word_count: 1, accent: true }
    );
    assert_eq!((p[2].ty, p[2].duration_milli), (PhonemeType::Pause, 250));
    assert_eq!((p[3].ty, p[3].duration_milli), (PhonemeType::Pause, 1500));
    assert_eq!(p[4].ty, PhonemeType::Breath);
}

#[test]
fn one_stressed_vowel_per_english_word() {
    let mut mapper = PhoneticMapper::default();
    for word in ["banana", "beautiful", "rhythm", "queue", "strengths", "a"] {
        let p = mapper.text_to_phonemes(word, Language::English);
        let stressed = p.iter().filter(|x| x.ty == PhonemeType::Vowel && x.stressed).count();
        assert!(stressed <= 1, "{word}");
    }
    let p = mapper.text_to_phonemes("banana", Language::English);
    let stressed: Vec<usize> = p
        .iter()
        .filter(|x| x.ty == PhonemeType::Vowel && x.stressed)
        .map(|x| x.source_index)
        .collect();
    // nuclei at 1, 3, 5; the last starts after the fourth letter: the penultimate is stressed
    assert_eq!(stressed, vec![3]);
}
