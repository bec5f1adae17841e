use pass::{AnalyzedPassphrase, DecryptedPassword, PassphraseGenerator, StoreError};

#[test]
fn analysis_counts_kinds_of_characters() {
    let a = AnalyzedPassphrase::new("Ab1 !é\t");
    assert_eq!(a.length(), 6);
    assert_eq!(a.uppercase_letters_count(), 1);
    assert_eq!(a.lowercase_letters_count(), 1);
    assert_eq!(a.numbers_count(), 1);
    assert_eq!(a.space_count(), 1);
    assert_eq!(a.symbols_count(), 1);
    assert_eq!(a.other_characters_count(), 1);
}

#[test]
fn analysis_counts_repetitions() {
    let a = AnalyzedPassphrase::new("aaab");
    assert_eq!(a.consecutive_count(), 3);
    assert_eq!(a.non_consecutive_count(), 0);
    let b = AnalyzedPassphrase::new("abab");
    assert_eq!(b.consecutive_count(), 0);
    assert_eq!(b.non_consecutive_count(), 4);
}

#[test]
fn passwords_analyse_their_passphrase() {
    let pw = DecryptedPassword::from_content("abc12\n", "/s/a.gpg".to_string());
    let a = pw.analyze_passphrase().unwrap();
    assert_eq!((a.length(), a.numbers_count()), (5, 2));
    assert!(DecryptedPassword::from_content("", "/s/a.gpg".to_string()).analyze_passphrase().is_none());
}

#[test]
fn default_generator_settings() {
    let g = PassphraseGenerator::new();
    assert_eq!(g.length, 8);
    assert!(g.numbers && g.lowercase_letters);
    assert!(!g.uppercase_letters && !g.symbols && !g.spaces && !g.exclude_similar_characters && !g.strict);
}

#[test]
fn generated_passphrases_fit_the_settings() {
    let g = PassphraseGenerator::new()
        .length(20)
        .uppercase_letters(true)
        .symbols(true)
        .exclude_similar_characters(true)
        .strict(true);
    let generated = g.generate(5).unwrap();
    let list = generated.passphrases();
    assert_eq!(list.len(), 5);
    for (i, (index, p)) in list.iter().enumerate() {
        assert_eq!(*index, i);
        assert_eq!(p.chars().count(), 20);
        assert!(p.chars().all(|c| c.is_ascii_graphic() && !"01ilIoO\"'`|".contains(c)));
        assert!(p.chars().any(|c| c.is_ascii_digit()));
        assert!(p.chars().any(|c| c.is_ascii_lowercase()));
        assert!(p.chars().any(|c| c.is_ascii_uppercase()));
        assert!(p.chars().any(|c| c.is_ascii_punctuation()));
    }
    let third = list[2].1.clone();
    assert_eq!(generated.select(2).unwrap(), third);
}

#[test]
fn selecting_a_missing_passphrase_fails() {
    let generated = PassphraseGenerator::new().generate(2).unwrap();
    match generated.select(2) {
        Err(StoreError::PassphraseIndex(2)) => {}
        other => panic!("unexpected {:?}", other),
    }
}

#[test]
fn refused_settings() {
    let cases = [
        (PassphraseGenerator::new().length(0), "The length of passwords cannot be 0."),
        (
            PassphraseGenerator::new().numbers(false).lowercase_letters(false),
            "You need to enable at least one kind of characters.",
        ),
        (
            PassphraseGenerator::new().length(2).uppercase_letters(true).strict(true),
            "The length of passwords is too short.",
        ),
    ];
    for (g, expected) in cases {
        match g.generate(1) {
            Err(StoreError::PassphraseGeneration(m)) => assert_eq!(m, expected),
            other => panic!("unexpected {:?}", other),
        }
    }
}
