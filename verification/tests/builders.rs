use pwm::{CharClass, Error, Password, PasswordBuilder, PasswordLengths};

fn has_uppercase(password: &Password) -> bool {
    for character in password.value().chars() {
        if character.is_ascii_uppercase() {
            return true;
        }
    }
    false
}

fn has_lowercase(password: &Password) -> bool {
    for character in password.value().chars() {
        if character.is_ascii_lowercase() {
            return true;
        }
    }
    false
}

fn has_punctuation(password: &Password) -> bool {
    for character in password.value().chars() {
        if character.is_ascii_punctuation() {
            return true;
        }
    }
    false
}

fn has_numbers(password: &Password) -> bool {
    for character in password.value().chars() {
        if character.is_ascii_digit() {
            return true;
        }
    }
    false
}

fn count(text: &str, class: CharClass) -> usize {
    text.chars().filter(|c| class.contains(*c)).count()
}

#[test]
fn builder_secure_password() {
    let password_creator = PasswordBuilder::new().max_length(20).unwrap();
    let password = password_creator.build("test_password".to_string()).unwrap();
    assert!(has_lowercase(&password));
    assert!(has_uppercase(&password));
    assert!(has_punctuation(&password));
    assert!(has_numbers(&password));
    assert!(password.value().len() >= 8);
    assert!(password.value().len() < 50);
}

#[test]
fn builders_secure_password() {
    let password_creator = PasswordBuilder::new();
    let password = password_creator.build("test_password".to_string()).unwrap();
    assert!(has_lowercase(&password));
    assert!(has_uppercase(&password));
    assert!(has_punctuation(&password));
    assert!(has_numbers(&password));
    assert!(password.value().len() >= 8);
    assert!(password.value().len() <= 16);
}

#[test]
fn invalid_min_length() {
    assert_eq!(
        PasswordBuilder::new().min_length(0),
        Err(Error::InvalidParameter)
    );
    assert_eq!(
        PasswordBuilder::new().min_length(17),
        Err(Error::InvalidParameter)
    );
}

#[test]
fn invalid_max_length() {
    let password_creator = PasswordBuilder::new();
    assert_eq!(
        password_creator.clone().max_length(8 - 1),
        Err(Error::InvalidParameter)
    );
}

#[test]
fn bounds_can_meet() {
    let builder = PasswordBuilder::new().min_length(16).unwrap();
    for _ in 0..50 {
        let password = builder.build("exact".to_string()).unwrap();
        assert_eq!(password.value().len(), 16);
        assert_eq!(password.name(), "exact");
    }
    let builder = PasswordBuilder::new().max_length(8).unwrap();
    for _ in 0..50 {
        assert_eq!(builder.build_secure_password().unwrap().len(), 8);
    }
}

#[test]
fn build_keeps_to_the_bounds() {
    let builder = PasswordBuilder::new()
        .max_length(40)
        .unwrap()
        .min_length(30)
        .unwrap();
    let mut lengths_seen = std::collections::BTreeSet::new();
    for _ in 0..300 {
        let value = builder.build_secure_password().unwrap();
        assert!(value.len() >= 30 && value.len() <= 40);
        assert_eq!(value.chars().count(), value.len());
        lengths_seen.insert(value.len());
        let classes = count(&value, CharClass::Lower)
            + count(&value, CharClass::Upper)
            + count(&value, CharClass::Punctuation)
            + count(&value, CharClass::Digit);
        assert_eq!(classes, value.len());
        assert!(count(&value, CharClass::Lower) >= 1);
        assert!(count(&value, CharClass::Upper) >= 1);
        assert!(count(&value, CharClass::Punctuation) >= 1);
        assert!(count(&value, CharClass::Digit) >= 1);
    }
    assert!(lengths_seen.len() > 1);
}

#[test]
fn build_fails_on_a_length_below_four() {
    let builder = PasswordBuilder::new().min_length(1).unwrap().max_length(3).unwrap();
    for _ in 0..50 {
        assert_eq!(
            builder.build("short".to_string()),
            Err(Error::InvalidParameter)
        );
        assert_eq!(builder.gen_password_lengths(), Err(Error::InvalidParameter));
    }
}

#[test]
fn build_of_four_or_five_characters_never_fails() {
    let builder = PasswordBuilder::new().min_length(4).unwrap().max_length(5).unwrap();
    for _ in 0..200 {
        let value = builder.build_secure_password().unwrap();
        assert!(value.len() == 4 || value.len() == 5);
    }
}

#[test]
fn generated_text_has_the_counts_asked_for() {
    let builder = PasswordBuilder::new();
    let lengths = PasswordLengths::from_counts(3, 2, 4, 1).unwrap();
    for _ in 0..100 {
        let value = builder.gen_password_from_lengths(lengths);
        assert_eq!(value.len(), 10);
        assert_eq!(count(&value, CharClass::Lower), 3);
        assert_eq!(count(&value, CharClass::Upper), 2);
        assert_eq!(count(&value, CharClass::Punctuation), 4);
        assert_eq!(count(&value, CharClass::Digit), 1);
        assert_eq!(value.chars().filter(|c| c.is_ascii_lowercase()).count(), 3);
        assert_eq!(value.chars().filter(|c| c.is_ascii_uppercase()).count(), 2);
        assert_eq!(value.chars().filter(|c| c.is_ascii_punctuation()).count(), 4);
        assert_eq!(value.chars().filter(|c| c.is_ascii_digit()).count(), 1);
    }
}

#[test]
fn generated_text_is_shuffled() {
    let builder = PasswordBuilder::new();
    let lengths = PasswordLengths::from_counts(10, 10, 10, 10).unwrap();
    let mut out_of_blocks = false;
    for _ in 0..50 {
        let value = builder.gen_password_from_lengths(lengths);
        let in_blocks = value[0..10].chars().all(|c| c.is_ascii_lowercase())
            && value[10..20].chars().all(|c| c.is_ascii_uppercase())
            && value[20..30].chars().all(|c| c.is_ascii_punctuation())
            && value[30..40].chars().all(|c| c.is_ascii_digit());
        if !in_blocks {
            out_of_blocks = true;
        }
    }
    assert!(out_of_blocks);
}

#[test]
fn letters_and_digits_come_from_their_ranges() {
    let builder = PasswordBuilder::new();
    let mut lower = std::collections::BTreeSet::new();
    let mut upper = std::collections::BTreeSet::new();
    let mut digits = std::collections::BTreeSet::new();
    for _ in 0..2000 {
        let c = builder.gen_lowercase_letter();
        assert!(('a'..='z').contains(&c));
        lower.insert(c);
        let c = builder.gen_uppercase_letter();
        assert!(('A'..='Z').contains(&c));
        upper.insert(c);
        let c = builder.gen_digit();
        assert!(('0'..='9').contains(&c));
        digits.insert(c);
    }
    assert!(lower.len() > 1);
    assert!(upper.len() > 1);
    assert!(digits.len() > 1);
}

#[test]
fn punctuation_comes_from_both_ranges() {
    let builder = PasswordBuilder::new();
    let mut low_range = false;
    let mut high_range = false;
    for _ in 0..2000 {
        let code = builder.gen_punctuation() as u32;
        assert!((33..=47).contains(&code) || (58..=64).contains(&code));
        if code <= 47 {
            low_range = true;
        } else {
            high_range = true;
        }
    }
    assert!(low_range && high_range);
}

#[test]
fn classes_are_told_apart_by_code_point() {
    assert!(CharClass::Lower.contains('a') && CharClass::Lower.contains('z'));
    assert!(!CharClass::Lower.contains('`') && !CharClass::Lower.contains('{'));
    assert!(CharClass::Upper.contains('A') && CharClass::Upper.contains('Z'));
    assert!(!CharClass::Upper.contains('@') && !CharClass::Upper.contains('['));
    assert!(CharClass::Digit.contains('0') && CharClass::Digit.contains('9'));
    assert!(!CharClass::Digit.contains('/') && !CharClass::Digit.contains(':'));
    assert!(CharClass::Punctuation.contains('!') && CharClass::Punctuation.contains('/'));
    assert!(CharClass::Punctuation.contains(':') && CharClass::Punctuation.contains('@'));
    assert!(!CharClass::Punctuation.contains(' ') && !CharClass::Punctuation.contains('0'));
    assert!(!CharClass::Punctuation.contains('9') && !CharClass::Punctuation.contains('A'));
    assert!(!CharClass::Punctuation.contains('[') && !CharClass::Punctuation.contains('~'));
}

#[test]
fn the_length_is_drawn_between_the_minimum_and_the_maximum() {
    assert_eq!(PasswordBuilder::new().length_bounds(), (8, 16));
    let builder = PasswordBuilder::new().max_length(40).unwrap().min_length(30).unwrap();
    assert_eq!(builder.length_bounds(), (30, 40));
    let builder = PasswordBuilder::new().min_length(16).unwrap();
    assert_eq!(builder.length_bounds(), (16, 16));
}

#[test]
fn every_length_within_the_bounds_is_drawn() {
    let builder = PasswordBuilder::new();
    let mut seen = std::collections::BTreeSet::new();
    for _ in 0..2000 {
        seen.insert(builder.build_secure_password().unwrap().len());
    }
    assert_eq!(seen.into_iter().collect::<Vec<usize>>(), (8..=16).collect::<Vec<usize>>());
}
