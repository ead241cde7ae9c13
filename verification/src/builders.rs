//! The generator of random passwords.

use crate::charset::{
    class_count, covers_all_classes, lemma_class_count_empty, lemma_class_count_permutation,
    lemma_class_count_push, one_if, CharClass,
};
use crate::error::Error;
use crate::length::{Allocation, PasswordLengths};
use crate::password::Password;
use crate::random::{coin, shuffle, uniform};
use crate::text::string_from_chars;
use vstd::prelude::*;

verus! {

/// The shortest and the longest password that a builder makes.
pub struct LengthRange {
    pub min: nat,
    pub max: nat,
}

/// A text with exactly the characters that `allocation` asks for: so many of
/// each class, and no others.
pub open spec fn generated_from(text: Seq<char>, allocation: Allocation) -> bool {
    &&& class_count(text, CharClass::Lower) == allocation.lower
    &&& class_count(text, CharClass::Upper) == allocation.upper
    &&& class_count(text, CharClass::Punctuation) == allocation.punctuation
    &&& class_count(text, CharClass::Digit) == allocation.numbers
    &&& text.len() == allocation.total()
}

/// Makes random passwords whose length lies between two bounds.
#[derive(Debug, Clone, Copy, PartialEq, Eq)]
pub struct PasswordBuilder {
    min_length: u8,
    max_length: u8,
}

impl View for PasswordBuilder {
    type V = LengthRange;

    closed spec fn view(&self) -> LengthRange {
        LengthRange { min: self.min_length as nat, max: self.max_length as nat }
    }
}

impl Default for PasswordBuilder {
    /// The builder of passwords of 8 to 16 characters.
    fn default() -> (builder: PasswordBuilder)
        ensures
            builder@ == (LengthRange { min: 8, max: 16 }),
    {
        PasswordBuilder { min_length: 8, max_length: 16 }
    }
}

impl PasswordBuilder {
    #[verifier::type_invariant]
    spec fn well_formed(self) -> bool {
        1 <= self.min_length <= self.max_length
    }

    /// The builder of passwords of 8 to 16 characters.
    pub fn new() -> (builder: PasswordBuilder)
        ensures
            builder@ == (LengthRange { min: 8, max: 16 }),
    {
        PasswordBuilder { min_length: 8, max_length: 16 }
    }

    /// The same builder with another minimum, which must be at least one and
    /// at most the maximum.
    pub fn min_length(self, min_length: u8) -> (changed: Result<PasswordBuilder, Error>)
        ensures
            1 <= min_length <= self@.max ==> changed is Ok && changed->Ok_0@ == (LengthRange {
                min: min_length as nat,
                max: self@.max,
            }),
            !(1 <= min_length <= self@.max) ==> changed == Err::<PasswordBuilder, Error>(
                Error::InvalidParameter,
            ),
    {
        if min_length < 1 || min_length > self.max_length {
            return Err(Error::InvalidParameter);
        }
        Ok(PasswordBuilder { min_length, max_length: self.max_length })
    }

    /// The same builder with another maximum, which must be at least the
    /// minimum.
    pub fn max_length(self, max_length: u8) -> (changed: Result<PasswordBuilder, Error>)
        ensures
            self@.min <= max_length ==> changed is Ok && changed->Ok_0@ == (LengthRange {
                min: self@.min,
                max: max_length as nat,
            }),
            self@.min > max_length ==> changed == Err::<PasswordBuilder, Error>(
                Error::InvalidParameter,
            ),
    {
        proof {
            use_type_invariant(self);
        }
        if self.min_length > max_length {
            return Err(Error::InvalidParameter);
        }
        Ok(PasswordBuilder { min_length: self.min_length, max_length })
    }

    /// A random password under the given name.
    ///
    /// Its length lies between the builder's bounds, and it holds at least
    /// one character of every class. A length below four cannot do that: the
    /// builder fails when it draws one.
    pub fn build(&self, name: String) -> (made: Result<Password, Error>)
        ensures
            match made {
                Ok(password) => {
                    &&& password@.name == name@
                    &&& self@.min <= password@.value.len() <= self@.max
                    &&& covers_all_classes(password@.value)
                },
                Err(Error::InvalidParameter) => self@.min < 4,
                Err(Error::Internal) => self@.max >= 6,
                Err(_) => false,
            },
    {
        match self.build_secure_password() {
            Ok(value) => Ok(Password::new(name, value)),
            Err(error) => Err(error),
        }
    }

    /// A random secret: what `build` makes, without a name.
    pub fn build_secure_password(&self) -> (made: Result<String, Error>)
        ensures
            match made {
                Ok(value) => self@.min <= value@.len() <= self@.max && covers_all_classes(value@),
                Err(Error::InvalidParameter) => self@.min < 4,
                Err(Error::Internal) => self@.max >= 6,
                Err(_) => false,
            },
    {
        match self.gen_password_lengths() {
            Ok(lengths) => Ok(self.gen_password_from_lengths(lengths)),
            Err(error) => Err(error),
        }
    }

    /// The bounds between which the length of a password is drawn, both
    /// included: the builder's minimum and maximum.
    pub fn length_bounds(&self) -> (bounds: (u8, u8))
        ensures
            bounds.0 == self@.min,
            bounds.1 == self@.max,
            bounds.0 <= bounds.1,
    {
        proof {
            use_type_invariant(self);
        }
        (self.min_length, self.max_length)
    }

    /// Draws a length between the bounds that `length_bounds` gives and
    /// splits it among the classes.
    pub fn gen_password_lengths(&self) -> (made: Result<PasswordLengths, Error>)
        ensures
            match made {
                Ok(lengths) => lengths@.positive() && self@.min <= lengths@.total() <= self@.max,
                Err(Error::InvalidParameter) => self@.min < 4,
                Err(Error::Internal) => self@.max >= 6,
                Err(_) => false,
            },
    {
        let (shortest, longest): (u8, u8) = self.length_bounds();
        let mut rng = rand::thread_rng();
        let total_length: u8 = uniform(&mut rng, shortest, longest);
        PasswordLengths::new(total_length)
    }

    /// A random text with as many characters of each class as `password_lengths`
    /// says, in random order.
    pub fn gen_password_from_lengths(&self, password_lengths: PasswordLengths) -> (value: String)
        ensures
            generated_from(value@, password_lengths@),
            password_lengths@.positive() ==> covers_all_classes(value@),
    {
        let lower: u8 = password_lengths.lower();
        let upper: u8 = password_lengths.upper();
        let punctuation: u8 = password_lengths.punctuation();
        let numbers: u8 = password_lengths.numbers();
        let total: u8 = password_lengths.total_length();
        let mut password_characters: Vec<char> = Vec::new();
        proof {
            lemma_class_count_empty(CharClass::Lower);
            lemma_class_count_empty(CharClass::Upper);
            lemma_class_count_empty(CharClass::Punctuation);
            lemma_class_count_empty(CharClass::Digit);
        }
        let mut made: u8 = 0;
        while made < lower
            invariant
                made <= lower,
                password_characters@.len() == made,
                class_count(password_characters@, CharClass::Lower) == made,
                class_count(password_characters@, CharClass::Upper) == 0,
                class_count(password_characters@, CharClass::Punctuation) == 0,
                class_count(password_characters@, CharClass::Digit) == 0,
            decreases lower - made,
        {
            let c: char = self.gen_lowercase_letter();
            proof {
                lemma_push_counts(password_characters@, c);
            }
            password_characters.push(c);
            made = made + 1;
        }
        made = 0;
        while made < upper
            invariant
                made <= upper,
                password_characters@.len() == lower + made,
                class_count(password_characters@, CharClass::Lower) == lower,
                class_count(password_characters@, CharClass::Upper) == made,
                class_count(password_characters@, CharClass::Punctuation) == 0,
                class_count(password_characters@, CharClass::Digit) == 0,
            decreases upper - made,
        {
            let c: char = self.gen_uppercase_letter();
            proof {
                lemma_push_counts(password_characters@, c);
            }
            password_characters.push(c);
            made = made + 1;
        }
        made = 0;
        while made < punctuation
            invariant
                made <= punctuation,
                password_characters@.len() == lower + upper + made,
                class_count(password_characters@, CharClass::Lower) == lower,
                class_count(password_characters@, CharClass::Upper) == upper,
                class_count(password_characters@, CharClass::Punctuation) == made,
                class_count(password_characters@, CharClass::Digit) == 0,
            decreases punctuation - made,
        {
            let c: char = self.gen_punctuation();
            proof {
                lemma_push_counts(password_characters@, c);
            }
            password_characters.push(c);
            made = made + 1;
        }
        made = 0;
        while made < numbers
            invariant
                made <= numbers,
                password_characters@.len() == lower + upper + punctuation + made,
                class_count(password_characters@, CharClass::Lower) == lower,
                class_count(password_characters@, CharClass::Upper) == upper,
                class_count(password_characters@, CharClass::Punctuation) == punctuation,
                class_count(password_characters@, CharClass::Digit) == made,
            decreases numbers - made,
        {
            let c: char = self.gen_digit();
            proof {
                lemma_push_counts(password_characters@, c);
            }
            password_characters.push(c);
            made = made + 1;
        }
        let ghost in_blocks = password_characters@;
        let mut rng = rand::thread_rng();
        shuffle(&mut rng, &mut password_characters);
        proof {
            in_blocks.to_multiset_ensures();
            password_characters@.to_multiset_ensures();
            lemma_class_count_permutation(in_blocks, password_characters@, CharClass::Lower);
            lemma_class_count_permutation(in_blocks, password_characters@, CharClass::Upper);
            lemma_class_count_permutation(in_blocks, password_characters@, CharClass::Punctuation);
            lemma_class_count_permutation(in_blocks, password_characters@, CharClass::Digit);
        }
        string_from_chars(password_characters)
    }

    /// A random lowercase letter.
    pub fn gen_lowercase_letter(&self) -> (c: char)
        ensures
            CharClass::Lower.holds(c),
    {
        let mut rng = rand::thread_rng();
        let unicode_scalar_value: u8 = uniform(&mut rng, 97, 122);
        unicode_scalar_value as char
    }

    /// A random uppercase letter.
    pub fn gen_uppercase_letter(&self) -> (c: char)
        ensures
            CharClass::Upper.holds(c),
    {
        let mut rng = rand::thread_rng();
        let unicode_scalar_value: u8 = uniform(&mut rng, 65, 90);
        unicode_scalar_value as char
    }

    /// A random punctuation mark, from one of the two ranges of the class.
    pub fn gen_punctuation(&self) -> (c: char)
        ensures
            CharClass::Punctuation.holds(c),
    {
        let mut rng = rand::thread_rng();
        let unicode_scalar_value: u8 = if coin(&mut rng) {
            uniform(&mut rng, 33, 47)
        } else {
            uniform(&mut rng, 58, 64)
        };
        unicode_scalar_value as char
    }

    /// A random digit.
    pub fn gen_digit(&self) -> (c: char)
        ensures
            CharClass::Digit.holds(c),
    {
        let mut rng = rand::thread_rng();
        let unicode_scalar_value: u8 = uniform(&mut rng, 48, 57);
        unicode_scalar_value as char
    }
}

/// What one more character does to the four counts of a text.
proof fn lemma_push_counts(text: Seq<char>, c: char)
    ensures
        class_count(text.push(c), CharClass::Lower) == class_count(text, CharClass::Lower)
            + one_if(CharClass::Lower.holds(c)),
        class_count(text.push(c), CharClass::Upper) == class_count(text, CharClass::Upper)
            + one_if(CharClass::Upper.holds(c)),
        class_count(text.push(c), CharClass::Punctuation) == class_count(
            text,
            CharClass::Punctuation,
        ) + one_if(CharClass::Punctuation.holds(c)),
        class_count(text.push(c), CharClass::Digit) == class_count(text, CharClass::Digit)
            + one_if(CharClass::Digit.holds(c)),
{
    lemma_class_count_push(text, c, CharClass::Lower);
    lemma_class_count_push(text, c, CharClass::Upper);
    lemma_class_count_push(text, c, CharClass::Punctuation);
    lemma_class_count_push(text, c, CharClass::Digit);
}

} // verus!
