//! The four classes of characters that a password draws from.

use crate::permutation::{lemma_weight_sum_permutation, lemma_weight_sum_push, weight_sum};
use vstd::prelude::*;

verus! {

/// A class of characters, given by its code points.
#[derive(Debug, Clone, Copy, PartialEq, Eq, Structural)]
pub enum CharClass {
    /// The lowercase letters, 97 to 122.
    Lower,
    /// The uppercase letters, 65 to 90.
    Upper,
    /// The punctuation marks, 33 to 47 and 58 to 64.
    Punctuation,
    /// The digits, 48 to 57.
    Digit,
}

impl CharClass {
    /// Whether `c` belongs to the class.
    pub open spec fn holds(self, c: char) -> bool {
        match self {
            CharClass::Lower => 97 <= c as u32 <= 122,
            CharClass::Upper => 65 <= c as u32 <= 90,
            CharClass::Punctuation => 33 <= c as u32 <= 47 || 58 <= c as u32 <= 64,
            CharClass::Digit => 48 <= c as u32 <= 57,
        }
    }

    /// Tells whether `c` belongs to the class.
    pub fn contains(&self, c: char) -> (inside: bool)
        ensures
            inside == self.holds(c),
    {
        let code: u32 = c as u32;
        match self {
            CharClass::Lower => 97 <= code && code <= 122,
            CharClass::Upper => 65 <= code && code <= 90,
            CharClass::Punctuation => (33 <= code && code <= 47) || (58 <= code && code <= 64),
            CharClass::Digit => 48 <= code && code <= 57,
        }
    }
}

/// One if the condition holds, else zero.
pub open spec fn one_if(condition: bool) -> int {
    if condition {
        1
    } else {
        0
    }
}

/// How many characters of `text` belong to `class`.
pub open spec fn class_count(text: Seq<char>, class: CharClass) -> int {
    weight_sum(text, |c: char| one_if(class.holds(c)))
}

/// Every class occurs in `text`, and `text` holds nothing else.
pub open spec fn covers_all_classes(text: Seq<char>) -> bool {
    &&& class_count(text, CharClass::Lower) >= 1
    &&& class_count(text, CharClass::Upper) >= 1
    &&& class_count(text, CharClass::Punctuation) >= 1
    &&& class_count(text, CharClass::Digit) >= 1
    &&& class_count(text, CharClass::Lower) + class_count(text, CharClass::Upper) + class_count(
        text,
        CharClass::Punctuation,
    ) + class_count(text, CharClass::Digit) == text.len()
}

/// The empty text has no character of any class.
pub proof fn lemma_class_count_empty(class: CharClass)
    ensures
        class_count(Seq::<char>::empty(), class) == 0,
{
}

/// One more character counts for its class, and for no other.
pub proof fn lemma_class_count_push(text: Seq<char>, c: char, class: CharClass)
    ensures
        class_count(text.push(c), class) == class_count(text, class) + one_if(class.holds(c)),
{
    lemma_weight_sum_push(text, |c: char| one_if(class.holds(c)), c);
}

/// The count of a class does not depend on the order of the characters.
pub proof fn lemma_class_count_permutation(left: Seq<char>, right: Seq<char>, class: CharClass)
    requires
        left.to_multiset() == right.to_multiset(),
    ensures
        class_count(left, class) == class_count(right, class),
{
    lemma_weight_sum_permutation(left, right, |c: char| one_if(class.holds(c)));
}

/// A class occurs in a text exactly when one of its characters does.
pub proof fn lemma_class_count_positive(text: Seq<char>, class: CharClass)
    ensures
        class_count(text, class) >= 0,
        class_count(text, class) >= 1 <==> exists|i: int|
            0 <= i < text.len() && class.holds(#[trigger] text[i]),
    decreases text.len(),
{
    if text.len() > 0 {
        let front = text.drop_last();
        lemma_class_count_positive(front, class);
        assert(text =~= front.push(text.last()));
        lemma_class_count_push(front, text.last(), class);
        if class_count(text, class) >= 1 {
            if class.holds(text.last()) {
                assert(class.holds(text[text.len() - 1]));
            } else {
                let i = choose|i: int| 0 <= i < front.len() && class.holds(#[trigger] front[i]);
                assert(class.holds(text[i]));
            }
        }
        if exists|i: int| 0 <= i < text.len() && class.holds(#[trigger] text[i]) {
            let i = choose|i: int| 0 <= i < text.len() && class.holds(#[trigger] text[i]);
            if i < front.len() {
                assert(class.holds(front[i]));
            }
        }
    }
}

} // verus!
