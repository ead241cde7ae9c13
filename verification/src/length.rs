//! How many characters of each class a password gets.

use crate::error::Error;
use crate::permutation::{lemma_weight_sum_permutation, weight_sum};
use crate::random::{shuffle, uniform};
use vstd::prelude::*;

verus! {

/// How often the sampler may draw before it gives up.
pub const MAX_ATTEMPTS: u32 = 1000;

/// The four counts of a password, as mathematical integers.
pub struct Allocation {
    pub lower: nat,
    pub upper: nat,
    pub punctuation: nat,
    pub numbers: nat,
}

impl Allocation {
    /// The length of a password with these counts.
    pub open spec fn total(self) -> nat {
        self.lower + self.upper + self.punctuation + self.numbers
    }

    /// Every class gets at least one character.
    pub open spec fn positive(self) -> bool {
        self.lower >= 1 && self.upper >= 1 && self.punctuation >= 1 && self.numbers >= 1
    }
}

/// The sum of a list of counts.
pub open spec fn sum_of(counts: Seq<u8>) -> int {
    weight_sum(counts, |count: u8| count as int)
}

/// The counts that three draws leave for a password of `total_length`
/// characters: the draws themselves and what remains for the fourth class.
/// There are none when a draw is zero or nothing would remain.
pub open spec fn split_of(total_length: u8, first: u8, second: u8, third: u8) -> Option<Seq<u8>> {
    if first >= 1 && second >= 1 && third >= 1 && first + second + third < total_length {
        Some(seq![first, second, third, (total_length - first - second - third) as u8])
    } else {
        None
    }
}

/// The bounds between which the three counts of a password of
/// `total_length` characters are drawn: one, and what leaves a character for
/// each of the three other classes. A length below five leaves nothing to
/// draw.
pub open spec fn draw_bounds_of(total_length: u8) -> Option<(u8, u8)> {
    if total_length >= 5 {
        Some((1u8, (total_length - 4) as u8))
    } else {
        None
    }
}

/// Lengths for the different characters the password will need.
#[derive(Debug, Clone, Copy, PartialEq, Eq)]
pub struct PasswordLengths {
    /// Number of lowercase letters
    lower: u8,
    /// Number of uppercase letters
    upper: u8,
    /// Number of punctuation characters
    punctuation: u8,
    /// Number of numbers
    numbers: u8,
}

impl View for PasswordLengths {
    type V = Allocation;

    closed spec fn view(&self) -> Allocation {
        Allocation {
            lower: self.lower as nat,
            upper: self.upper as nat,
            punctuation: self.punctuation as nat,
            numbers: self.numbers as nat,
        }
    }
}

impl PasswordLengths {
    #[verifier::type_invariant]
    spec fn well_formed(self) -> bool {
        &&& self.lower >= 1
        &&& self.upper >= 1
        &&& self.punctuation >= 1
        &&& self.numbers >= 1
        &&& self.lower + self.upper + self.punctuation + self.numbers <= u8::MAX
    }

    /// Splits `total_length` at random into four positive counts, one for each
    /// class of characters.
    ///
    /// Three counts are drawn between the bounds that `draw_bounds` gives;
    /// the draw is repeated, up to `MAX_ATTEMPTS` times, until something
    /// remains for the fourth. The four counts are then handed to the
    /// classes in random order. A length of four leaves nothing to draw:
    /// each class gets one character.
    pub fn new(total_length: u8) -> (made: Result<PasswordLengths, Error>)
        ensures
            match made {
                Ok(lengths) => total_length >= 4 && lengths@.positive() && lengths@.total()
                    == total_length,
                Err(Error::InvalidParameter) => total_length < 4,
                Err(Error::Internal) => total_length >= 6,
                Err(_) => false,
            },
    {
        if total_length < 4 {
            return Err(Error::InvalidParameter);
        }
        let (low, high): (u8, u8) = match Self::draw_bounds(total_length) {
            Some(bounds) => bounds,
            None => {
                return Self::from_counts(1, 1, 1, 1);
            },
        };
        let mut rng = rand::thread_rng();
        let mut attempt: u32 = 0;
        while attempt < MAX_ATTEMPTS
            invariant
                draw_bounds_of(total_length) == Some((low, high)),
                attempt > 0 ==> total_length >= 6,
            decreases MAX_ATTEMPTS - attempt,
        {
            let first: u8 = uniform(&mut rng, low, high);
            let second: u8 = uniform(&mut rng, low, high);
            let third: u8 = uniform(&mut rng, low, high);
            match Self::split(total_length, first, second, third) {
                Some(mut counts) => {
                    let ghost drawn = counts@;
                    shuffle(&mut rng, &mut counts);
                    proof {
                        lemma_split_sum(total_length, first, second, third);
                        lemma_rearranged_counts(drawn, counts@);
                    }
                    return Self::from_counts(counts[0], counts[1], counts[2], counts[3]);
                },
                None => {},
            }
            attempt = attempt + 1;
        }
        Err(Error::Internal)
    }

    /// The bounds between which the three counts of a password of
    /// `total_length` characters are drawn, both included; none where the
    /// length leaves nothing to draw.
    pub fn draw_bounds(total_length: u8) -> (bounds: Option<(u8, u8)>)
        ensures
            bounds == draw_bounds_of(total_length),
    {
        if total_length >= 5 {
            Some((1, total_length - 4))
        } else {
            None
        }
    }

    /// Decides what three draws give for a password of `total_length`
    /// characters: the four counts, or nothing when the draws leave no
    /// character for the fourth class.
    pub fn split(total_length: u8, first: u8, second: u8, third: u8) -> (counts: Option<Vec<u8>>)
        ensures
            counts is Some <==> split_of(total_length, first, second, third) is Some,
            counts matches Some(list) ==> Some(list@) == split_of(
                total_length,
                first,
                second,
                third,
            ),
    {
        if first < 1 || second < 1 || third < 1 {
            return None;
        }
        let sum: u16 = first as u16 + second as u16 + third as u16;
        if sum >= total_length as u16 {
            return None;
        }
        let rest: u8 = (total_length as u16 - sum) as u8;
        let mut list: Vec<u8> = Vec::new();
        list.push(first);
        list.push(second);
        list.push(third);
        list.push(rest);
        assert(list@ =~= seq![first, second, third, rest]);
        Some(list)
    }

    /// The lengths with the given count for each class. Every count must be
    /// at least one, and the four together at most 255.
    pub fn from_counts(
        lower: u8,
        upper: u8,
        punctuation: u8,
        numbers: u8,
    ) -> (made: Result<PasswordLengths, Error>)
        ensures
            made is Ok <==> lower >= 1 && upper >= 1 && punctuation >= 1 && numbers >= 1 && lower
                + upper + punctuation + numbers <= u8::MAX,
            made matches Ok(lengths) ==> lengths@ == (Allocation {
                lower: lower as nat,
                upper: upper as nat,
                punctuation: punctuation as nat,
                numbers: numbers as nat,
            }),
            made matches Err(error) ==> error == Error::InvalidParameter,
    {
        if lower < 1 || upper < 1 || punctuation < 1 || numbers < 1 {
            return Err(Error::InvalidParameter);
        }
        let sum: u16 = lower as u16 + upper as u16 + punctuation as u16 + numbers as u16;
        if sum > 255 {
            return Err(Error::InvalidParameter);
        }
        Ok(PasswordLengths { lower, upper, punctuation, numbers })
    }

    /// The length of the password: the four counts together.
    pub fn total_length(&self) -> (total: u8)
        ensures
            total == self@.total(),
            self@.positive(),
    {
        proof {
            use_type_invariant(self);
        }
        self.lower + self.upper + self.punctuation + self.numbers
    }

    /// Number of lowercase letters.
    pub fn lower(&self) -> (count: u8)
        ensures
            count == self@.lower,
            count >= 1,
    {
        proof {
            use_type_invariant(self);
        }
        self.lower
    }

    /// Number of uppercase letters.
    pub fn upper(&self) -> (count: u8)
        ensures
            count == self@.upper,
            count >= 1,
    {
        proof {
            use_type_invariant(self);
        }
        self.upper
    }

    /// Number of punctuation characters.
    pub fn punctuation(&self) -> (count: u8)
        ensures
            count == self@.punctuation,
            count >= 1,
    {
        proof {
            use_type_invariant(self);
        }
        self.punctuation
    }

    /// Number of digits.
    pub fn numbers(&self) -> (count: u8)
        ensures
            count == self@.numbers,
            count >= 1,
    {
        proof {
            use_type_invariant(self);
        }
        self.numbers
    }
}

/// The sum of four counts, written out.
pub proof fn lemma_sum_of_four(counts: Seq<u8>)
    requires
        counts.len() == 4,
    ensures
        sum_of(counts) == counts[0] + counts[1] + counts[2] + counts[3],
{
    let weight = |count: u8| count as int;
    let three = counts.drop_last();
    let two = three.drop_last();
    let one = two.drop_last();
    assert(weight_sum(one.drop_last(), weight) == 0);
    assert(weight_sum(one, weight) == weight_sum(one.drop_last(), weight) + weight(one.last()));
    assert(weight_sum(two, weight) == weight_sum(one, weight) + weight(two.last()));
    assert(weight_sum(three, weight) == weight_sum(two, weight) + weight(three.last()));
    assert(weight_sum(counts, weight) == weight_sum(three, weight) + weight(counts.last()));
}

/// The counts that three draws leave are positive and use up the length.
pub proof fn lemma_split_sum(total_length: u8, first: u8, second: u8, third: u8)
    requires
        split_of(total_length, first, second, third) is Some,
    ensures
        ({
            let counts = split_of(total_length, first, second, third)->Some_0;
            &&& counts.len() == 4
            &&& sum_of(counts) == total_length
            &&& forall|i: int| 0 <= i < 4 ==> counts[i] >= 1
        }),
{
    lemma_sum_of_four(split_of(total_length, first, second, third)->Some_0);
}

/// Handing four counts out in another order changes neither their sum nor
/// the fact that each is positive.
pub proof fn lemma_rearranged_counts(before: Seq<u8>, after: Seq<u8>)
    requires
        before.len() == 4,
        before.to_multiset() == after.to_multiset(),
        forall|i: int| 0 <= i < 4 ==> before[i] >= 1,
    ensures
        after.len() == 4,
        after[0] + after[1] + after[2] + after[3] == sum_of(before),
        forall|i: int| 0 <= i < 4 ==> after[i] >= 1,
{
    before.to_multiset_ensures();
    after.to_multiset_ensures();
    assert forall|i: int| 0 <= i < 4 implies after[i] >= 1 by {
        assert(after.contains(after[i]));
        assert(after.to_multiset().count(after[i]) > 0);
        assert(before.to_multiset().count(after[i]) > 0);
        assert(before.contains(after[i]));
    }
    lemma_weight_sum_permutation(before, after, |count: u8| count as int);
    lemma_sum_of_four(after);
}

} // verus!
