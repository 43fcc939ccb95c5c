//! Natural numbers of any size, with the two operations that the backoff
//! schedule needs to compare exact products: times a machine word, and at
//! least.

use vstd::prelude::*;

verus! {

/// The base in which a number is written: each limb holds 32 bits.
pub open spec fn base() -> nat {
    4294967296
}

/// The weight of the limb at place `place`: the base to that power.
pub open spec fn weight(place: nat) -> nat
    decreases place,
{
    if place == 0 {
        1
    } else {
        base() * weight((place - 1) as nat)
    }
}

/// The number that limbs stand for, least significant limb first.
pub open spec fn value(limbs: Seq<u32>) -> nat
    decreases limbs.len(),
{
    if limbs.len() == 0 {
        0
    } else {
        value(limbs.drop_last()) + limbs.last() as nat * weight((limbs.len() - 1) as nat)
    }
}

/// `count` limbs of zero.
pub open spec fn zero_limbs(count: nat) -> Seq<u32> {
    Seq::new(count, |i: int| 0u32)
}

/// A number written in `n` limbs is less than the weight of place `n`.
pub proof fn lemma_value_below_weight(limbs: Seq<u32>)
    ensures
        value(limbs) < weight(limbs.len()),
    decreases limbs.len(),
{
    if limbs.len() > 0 {
        lemma_value_below_weight(limbs.drop_last());
        let low = value(limbs.drop_last());
        let top = limbs.last() as nat;
        let unit = weight((limbs.len() - 1) as nat);
        assert(low + top * unit < 4294967296 * unit) by (nonlinear_arith)
            requires
                low < unit,
                top <= 4294967295,
        ;
    }
}

/// Zeros written in front of a number do not change it.
pub proof fn lemma_leading_zeros(limbs: Seq<u32>, count: nat)
    ensures
        value(limbs + zero_limbs(count)) == value(limbs),
    decreases count,
{
    if count == 0 {
        assert(limbs + zero_limbs(0) =~= limbs);
    } else {
        let padded = limbs + zero_limbs(count);
        assert(padded.drop_last() =~= limbs + zero_limbs((count - 1) as nat));
        assert(padded.last() == 0u32);
        lemma_leading_zeros(limbs, (count - 1) as nat);
        let unit = weight((padded.len() - 1) as nat);
        assert(0nat * unit == 0) by (nonlinear_arith);
    }
}

/// Of two numbers written in as many limbs, the one with the smaller limb
/// at the highest place where they differ is the smaller.
pub proof fn lemma_decided_at(small: Seq<u32>, large: Seq<u32>, place: int)
    requires
        small.len() == large.len(),
        0 <= place < small.len(),
        small[place] < large[place],
        forall|above: int| place < above < small.len() ==> small[above] == large[above],
    ensures
        value(small) < value(large),
    decreases small.len(),
{
    let top = small.len() - 1;
    let unit = weight(top as nat);
    if place == top {
        lemma_value_below_weight(small.drop_last());
        let low = value(small.drop_last());
        let a = small.last() as nat;
        let b = large.last() as nat;
        assert(low + a * unit < b * unit) by (nonlinear_arith)
            requires
                low < unit,
                a < b,
        ;
    } else {
        assert(small.last() == large.last());
        assert(small.drop_last()[place] == small[place]);
        assert(large.drop_last()[place] == large[place]);
        assert forall|above: int| place < above < small.drop_last().len() implies small.drop_last()[above]
            == large.drop_last()[above] by {
            assert(small.drop_last()[above] == small[above]);
            assert(large.drop_last()[above] == large[above]);
        }
        lemma_decided_at(small.drop_last(), large.drop_last(), place);
    }
}

/// A natural number of any size.
#[derive(Debug)]
pub struct Wide {
    limbs: Vec<u32>,
}

impl View for Wide {
    type V = nat;

    closed spec fn view(&self) -> nat {
        value(self.limbs@)
    }
}

impl Wide {
    /// The number one.
    pub fn one() -> (number: Wide)
        ensures
            number@ == 1,
    {
        let mut limbs: Vec<u32> = Vec::new();
        limbs.push(1);
        assert(limbs@.drop_last() =~= Seq::<u32>::empty());
        assert(value(limbs@) == 1) by {
            assert(value(limbs@.drop_last()) == 0);
            assert(weight(0) == 1);
            assert(1nat * 1nat == 1) by (nonlinear_arith);
        }
        Wide { limbs }
    }

    /// A machine word as a number of any size.
    pub fn from_u64(word: u64) -> (number: Wide)
        ensures
            number@ == word,
    {
        let number = Wide::one().times(word);
        assert(1nat * word as nat == word) by (nonlinear_arith);
        number
    }

    /// The product of this number and a machine word.
    pub fn times(&self, factor: u64) -> (product: Wide)
        ensures
            product@ == self@ * factor,
    {
        let mut limbs: Vec<u32> = Vec::new();
        let mut carry: u64 = 0;
        let mut place: usize = 0;
        assert(self.limbs@.take(0) =~= Seq::<u32>::empty());
        assert(value(limbs@) + carry * weight(0) == value(self.limbs@.take(0)) * factor)
            by (nonlinear_arith)
            requires
                value(limbs@) == 0,
                carry == 0,
                value(self.limbs@.take(0)) == 0,
        ;
        while place < self.limbs.len()
            invariant
                place <= self.limbs@.len(),
                limbs@.len() == place,
                carry <= factor,
                value(limbs@) + carry * weight(place as nat) == value(
                    self.limbs@.take(place as int),
                ) * factor,
            decreases self.limbs@.len() - place,
        {
            let limb = self.limbs[place];
            assert(limb as u128 * factor as u128 + carry as u128 <= 4294967296 * factor as u128)
                by (nonlinear_arith)
                requires
                    limb <= 4294967295,
                    carry <= factor,
            ;
            let sum: u128 = limb as u128 * factor as u128 + carry as u128;
            let digit: u32 = (sum % 4294967296) as u32;
            let next: u64 = (sum / 4294967296) as u64;
            proof {
                let written = value(limbs@);
                let read = value(self.limbs@.take(place as int));
                let unit = weight(place as nat);
                let taken = self.limbs@.take(place + 1);
                assert(taken.drop_last() =~= self.limbs@.take(place as int));
                assert(taken.last() == limb);
                assert(limbs@.push(digit).drop_last() =~= limbs@);
                assert(weight((place + 1) as nat) == 4294967296 * unit);
                assert(written + digit * unit + next * (4294967296 * unit) == (read + limb * unit)
                    * factor) by (nonlinear_arith)
                    requires
                        written + carry * unit == read * factor,
                        digit + 4294967296 * next == limb * factor + carry,
                ;
            }
            limbs.push(digit);
            carry = next;
            place += 1;
        }
        let low: u32 = (carry % 4294967296) as u32;
        let high: u32 = (carry / 4294967296) as u32;
        proof {
            let written = value(limbs@);
            let unit = weight(place as nat);
            assert(self.limbs@.take(place as int) =~= self.limbs@);
            assert(limbs@.push(low).drop_last() =~= limbs@);
            assert(limbs@.push(low).push(high).drop_last() =~= limbs@.push(low));
            assert(weight((place + 1) as nat) == 4294967296 * unit);
            assert(written + low * unit + high * (4294967296 * unit) == written + carry * unit)
                by (nonlinear_arith)
                requires
                    low + 4294967296 * high == carry,
            ;
            let first = limbs@.push(low);
            let second = first.push(high);
            assert(first.last() == low && first.len() == place + 1);
            assert(value(first) == written + low * unit);
            assert(second.last() == high && second.len() == place + 2);
            assert(value(second) == value(first) + high * weight((place + 1) as nat));
            assert(value(second) == value(self.limbs@) * factor);
        }
        limbs.push(low);
        limbs.push(high);
        Wide { limbs }
    }

    /// The limb at a place, which is zero beyond the limbs written.
    fn limb(&self, place: usize) -> (limb: u32)
        ensures
            limb == if place < self.limbs@.len() {
                self.limbs@[place as int]
            } else {
                0u32
            },
    {
        if place < self.limbs.len() {
            self.limbs[place]
        } else {
            0
        }
    }

    /// Whether this number is at least as large as the other.
    pub fn at_least(&self, other: &Wide) -> (holds: bool)
        ensures
            holds == (self@ >= other@),
    {
        let places = if self.limbs.len() >= other.limbs.len() {
            self.limbs.len()
        } else {
            other.limbs.len()
        };
        let ghost ours = self.limbs@ + zero_limbs((places - self.limbs@.len()) as nat);
        let ghost theirs = other.limbs@ + zero_limbs((places - other.limbs@.len()) as nat);
        proof {
            lemma_leading_zeros(self.limbs@, (places - self.limbs@.len()) as nat);
            lemma_leading_zeros(other.limbs@, (places - other.limbs@.len()) as nat);
        }
        let mut place: usize = places;
        while place > 0
            invariant
                place <= places,
                ours.len() == places,
                theirs.len() == places,
                ours == self.limbs@ + zero_limbs((places - self.limbs@.len()) as nat),
                theirs == other.limbs@ + zero_limbs((places - other.limbs@.len()) as nat),
                value(ours) == self@,
                value(theirs) == other@,
                forall|above: int| place <= above < places ==> ours[above] == theirs[above],
            decreases place,
        {
            place -= 1;
            let mine = self.limb(place);
            let yours = other.limb(place);
            assert(mine == ours[place as int]);
            assert(yours == theirs[place as int]);
            if mine < yours {
                proof {
                    lemma_decided_at(ours, theirs, place as int);
                }
                return false;
            }
            if mine > yours {
                proof {
                    lemma_decided_at(theirs, ours, place as int);
                }
                return true;
            }
        }
        assert(ours =~= theirs);
        true
    }
}

} // verus!
