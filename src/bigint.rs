//! BigInt values, held as a sign and base-2^32 digits.

use vstd::prelude::*;

verus! {

/// A digit sequence with its zero digits at the top removed.
pub open spec fn strip_zeros(digits: Seq<u32>) -> Seq<u32>
    decreases digits.len(),
{
    if digits.len() > 0 && digits.last() == 0 {
        strip_zeros(digits.drop_last())
    } else {
        digits
    }
}

/// The canonical form: no zero digit at the top, and zero is not negative.
/// Two canonical values are equal exactly when they are the same integer.
pub open spec fn canonical(v: (bool, Seq<u32>)) -> bool {
    &&& v.1.len() == 0 || v.1.last() != 0
    &&& v.0 ==> v.1.len() > 0
}

/// The canonical form of the integer with the given sign and digits.
pub open spec fn normalized(negative: bool, digits: Seq<u32>) -> (bool, Seq<u32>) {
    let d = strip_zeros(digits);
    (negative && d.len() > 0, d)
}

proof fn lemma_strip_zeros(digits: Seq<u32>)
    ensures
        strip_zeros(digits).len() == 0 || strip_zeros(digits).last() != 0,
    decreases digits.len(),
{
    if digits.len() > 0 && digits.last() == 0 {
        lemma_strip_zeros(digits.drop_last());
    }
}

/// An arbitrary-precision integer: a sign and the base-2^32 digits of the
/// magnitude, least significant first, always in canonical form.
#[derive(Debug)]
pub struct BigIntRep {
    negative: bool,
    digits: Vec<u32>,
}

impl View for BigIntRep {
    type V = (bool, Seq<u32>);

    closed spec fn view(&self) -> (bool, Seq<u32>) {
        (self.negative, self.digits@)
    }
}

impl BigIntRep {
    #[verifier::type_invariant]
    spec fn inv(&self) -> bool {
        canonical(self@)
    }

    /// The value is zero: in canonical form, it has no digits.
    pub open spec fn is_zero_spec(&self) -> bool {
        self@.1.len() == 0
    }

    /// The integer with the given sign and base-2^32 digits, least
    /// significant first; zero digits at the top are dropped, and a zero is
    /// not negative.
    pub fn new(negative: bool, digits: Vec<u32>) -> (r: BigIntRep)
        ensures
            r@ == normalized(negative, digits@),
    {
        let mut digits = digits;
        let ghost original = digits@;
        while digits.len() > 0 && digits[digits.len() - 1] == 0
            invariant
                strip_zeros(digits@) == strip_zeros(original),
            decreases digits.len(),
        {
            proof {
                assert(digits@.drop_last() == digits@.subrange(0, digits@.len() - 1));
            }
            digits.pop();
        }
        proof {
            lemma_strip_zeros(original);
        }
        let negative = negative && digits.len() > 0;
        BigIntRep { negative, digits }
    }

    /// Is the value below zero?
    pub fn is_negative(&self) -> (r: bool)
        ensures
            r == self@.0,
            canonical(self@),
    {
        proof {
            use_type_invariant(self);
        }
        self.negative
    }

    /// The digits of the magnitude, least significant first.
    pub fn digits(&self) -> (r: &Vec<u32>)
        ensures
            r@ == self@.1,
            canonical(self@),
    {
        proof {
            use_type_invariant(self);
        }
        &self.digits
    }

    /// Is the value zero?
    pub fn is_zero(&self) -> (r: bool)
        ensures
            r == self.is_zero_spec(),
    {
        self.digits.len() == 0
    }
}

/// BigInt::equal: the two integers are the same.
pub fn e262_equal(x: &BigIntRep, y: &BigIntRep) -> (r: bool)
    ensures
        r == (x@ == y@),
{
    if x.negative != y.negative || x.digits.len() != y.digits.len() {
        return false;
    }
    let n = x.digits.len();
    let mut i: usize = 0;
    while i < n
        invariant
            n == x.digits@.len(),
            n == y.digits@.len(),
            0 <= i <= n,
            forall|j: int| 0 <= j < i ==> x.digits@[j] == y.digits@[j],
        decreases n - i,
    {
        if x.digits[i] != y.digits[i] {
            return false;
        }
        i = i + 1;
    }
    assert(x.digits@ =~= y.digits@);
    true
}

/// Is the integer zero?
pub fn is_zero(value: &BigIntRep) -> (r: bool)
    ensures
        r == value.is_zero_spec(),
{
    value.is_zero()
}

} // verus!
