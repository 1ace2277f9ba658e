//! Elements of the Pallas base field, held by their canonical little-endian
//! encoding. The arithmetic itself is done by `halo2_proofs`.

use crate::error::ParseError;
use halo2_proofs::arithmetic::FieldExt;
use halo2_proofs::pasta::group::ff::PrimeField;
use halo2_proofs::pasta::Fp;
use vstd::prelude::*;

verus! {

/// The prime `p` of the field.
pub open spec fn modulus() -> nat {
    0x40000000000000000000000000000000224698fc094cf91b992d30ed00000001nat
}

/// The natural number that `bytes` encodes, least significant byte first.
pub open spec fn le_value(bytes: Seq<u8>) -> nat
    decreases bytes.len(),
{
    if bytes.len() == 0 {
        0
    } else {
        bytes[0] as nat + 256 * le_value(bytes.skip(1))
    }
}

/// The integer held by the low 128 bits of `v`.
pub open spec fn low_bits(v: nat) -> u128 {
    (v % 0x1_0000_0000_0000_0000_0000_0000_0000_0000nat) as u128
}

/// The bitwise exclusive or of two field values, each read as the bounded
/// integer in its low 128 bits.
pub open spec fn xor_value(a: nat, b: nat) -> nat {
    (low_bits(a) ^ low_bits(b)) as nat
}

/// Whether `s` is the canonical decimal form of a number: digits only, at
/// least one, and no leading zero but in "0" itself.
pub open spec fn is_decimal(s: Seq<char>) -> bool {
    &&& s.len() > 0
    &&& forall|i: int| 0 <= i < s.len() ==> '0' <= #[trigger] s[i] <= '9'
    &&& (s[0] == '0' ==> s.len() == 1)
}

/// The number that a string of decimal digits denotes.
pub open spec fn decimal_value(s: Seq<char>) -> nat
    decreases s.len(),
{
    if s.len() == 0 {
        0
    } else {
        (10 * decimal_value(s.drop_last()) + (s.last() as nat - '0' as nat)) as nat
    }
}

/// An element of the field. Its view is the integer in `[0, p)` that it
/// stands for.
#[derive(Clone, Copy, Debug, PartialEq, Eq)]
pub struct FieldElement {
    repr: [u8; 32],
}

impl View for FieldElement {
    type V = nat;

    closed spec fn view(&self) -> nat {
        le_value(self.repr@)
    }
}

/// Two encodings of one length that denote the same number are the same
/// bytes.
pub proof fn lemma_le_value_injective(a: Seq<u8>, b: Seq<u8>)
    requires
        a.len() == b.len(),
        le_value(a) == le_value(b),
    ensures
        a == b,
    decreases a.len(),
{
    if a.len() > 0 {
        lemma_le_value_injective(a.skip(1), b.skip(1));
        assert(a[0] == b[0]);
        assert forall|i: int| 0 <= i < a.len() implies a[i] == b[i] by {
            if i > 0 {
                assert(a[i] == a.skip(1)[i - 1]);
                assert(b[i] == b.skip(1)[i - 1]);
            }
        }
    }
    assert(a =~= b);
}

impl FieldElement {
    /// What holds of every element: its value lies below `p`.
    #[verifier::type_invariant]
    pub open spec fn in_field(self) -> bool {
        self@ < modulus()
    }

    /// Equal values are equal elements: an element has one encoding.
    pub proof fn lemma_view_injective(a: FieldElement, b: FieldElement)
        requires
            a@ == b@,
        ensures
            a == b,
    {
        lemma_le_value_injective(a.repr@, b.repr@);
        assert(a.repr =~= b.repr);
    }

    /// The element that stands for `v`.
    pub fn from_u128(v: u128) -> (element: FieldElement)
        ensures
            element@ == v,
    {
        fp_from_u128(v)
    }

    /// The additive identity.
    pub fn zero() -> (element: FieldElement)
        ensures
            element@ == 0,
    {
        fp_from_u128(0)
    }

    /// The multiplicative identity.
    pub fn one() -> (element: FieldElement)
        ensures
            element@ == 1,
    {
        fp_from_u128(1)
    }

    /// Reads an element from its canonical decimal form. A longer number is
    /// reduced modulo `p`; anything that is not a canonical decimal number
    /// is refused.
    pub fn from_canonical_string(s: &str) -> (parsed: Result<FieldElement, ParseError>)
        ensures
            parsed is Ok <==> is_decimal(s@),
            parsed matches Ok(element) ==> element@ == decimal_value(s@) % modulus(),
    {
        match fp_from_str_vartime(s) {
            Some(element) => Ok(element),
            None => Err(ParseError {  }),
        }
    }

    /// The canonical encoding, least significant byte first.
    pub fn to_bytes(&self) -> (bytes: [u8; 32])
        ensures
            le_value(bytes@) == self@,
            self@ < modulus(),
    {
        proof {
            use_type_invariant(self);
        }
        self.repr
    }

    /// The sum of two elements.
    pub fn add(&self, rhs: &FieldElement) -> (sum: FieldElement)
        ensures
            sum@ == (self@ + rhs@) % modulus(),
    {
        proof {
            use_type_invariant(self);
            use_type_invariant(rhs);
        }
        fp_add(self, rhs)
    }

    /// The difference of two elements.
    pub fn sub(&self, rhs: &FieldElement) -> (difference: FieldElement)
        ensures
            difference@ == (self@ + modulus() - rhs@) % (modulus() as int),
    {
        proof {
            use_type_invariant(self);
            use_type_invariant(rhs);
        }
        fp_sub(self, rhs)
    }

    /// The product of two elements.
    pub fn mul(&self, rhs: &FieldElement) -> (product: FieldElement)
        ensures
            product@ == (self@ * rhs@) % modulus(),
    {
        proof {
            use_type_invariant(self);
            use_type_invariant(rhs);
        }
        fp_mul(self, rhs)
    }

    /// The square of an element.
    pub fn square(&self) -> (squared: FieldElement)
        ensures
            squared@ == (self@ * self@) % modulus(),
    {
        proof {
            use_type_invariant(self);
        }
        fp_square(self)
    }

    /// The low 128 bits of the element's value.
    pub fn lower_128(&self) -> (low: u128)
        ensures
            low == low_bits(self@),
    {
        proof {
            use_type_invariant(self);
        }
        fp_get_lower_128(self)
    }

    /// The bitwise exclusive or of two elements, each read as the bounded
    /// integer in its low 128 bits.
    pub fn xor(&self, rhs: &FieldElement) -> (mixed: FieldElement)
        ensures
            mixed@ == xor_value(self@, rhs@),
    {
        let left = self.lower_128();
        let right = rhs.lower_128();
        fp_from_u128(left ^ right)
    }
}

/// `FieldExt::from_u128` on `Fp`, then `to_repr`: the element congruent to
/// `v`. As `v` is below `p`, that element's canonical value is `v` itself.
#[verifier::external_body]
fn fp_from_u128(v: u128) -> (element: FieldElement)
    ensures
        element@ == v,
        element@ < modulus(),
{
    FieldElement { repr: Fp::from_u128(v).to_repr() }
}

/// `FieldExt::get_lower_128` on `Fp`: the low 128 bits of the canonical
/// value. The argument must be canonical, since `from_repr` yields nothing
/// for an encoding of `p` or more.
#[verifier::external_body]
fn fp_get_lower_128(a: &FieldElement) -> (low: u128)
    requires
        a@ < modulus(),
    ensures
        low == low_bits(a@),
{
    Fp::from_repr(a.repr).unwrap().get_lower_128()
}

/// `PrimeField::from_str_vartime` on `Fp`: nothing for the empty string, for
/// a leading zero before more characters and for any character that is no
/// decimal digit; otherwise the digits' number, reduced modulo `p` as it is
/// read.
#[verifier::external_body]
fn fp_from_str_vartime(s: &str) -> (parsed: Option<FieldElement>)
    ensures
        parsed is Some <==> is_decimal(s@),
        parsed matches Some(element) ==> element@ == decimal_value(s@) % modulus() && element@
            < modulus(),
{
    match Fp::from_str_vartime(s) {
        Some(x) => Some(FieldElement { repr: x.to_repr() }),
        None => None,
    }
}

/// `Fp`'s `+`: the sum of the two values, reduced modulo `p`. Both arguments
/// must be canonical, since `from_repr` yields nothing for an encoding of
/// `p` or more.
#[verifier::external_body]
fn fp_add(a: &FieldElement, b: &FieldElement) -> (sum: FieldElement)
    requires
        a@ < modulus(),
        b@ < modulus(),
    ensures
        sum@ == (a@ + b@) % modulus(),
        sum@ < modulus(),
{
    let x = Fp::from_repr(a.repr).unwrap();
    let y = Fp::from_repr(b.repr).unwrap();
    FieldElement { repr: (x + y).to_repr() }
}

/// `Fp`'s `-`: the difference of the two values modulo `p`, which is `a - b`
/// with `p` added where `b` is the larger. Both arguments must be canonical.
#[verifier::external_body]
fn fp_sub(a: &FieldElement, b: &FieldElement) -> (difference: FieldElement)
    requires
        a@ < modulus(),
        b@ < modulus(),
    ensures
        difference@ == (a@ + modulus() - b@) % (modulus() as int),
        difference@ < modulus(),
{
    let x = Fp::from_repr(a.repr).unwrap();
    let y = Fp::from_repr(b.repr).unwrap();
    FieldElement { repr: (x - y).to_repr() }
}

/// `Fp`'s `*`: the product of the two values, reduced modulo `p`. Both
/// arguments must be canonical.
#[verifier::external_body]
fn fp_mul(a: &FieldElement, b: &FieldElement) -> (product: FieldElement)
    requires
        a@ < modulus(),
        b@ < modulus(),
    ensures
        product@ == (a@ * b@) % modulus(),
        product@ < modulus(),
{
    let x = Fp::from_repr(a.repr).unwrap();
    let y = Fp::from_repr(b.repr).unwrap();
    FieldElement { repr: (x * y).to_repr() }
}

/// `Field::square` on `Fp`: the value times itself, reduced modulo `p`. The
/// argument must be canonical.
#[verifier::external_body]
fn fp_square(a: &FieldElement) -> (squared: FieldElement)
    requires
        a@ < modulus(),
    ensures
        squared@ == (a@ * a@) % modulus(),
        squared@ < modulus(),
{
    FieldElement { repr: Fp::from_repr(a.repr).unwrap().square().to_repr() }
}

} // verus!
