//! Elements of the prime field that the machine computes in.
//!
//! A `Felt` holds the canonical representative of a field element as four
//! little-endian 64-bit limbs. Its view is that representative as a `nat`,
//! always below `modulus()`. The field arithmetic itself is done by ark-ff on
//! the Pallas base field.
use ark_ff::{BigInteger256, PrimeField};
use vstd::arithmetic::div_mod::lemma_fundamental_div_mod_converse;
use vstd::prelude::*;

verus! {

/// The characteristic of the field: the Pallas base field prime.
/// Written limb by limb, as 2^254 + 0x224698fc094cf91b992d30ed00000001.
pub open spec fn modulus() -> nat {
    0x992d30ed00000001 + limb_base() * (0x224698fc094cf91b + limb_base() * (limb_base()
        * 0x4000000000000000))
}

/// The weight of one limb.
pub open spec fn limb_base() -> nat {
    0x1_0000_0000_0000_0000
}

/// Field addition on canonical representatives.
pub open spec fn fadd(a: nat, b: nat) -> nat {
    (a + b) % modulus()
}

/// Field subtraction on canonical representatives.
pub open spec fn fsub(a: nat, b: nat) -> nat {
    ((a - b) % (modulus() as int)) as nat
}

/// Field multiplication on canonical representatives.
pub open spec fn fmul(a: nat, b: nat) -> nat {
    (a * b) % modulus()
}

/// A field element, stored as its canonical representative.
#[derive(Clone, Copy, PartialEq, Eq, Structural, Debug)]
pub struct Felt {
    l0: u64,
    l1: u64,
    l2: u64,
    l3: u64,
}

impl View for Felt {
    type V = nat;

    closed spec fn view(&self) -> nat {
        self.l0 as nat + limb_base() * (self.l1 as nat + limb_base() * (self.l2 as nat
            + limb_base() * self.l3 as nat))
    }
}

impl Felt {
    /// Every `Felt` is reduced modulo the field characteristic.
    #[verifier::type_invariant]
    closed spec fn canonical(&self) -> bool {
        self@ < modulus()
    }

    /// Two field elements are equal exactly when their values are.
    pub proof fn lemma_view_injective(a: Felt, b: Felt)
        ensures
            (a@ == b@) <==> (a == b),
    {
        if a@ == b@ {
            let qa = a.l1 as int + limb_base() * (a.l2 as int + limb_base() * a.l3 as int);
            let qb = b.l1 as int + limb_base() * (b.l2 as int + limb_base() * b.l3 as int);
            lemma_fundamental_div_mod_converse(a@ as int, limb_base() as int, qa, a.l0 as int);
            lemma_fundamental_div_mod_converse(b@ as int, limb_base() as int, qb, b.l0 as int);
            let ra = a.l2 as int + limb_base() * a.l3 as int;
            let rb = b.l2 as int + limb_base() * b.l3 as int;
            lemma_fundamental_div_mod_converse(qa, limb_base() as int, ra, a.l1 as int);
            lemma_fundamental_div_mod_converse(qb, limb_base() as int, rb, b.l1 as int);
            lemma_fundamental_div_mod_converse(ra, limb_base() as int, a.l3 as int, a.l2 as int);
            lemma_fundamental_div_mod_converse(rb, limb_base() as int, b.l3 as int, b.l2 as int);
        }
    }

    /// The low 64 bits of the canonical representative.
    pub fn low_bits(&self) -> (r: u64)
        ensures
            r == self@ % limb_base(),
    {
        proof {
            let q = self.l1 as int + limb_base() * (self.l2 as int + limb_base() * self.l3 as int);
            lemma_fundamental_div_mod_converse(self@ as int, limb_base() as int, q, self.l0 as int);
        }
        self.l0
    }

    /// The element with representative `n`.
    pub fn from_u64(n: u64) -> (r: Felt)
        ensures
            r@ == n as nat,
    {
        Felt { l0: n, l1: 0, l2: 0, l3: 0 }
    }

    /// The additive identity.
    pub fn zero() -> (r: Felt)
        ensures
            r@ == 0,
    {
        Felt::from_u64(0)
    }

    /// The multiplicative identity.
    pub fn one() -> (r: Felt)
        ensures
            r@ == 1,
    {
        Felt::from_u64(1)
    }

    /// `self + o` in the field.
    pub fn add(self, o: Felt) -> (r: Felt)
        ensures
            r@ == fadd(self@, o@),
    {
        proof {
            use_type_invariant(&self);
            use_type_invariant(&o);
        }
        field_add(self, o)
    }

    /// `self - o` in the field.
    pub fn sub(self, o: Felt) -> (r: Felt)
        ensures
            r@ == fsub(self@, o@),
    {
        proof {
            use_type_invariant(&self);
            use_type_invariant(&o);
        }
        field_sub(self, o)
    }

    /// `self * o` in the field.
    pub fn mul(self, o: Felt) -> (r: Felt)
        ensures
            r@ == fmul(self@, o@),
    {
        proof {
            use_type_invariant(&self);
            use_type_invariant(&o);
        }
        field_mul(self, o)
    }

    /// The element `n`, taken modulo the characteristic when negative.
    pub fn from_i64(n: i64) -> (r: Felt)
        ensures
            n >= 0 ==> r@ == n as nat,
            n < 0 ==> r@ == fsub(0, (-n) as nat),
    {
        if n >= 0 {
            Felt::from_u64(n as u64)
        } else {
            let m: u64 = (0i128 - n as i128) as u64;
            Felt::zero().sub(Felt::from_u64(m))
        }
    }

    /// Whether this is the additive identity.
    pub fn is_zero(&self) -> (r: bool)
        ensures
            r == (self@ == 0),
    {
        let z = Felt::zero();
        proof {
            Felt::lemma_view_injective(*self, z);
        }
        *self == z
    }

    /// Compares the canonical representatives.
    pub fn le(&self, o: &Felt) -> (r: bool)
        ensures
            r == (self@ <= o@),
    {
        proof {
            use_type_invariant(self);
            use_type_invariant(o);
        }
        field_le(self, o)
    }
}

/// Relies on `PrimeField::from_repr`, `Add` and `PrimeField::into_repr` of
/// ark-ff's `Fp256` over ark-pallas's `FqParameters`: the sum of two reduced
/// elements, reduced.
#[verifier::external_body]
fn field_add(a: Felt, b: Felt) -> (r: Felt)
    requires
        a@ < modulus(),
        b@ < modulus(),
    ensures
        r@ == fadd(a@, b@),
{
    let x = ark_pallas::Fq::from_repr(BigInteger256([a.l0, a.l1, a.l2, a.l3])).unwrap();
    let y = ark_pallas::Fq::from_repr(BigInteger256([b.l0, b.l1, b.l2, b.l3])).unwrap();
    let z = (x + y).into_repr().0;
    Felt { l0: z[0], l1: z[1], l2: z[2], l3: z[3] }
}

/// Relies on `PrimeField::from_repr`, `Sub` and `PrimeField::into_repr` of
/// ark-ff's `Fp256` over ark-pallas's `FqParameters`: the difference of two
/// reduced elements, reduced.
#[verifier::external_body]
fn field_sub(a: Felt, b: Felt) -> (r: Felt)
    requires
        a@ < modulus(),
        b@ < modulus(),
    ensures
        r@ == fsub(a@, b@),
{
    let x = ark_pallas::Fq::from_repr(BigInteger256([a.l0, a.l1, a.l2, a.l3])).unwrap();
    let y = ark_pallas::Fq::from_repr(BigInteger256([b.l0, b.l1, b.l2, b.l3])).unwrap();
    let z = (x - y).into_repr().0;
    Felt { l0: z[0], l1: z[1], l2: z[2], l3: z[3] }
}

/// Relies on `PrimeField::from_repr`, `Mul` and `PrimeField::into_repr` of
/// ark-ff's `Fp256` over ark-pallas's `FqParameters`: the product of two
/// reduced elements, reduced.
#[verifier::external_body]
fn field_mul(a: Felt, b: Felt) -> (r: Felt)
    requires
        a@ < modulus(),
        b@ < modulus(),
    ensures
        r@ == fmul(a@, b@),
{
    let x = ark_pallas::Fq::from_repr(BigInteger256([a.l0, a.l1, a.l2, a.l3])).unwrap();
    let y = ark_pallas::Fq::from_repr(BigInteger256([b.l0, b.l1, b.l2, b.l3])).unwrap();
    let z = (x * y).into_repr().0;
    Felt { l0: z[0], l1: z[1], l2: z[2], l3: z[3] }
}

/// Relies on `PrimeField::from_repr` and `Ord` of ark-ff's `Fp256` over
/// ark-pallas's `FqParameters`, which compares canonical representatives.
#[verifier::external_body]
fn field_le(a: &Felt, b: &Felt) -> (r: bool)
    requires
        a@ < modulus(),
        b@ < modulus(),
    ensures
        r == (a@ <= b@),
{
    let x = ark_pallas::Fq::from_repr(BigInteger256([a.l0, a.l1, a.l2, a.l3])).unwrap();
    let y = ark_pallas::Fq::from_repr(BigInteger256([b.l0, b.l1, b.l2, b.l3])).unwrap();
    x <= y
}

} // verus!
