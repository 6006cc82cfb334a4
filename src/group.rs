//! The public cyclic group `(modulus, generator)` and the Chaum–Pedersen
//! verification equation over it.
use crate::bignum::{digits_value, mod_pow_spec, Nat};
use vstd::prelude::*;

verus! {

/// Mathematical view of the protocol parameters.
pub struct GroupModel {
    pub modulus: nat,
    pub generator: nat,
}

/// Parameters that the protocol can run over: a modulus above two and a
/// generator strictly between one and the modulus.
pub open spec fn group_ok(g: GroupModel) -> bool {
    g.modulus > 2 && 1 < g.generator < g.modulus
}

/// `generator^exponent mod modulus`: a commitment to `exponent`.
pub open spec fn commitment(g: GroupModel, exponent: nat) -> nat {
    mod_pow_spec(g.generator, exponent, g.modulus)
}

/// The prover's answer `nonce + challenge * secret`, not reduced.
pub open spec fn response(nonce: nat, challenge: nat, secret: nat) -> nat {
    nonce + challenge * secret
}

/// The verification equation `g^s == y2 * y1^c (mod p)`.
pub open spec fn proof_accepts(g: GroupModel, y1: nat, y2: nat, c: nat, s: nat) -> bool {
    commitment(g, s) == (y2 * mod_pow_spec(y1, c, g.modulus)) % g.modulus
}

/// Public protocol parameters, shared read-only by provers and verifiers.
pub struct Params {
    modulus: Nat,
    generator: Nat,
}

impl View for Params {
    type V = GroupModel;

    closed spec fn view(&self) -> GroupModel {
        GroupModel { modulus: self.modulus@, generator: self.generator@ }
    }
}

impl Params {
    /// Parameters `(modulus, generator)`, or `None` when the modulus is at most two
    /// or the generator is not strictly between one and the modulus.
    pub fn new(modulus: Nat, generator: Nat) -> (r: Option<Params>)
        ensures
            r is Some <==> (modulus@ > 2 && 1 < generator@ < modulus@),
            r matches Some(p) ==> p@ == (GroupModel { modulus: modulus@, generator: generator@ }),
    {
        let one = Nat::from_u64(1);
        let two = Nat::from_u64(2);
        if two.less_than(&modulus) && one.less_than(&generator) && generator.less_than(&modulus) {
            Some(Params { modulus, generator })
        } else {
            None
        }
    }

    /// The small group the service runs on by default: modulus 53239, generator 2.
    pub fn service_default() -> (r: Params)
        ensures
            r@ == (GroupModel { modulus: 53239, generator: 2 }),
            group_ok(r@),
    {
        Params { modulus: Nat::from_u64(53239), generator: Nat::from_u64(2) }
    }

    #[verifier::type_invariant]
    spec fn inv(&self) -> bool {
        group_ok(self@)
    }

    /// The modulus.
    pub fn modulus(&self) -> (r: Nat)
        ensures
            r@ == self@.modulus,
    {
        self.modulus.copy()
    }

    /// The generator.
    pub fn generator(&self) -> (r: Nat)
        ensures
            r@ == self@.generator,
    {
        self.generator.copy()
    }

    /// `generator^exponent mod modulus`.
    pub fn commit(&self, exponent: &Nat) -> (r: Nat)
        ensures
            r@ == commitment(self@, exponent@),
    {
        proof {
            use_type_invariant(self);
        }
        self.generator.mod_pow(exponent, &self.modulus)
    }

    /// Checks the verification equation `g^s == y2 * y1^c (mod p)`.
    pub fn accepts(&self, y1: &Nat, y2: &Nat, c: &Nat, s: &Nat) -> (r: bool)
        ensures
            r == proof_accepts(self@, y1@, y2@, c@, s@),
    {
        proof {
            use_type_invariant(self);
        }
        let left = self.commit(s);
        let right = y2.mul(&y1.mod_pow(c, &self.modulus)).rem(&self.modulus);
        left.same_value(&right)
    }

    /// A random scalar in `[1, modulus - 1)`.
    pub fn random_scalar(&self) -> (r: Nat)
        ensures
            1 <= r@ < self@.modulus - 1,
    {
        proof {
            use_type_invariant(self);
        }
        // As many random digits as the modulus has, and two more, so that the
        // reduction in `scalar_from_words` leaves a bias under 2^-64.
        let n: usize = self.modulus.digit_count();
        let mut words: Vec<u32> = Vec::new();
        let mut i: usize = 0;
        while i < n
            invariant
                words@.len() == i,
                i <= n,
            decreases n - i,
        {
            words.push(random_word());
            i = i + 1;
        }
        words.push(random_word());
        words.push(random_word());
        self.scalar_from_words(words)
    }

    /// The scalar that the random digits `words` (little-endian, base 2^32) stand
    /// for: their value reduced into `[1, modulus - 1)`.
    pub fn scalar_from_words(&self, words: Vec<u32>) -> (r: Nat)
        ensures
            r@ == digits_value(words@) % ((self@.modulus - 2) as nat) + 1,
            1 <= r@ < self@.modulus - 1,
    {
        proof {
            use_type_invariant(self);
        }
        let two = Nat::from_u64(2);
        let one = Nat::from_u64(1);
        let span = self.modulus.sub(&two);
        let wide = Nat::from_digits(words);
        wide.rem(&span).add(&one)
    }
}

/// Relies on `rand::random::<u32>`: any value may come back.
#[verifier::external_body]
fn random_word() -> (r: u32) {
    rand::random::<u32>()
}

} // verus!
